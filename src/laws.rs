//! Properties of the assembled document.

use vstd::prelude::*;
use crate::netscape_bookmark::{
    decimal, description_list_markup, document_markup, entries_markup, entry_markup, folder_markup,
    folders_markup, header_markup, title_markup, Bookmark, DocumentView,
};

verus! {

/// `part` occurs in `whole` as a contiguous run of characters.
pub open spec fn is_infix(part: Seq<char>, whole: Seq<char>) -> bool {
    exists|i: int| 0 <= i && i + part.len() <= whole.len() && #[trigger] whole.subrange(i, i + part.len()) == part
}

proof fn lemma_infix_self(p: Seq<char>)
    ensures
        is_infix(p, p),
{
    let z: int = 0;
    assert(p.subrange(z, z + p.len()) =~= p);
}

proof fn lemma_infix_trans(p: Seq<char>, q: Seq<char>, r: Seq<char>)
    requires
        is_infix(p, q),
        is_infix(q, r),
    ensures
        is_infix(p, r),
{
    let i = choose|i: int| 0 <= i && i + p.len() <= q.len() && #[trigger] q.subrange(i, i + p.len()) == p;
    let k = choose|k: int| 0 <= k && k + q.len() <= r.len() && #[trigger] r.subrange(k, k + q.len()) == q;
    assert(r.subrange(k + i, k + i + p.len()) =~= q.subrange(i, i + p.len()));
}

/// `a` and `b` each occur in `a + b`.
proof fn lemma_infix_parts(a: Seq<char>, b: Seq<char>)
    ensures
        is_infix(a, a + b),
        is_infix(b, a + b),
{
    let z: int = 0;
    assert((a + b).subrange(z, z + a.len()) =~= a);
    assert((a + b).subrange(a.len() as int, (a.len() + b.len()) as int) =~= b);
}

proof fn lemma_entry_in_entries(s: Seq<Bookmark>, j: int)
    requires
        0 <= j < s.len(),
    ensures
        is_infix(entry_markup(s[j]), entries_markup(s)),
    decreases s.len(),
{
    lemma_infix_parts(entries_markup(s.drop_last()), entry_markup(s.last()));
    if j < s.len() - 1 {
        lemma_entry_in_entries(s.drop_last(), j);
        lemma_infix_trans(entry_markup(s[j]), entries_markup(s.drop_last()), entries_markup(s));
    }
}

proof fn lemma_folder_in_folders(g: Seq<(String, Vec<Bookmark>)>, i: int)
    requires
        0 <= i < g.len(),
    ensures
        is_infix(folder_markup(g[i]), folders_markup(g)),
    decreases g.len(),
{
    lemma_infix_parts(folders_markup(g.drop_last()), folder_markup(g.last()));
    if i < g.len() - 1 {
        lemma_folder_in_folders(g.drop_last(), i);
        lemma_infix_trans(folder_markup(g[i]), folders_markup(g.drop_last()), folders_markup(g));
    }
}

/// If `p` occurs in `x`, it occurs in `a + x + b`.
proof fn lemma_infix_within(p: Seq<char>, a: Seq<char>, x: Seq<char>, b: Seq<char>)
    requires
        is_infix(p, x),
    ensures
        is_infix(p, a + x + b),
{
    lemma_infix_parts(a, x);
    lemma_infix_parts(a + x, b);
    lemma_infix_trans(p, x, a + x);
    lemma_infix_trans(p, a + x, a + x + b);
}

/// The rendered folder list is inside the document that holds it.
proof fn lemma_list_in_document(d: DocumentView)
    ensures
        is_infix(d.description_list, document_markup(d)),
{
    let c = d.doctype + "\n"@ + d.title + "\n"@ + d.header + "\n"@;
    lemma_infix_parts(c, d.description_list);
    lemma_infix_parts(c + d.description_list, "\n"@);
    lemma_infix_trans(d.description_list, c + d.description_list, document_markup(d));
}

/// Every folder label, and every bookmark's url and title, occurs
/// character for character, unescaped, in the folder list rendered from
/// the groups and in any document that holds that list.
pub proof fn lemma_fields_verbatim(
    d: DocumentView,
    g: Seq<(String, Vec<Bookmark>)>,
    i: int,
    j: int,
)
    requires
        d.description_list == description_list_markup(g),
        0 <= i < g.len(),
        0 <= j < g[i].1@.len(),
    ensures
        is_infix(g[i].0@, description_list_markup(g)),
        is_infix(g[i].1@[j].url@, description_list_markup(g)),
        is_infix(g[i].1@[j].title@, description_list_markup(g)),
        is_infix(g[i].0@, document_markup(d)),
        is_infix(g[i].1@[j].url@, document_markup(d)),
        is_infix(g[i].1@[j].title@, document_markup(d)),
{
    let b = g[i].1@[j];
    let list = description_list_markup(g);
    let fm = folder_markup(g[i]);
    lemma_folder_in_folders(g, i);
    lemma_infix_within(fm, "<DL>\n"@, folders_markup(g), "</DL>\n"@);
    // the label
    lemma_infix_self(g[i].0@);
    lemma_infix_within(g[i].0@, "<DT><H3 FOLDED>"@, g[i].0@, "</H3>\n"@);
    lemma_infix_parts("<DT><H3 FOLDED>"@ + g[i].0@ + "</H3>\n"@, "<DL><p>\n"@);
    lemma_infix_parts(
        "<DT><H3 FOLDED>"@ + g[i].0@ + "</H3>\n"@ + "<DL><p>\n"@,
        entries_markup(g[i].1@),
    );
    lemma_infix_parts(
        "<DT><H3 FOLDED>"@ + g[i].0@ + "</H3>\n"@ + "<DL><p>\n"@ + entries_markup(g[i].1@),
        "</DL><p>\n"@,
    );
    let s1 = "<DT><H3 FOLDED>"@ + g[i].0@ + "</H3>\n"@;
    let s2 = s1 + "<DL><p>\n"@;
    let s3 = s2 + entries_markup(g[i].1@);
    lemma_infix_trans(g[i].0@, s1, s2);
    lemma_infix_trans(g[i].0@, s2, s3);
    lemma_infix_trans(g[i].0@, s3, fm);
    lemma_infix_trans(g[i].0@, fm, list);
    // the entry
    lemma_entry_in_entries(g[i].1@, j);
    lemma_infix_self(entries_markup(g[i].1@));
    lemma_infix_within(entries_markup(g[i].1@), s2, entries_markup(g[i].1@), "</DL><p>\n"@);
    lemma_infix_trans(entry_markup(b), entries_markup(g[i].1@), fm);
    lemma_infix_trans(entry_markup(b), fm, list);
    // url and title inside the entry
    let e1 = "<DT><A HREF=\""@ + b.url@;
    let e2 = e1 + "\" ADD_DATE=\""@ + decimal(b.timestamp as nat) + "\">"@;
    let e3 = e2 + b.title@;
    lemma_infix_parts("<DT><A HREF=\""@, b.url@);
    lemma_infix_parts(e2, b.title@);
    lemma_infix_parts(e1, "\" ADD_DATE=\""@);
    lemma_infix_parts(e1 + "\" ADD_DATE=\""@, decimal(b.timestamp as nat));
    lemma_infix_parts(e1 + "\" ADD_DATE=\""@ + decimal(b.timestamp as nat), "\">"@);
    lemma_infix_parts(e3, "</A>\n"@);
    lemma_infix_trans(e1, e1 + "\" ADD_DATE=\""@, e1 + "\" ADD_DATE=\""@ + decimal(b.timestamp as nat));
    lemma_infix_trans(e1, e1 + "\" ADD_DATE=\""@ + decimal(b.timestamp as nat), e2);
    lemma_infix_trans(e1, e2, e3);
    lemma_infix_trans(e1, e3, entry_markup(b));
    lemma_infix_trans(b.url@, e1, entry_markup(b));
    lemma_infix_trans(b.url@, entry_markup(b), list);
    lemma_infix_trans(b.title@, e3, entry_markup(b));
    lemma_infix_trans(b.title@, entry_markup(b), list);
    lemma_list_in_document(d);
    lemma_infix_trans(g[i].0@, list, document_markup(d));
    lemma_infix_trans(b.url@, list, document_markup(d));
    lemma_infix_trans(b.title@, list, document_markup(d));
}

/// The title and header texts occur character for character, unescaped, in
/// a document whose title and header fragments were made from them.
pub proof fn lemma_heading_texts_verbatim(d: DocumentView, title: Seq<char>, header: Seq<char>)
    requires
        d.title == title_markup(title),
        d.header == header_markup(header),
    ensures
        is_infix(title, document_markup(d)),
        is_infix(header, document_markup(d)),
{
    let doc = document_markup(d);
    lemma_infix_self(title);
    lemma_infix_within(title, "<Title>"@, title, "</Title>"@);
    lemma_infix_self(header);
    lemma_infix_within(header, "<H1>"@, header, "</H1>"@);
    let a = d.doctype + "\n"@;
    let b = a + d.title;
    let c = b + "\n"@ + d.header;
    lemma_infix_parts(a, d.title);
    lemma_infix_parts(b, "\n"@);
    lemma_infix_parts(b + "\n"@, d.header);
    lemma_infix_parts(c, "\n"@);
    lemma_infix_parts(c + "\n"@, d.description_list);
    lemma_infix_parts(c + "\n"@ + d.description_list, "\n"@);
    lemma_infix_trans(b, b + "\n"@, c);
    lemma_infix_trans(c, c + "\n"@, c + "\n"@ + d.description_list);
    lemma_infix_trans(c, c + "\n"@ + d.description_list, doc);
    lemma_infix_trans(b, c, doc);
    lemma_infix_trans(d.title, b, doc);
    lemma_infix_trans(title, d.title, doc);
    lemma_infix_trans(d.header, c, doc);
    lemma_infix_trans(header, d.header, doc);
}

} // verus!
