//! The Netscape bookmark file format, assembled in a fixed order of stages.

use std::marker::PhantomData;
use vstd::prelude::*;
use vstd::string::StringExecFns;
use crate::folders::FolderGroups;

verus! {

/// One saved article: where it points, what it is called, the folder it was
/// filed under and when it was saved (seconds since the epoch).
pub struct Bookmark {
    pub url: String,
    pub title: String,
    pub _selection: Option<String>,
    pub folder: String,
    pub timestamp: usize,
}

/// The fixed preamble that opens every bookmark file.
pub const DOCTYPE: &'static str = "<!DOCTYPE NETSCAPE-Bookmark-file-1>
    <!--This is an automatically generated file.
    It will be read and overwritten.
    Do Not Edit! -->";

/// The decimal digits of `n`, most significant first, without sign or padding.
pub open spec fn decimal(n: nat) -> Seq<char>
    decreases n,
{
    let digit = seq!['0', '1', '2', '3', '4', '5', '6', '7', '8', '9'][(n % 10) as int];
    if n < 10 {
        seq![digit]
    } else {
        decimal(n / 10).push(digit)
    }
}

/// The title element wrapping `text` as it is.
pub open spec fn title_markup(text: Seq<char>) -> Seq<char> {
    "<Title>"@ + text + "</Title>"@
}

/// The header element wrapping `text` as it is.
pub open spec fn header_markup(text: Seq<char>) -> Seq<char> {
    "<H1>"@ + text + "</H1>"@
}

/// The line of one bookmark: a link to its url, stamped with its save time,
/// showing its title.
pub open spec fn entry_markup(b: Bookmark) -> Seq<char> {
    "<DT><A HREF=\""@ + b.url@ + "\" ADD_DATE=\""@ + decimal(b.timestamp as nat) + "\">"@ + b.title@
        + "</A>\n"@
}

/// The lines of the bookmarks of `s`, in order.
pub open spec fn entries_markup(s: Seq<Bookmark>) -> Seq<char>
    decreases s.len(),
{
    if s.len() == 0 {
        Seq::empty()
    } else {
        entries_markup(s.drop_last()) + entry_markup(s.last())
    }
}

/// A folder heading followed by the inner list of the folder's bookmarks.
pub open spec fn folder_markup(f: (String, Vec<Bookmark>)) -> Seq<char> {
    "<DT><H3 FOLDED>"@ + f.0@ + "</H3>\n"@ + "<DL><p>\n"@ + entries_markup(f.1@) + "</DL><p>\n"@
}

/// The folder blocks of `g`, in order.
pub open spec fn folders_markup(g: Seq<(String, Vec<Bookmark>)>) -> Seq<char>
    decreases g.len(),
{
    if g.len() == 0 {
        Seq::empty()
    } else {
        folders_markup(g.drop_last()) + folder_markup(g.last())
    }
}

/// The outer list holding one block per folder of `g`.
pub open spec fn description_list_markup(g: Seq<(String, Vec<Bookmark>)>) -> Seq<char> {
    "<DL>\n"@ + folders_markup(g) + "</DL>\n"@
}

/// The four fragments of a bookmark document.
pub ghost struct DocumentView {
    pub doctype: Seq<char>,
    pub title: Seq<char>,
    pub header: Seq<char>,
    pub description_list: Seq<char>,
}

/// The whole document: each fragment followed by a newline, in fixed order.
pub open spec fn document_markup(d: DocumentView) -> Seq<char> {
    d.doctype + "\n"@ + d.title + "\n"@ + d.header + "\n"@ + d.description_list + "\n"@
}

/// A bookmark document under assembly. The stage `S` names the one fragment
/// that may be set next, so fragments can only be set once each, in order,
/// and the document rendered only when all four are set.
pub struct NetscapeBookmarks<'a, S: HtmlState> {
    state: Box<BookmarksHtmlState<'a>>,
    phantom: PhantomData<S>,
}

struct BookmarksHtmlState<'a> {
    doctype: &'a str,
    title: String,
    header: String,
    description_list: String,
}

impl<'a, S: HtmlState> View for NetscapeBookmarks<'a, S> {
    type V = DocumentView;

    closed spec fn view(&self) -> DocumentView {
        DocumentView {
            doctype: self.state.doctype@,
            title: self.state.title@,
            header: self.state.header@,
            description_list: self.state.description_list@,
        }
    }
}

impl<'a> NetscapeBookmarks<'a, Doctype> {
    /// An empty document, waiting for its preamble.
    pub fn new() -> (r: NetscapeBookmarks<'a, Doctype>)
        ensures
            r@.doctype.len() == 0,
            r@.title.len() == 0,
            r@.header.len() == 0,
            r@.description_list.len() == 0,
    {
        let state = BookmarksHtmlState {
            doctype: "",
            title: String::new(),
            header: String::new(),
            description_list: String::new(),
        };
        proof {
            reveal_strlit("");
        }
        NetscapeBookmarks { state: Box::new(state), phantom: PhantomData }
    }
}

/// A stage of document assembly.
pub trait HtmlState {

}

/// The stage that sets the preamble.
pub struct Doctype;

impl HtmlState for Doctype {

}

/// The stage that sets the title.
pub struct Title;

impl HtmlState for Title {

}

/// The stage that sets the header.
pub struct Header;

impl HtmlState for Header {

}

/// The stage that sets the folder list.
pub struct DescriptionList(Vec<Bookmark>);

impl HtmlState for DescriptionList {

}

/// The stage at which the document is complete.
pub struct Render;

impl HtmlState for Render {

}

impl<'a> NetscapeBookmarks<'a, Doctype> {
    /// Sets the fixed preamble.
    pub fn doctype(self) -> (r: NetscapeBookmarks<'a, Title>)
        ensures
            r@ == (DocumentView { doctype: DOCTYPE@, ..self@ }),
    {
        let mut state = self.state;
        state.doctype = DOCTYPE;
        NetscapeBookmarks { state, phantom: PhantomData }
    }
}

impl<'a> NetscapeBookmarks<'a, Title> {
    /// Sets the title element around `title`, unescaped.
    pub fn title(self, title: &str) -> (r: NetscapeBookmarks<'a, Header>)
        ensures
            r@ == (DocumentView { title: title_markup(title@), ..self@ }),
    {
        let mut markup = String::from_str("<Title>");
        markup.append(title);
        markup.append("</Title>");
        let mut state = self.state;
        state.title = markup;
        NetscapeBookmarks { state, phantom: PhantomData }
    }
}

impl<'a> NetscapeBookmarks<'a, Header> {
    /// Sets the header element around `header`, unescaped.
    pub fn header(self, header: &str) -> (r: NetscapeBookmarks<'a, DescriptionList>)
        ensures
            r@ == (DocumentView { header: header_markup(header@), ..self@ }),
    {
        let mut markup = String::from_str("<H1>");
        markup.append(header);
        markup.append("</H1>");
        let mut state = self.state;
        state.header = markup;
        NetscapeBookmarks { state, phantom: PhantomData }
    }
}

/// Relies on std's `Display` for `usize` (through `ToString`): the decimal
/// digits of `n`, with no sign, padding or separators.
#[verifier::external_body]
fn decimal_text(n: usize) -> (r: String)
    ensures
        r@ == decimal(n as nat),
{
    n.to_string()
}

/// The line of one bookmark.
fn entry_line(b: &Bookmark) -> (r: String)
    ensures
        r@ == entry_markup(*b),
{
    let mut line = String::from_str("<DT><A HREF=\"");
    line.append(b.url.as_str());
    line.append("\" ADD_DATE=\"");
    line.append(decimal_text(b.timestamp).as_str());
    line.append("\">");
    line.append(b.title.as_str());
    line.append("</A>\n");
    line
}

/// The heading and inner list of one folder.
fn folder_block(folder: &String, bookmarks: &Vec<Bookmark>) -> (r: String)
    ensures
        r@ == "<DT><H3 FOLDED>"@ + folder@ + "</H3>\n"@ + "<DL><p>\n"@ + entries_markup(bookmarks@)
            + "</DL><p>\n"@,
{
    let mut block = String::from_str("<DT><H3 FOLDED>");
    block.append(folder.as_str());
    block.append("</H3>\n");
    block.append("<DL><p>\n");
    let ghost head = block@;
    let mut i: usize = 0;
    proof {
        assert(bookmarks@.take(0) =~= Seq::<Bookmark>::empty());
        assert(head + entries_markup(bookmarks@.take(0)) =~= head);
    }
    while i < bookmarks.len()
        invariant
            i <= bookmarks@.len(),
            block@ == head + entries_markup(bookmarks@.take(i as int)),
        decreases bookmarks@.len() - i,
    {
        let line = entry_line(&bookmarks[i]);
        block.append(line.as_str());
        proof {
            assert(bookmarks@.take(i + 1).drop_last() =~= bookmarks@.take(i as int));
            assert(head + entries_markup(bookmarks@.take(i + 1)) =~= head + entries_markup(
                bookmarks@.take(i as int),
            ) + entry_markup(bookmarks@[i as int]));
        }
        i = i + 1;
    }
    proof {
        assert(bookmarks@.take(bookmarks@.len() as int) =~= bookmarks@);
    }
    block.append("</DL><p>\n");
    block
}

impl<'a> NetscapeBookmarks<'a, DescriptionList> {
    /// Sets the folder list: one heading and inner list per group of
    /// `folders`, in the order of `folders`, every field written unescaped.
    pub fn description_lists(self, folders: FolderGroups) -> (r: NetscapeBookmarks<'a, Render>)
        ensures
            r@ == (DocumentView { description_list: description_list_markup(folders@), ..self@ }),
    {
        let mut builder = String::from_str("<DL>\n");
        let ghost head = builder@;
        let mut i: usize = 0;
        proof {
            assert(folders@.take(0) =~= Seq::<(String, Vec<Bookmark>)>::empty());
            assert(head + folders_markup(folders@.take(0)) =~= head);
        }
        while i < folders.len()
            invariant
                i <= folders@.len(),
                builder@ == head + folders_markup(folders@.take(i as int)),
            decreases folders@.len() - i,
        {
            let block = folder_block(&folders[i].0, &folders[i].1);
            builder.append(block.as_str());
            proof {
                assert(folders@.take(i + 1).drop_last() =~= folders@.take(i as int));
                assert(head + folders_markup(folders@.take(i + 1)) =~= head + folders_markup(
                    folders@.take(i as int),
                ) + folder_markup(folders@[i as int]));
            }
            i = i + 1;
        }
        proof {
            assert(folders@.take(folders@.len() as int) =~= folders@);
        }
        builder.append("</DL>\n");
        let mut state = self.state;
        state.description_list = builder;
        NetscapeBookmarks { state, phantom: PhantomData }
    }
}

impl<'a> NetscapeBookmarks<'a, Render> {
    /// The finished document.
    pub fn render(self) -> (r: String)
        ensures
            r@ == document_markup(self@),
    {
        let mut out = String::from_str(self.state.doctype);
        out.append("\n");
        out.append(self.state.title.as_str());
        out.append("\n");
        out.append(self.state.header.as_str());
        out.append("\n");
        out.append(self.state.description_list.as_str());
        out.append("\n");
        out
    }
}

} // verus!
