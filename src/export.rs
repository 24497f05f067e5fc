//! The Instapaper export as one bookmark document.

use vstd::prelude::*;
use crate::folders::{group_by_folder, group_entries, is_folder_grouping};
use crate::netscape_bookmark::{
    description_list_markup, document_markup, header_markup, title_markup, Bookmark,
    DocumentView, NetscapeBookmarks, DOCTYPE,
};

verus! {

/// The name that titles and heads the exported document.
pub const EXPORT_NAME: &'static str = "Instapaper";

/// The document for an export: `grouping` grouped by folder and laid out
/// under the export's title and header.
pub open spec fn export_markup(grouping: Seq<(String, Vec<Bookmark>)>) -> Seq<char> {
    document_markup(
        DocumentView {
            doctype: DOCTYPE@,
            title: title_markup(EXPORT_NAME@),
            header: header_markup(EXPORT_NAME@),
            description_list: description_list_markup(grouping),
        },
    )
}

/// Renders the saved articles as one bookmark document, one folder heading
/// per distinct folder label.
pub fn export_document(bookmarks: Vec<Bookmark>) -> (r: String)
    ensures
        exists|g: Seq<(String, Vec<Bookmark>)>|
            {
                &&& is_folder_grouping(bookmarks@, g)
                &&& group_entries(g).to_multiset() == bookmarks@.to_multiset()
                &&& r@ == export_markup(g)
            },
{
    let ghost input = bookmarks@;
    let folders = group_by_folder(bookmarks);
    let ghost g = folders@;
    let r = NetscapeBookmarks::new().doctype().title(EXPORT_NAME).header(EXPORT_NAME).description_lists(
        folders,
    ).render();
    assert(r@ == export_markup(g));
    r
}

} // verus!
