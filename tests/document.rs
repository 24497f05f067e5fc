use instamark::export::export_document;
use instamark::folders::group_by_folder;
use instamark::netscape_bookmark::{Bookmark, NetscapeBookmarks, DOCTYPE};

fn bookmark(url: &str, title: &str, folder: &str, timestamp: usize) -> Bookmark {
    Bookmark {
        url: url.to_string(),
        title: title.to_string(),
        _selection: Some("quote".to_string()),
        folder: folder.to_string(),
        timestamp,
    }
}

const PREAMBLE: &str = "<!DOCTYPE NETSCAPE-Bookmark-file-1>
    <!--This is an automatically generated file.
    It will be read and overwritten.
    Do Not Edit! -->";

#[test]
fn preamble_is_the_fixed_declaration() {
    assert_eq!(DOCTYPE, PREAMBLE);
}

#[test]
fn empty_export_has_empty_outer_list() {
    let out = export_document(Vec::new());
    let expected = format!(
        "{}\n<Title>Instapaper</Title>\n<H1>Instapaper</H1>\n<DL>\n</DL>\n\n",
        PREAMBLE
    );
    assert_eq!(out, expected);
}

#[test]
fn builder_renders_stages_in_order() {
    let out = NetscapeBookmarks::new()
        .doctype()
        .title("My title")
        .header("My header")
        .description_lists(Vec::new())
        .render();
    let expected = format!(
        "{}\n<Title>My title</Title>\n<H1>My header</H1>\n<DL>\n</DL>\n\n",
        PREAMBLE
    );
    assert_eq!(out, expected);
}

#[test]
fn tech_and_life_export() {
    let out = export_document(vec![
        bookmark("https://a.example", "A", "Tech", 100),
        bookmark("https://c.example", "C", "Life", 300),
        bookmark("https://b.example", "B", "Tech", 200),
    ]);
    let expected = format!(
        "{}\n<Title>Instapaper</Title>\n<H1>Instapaper</H1>\n<DL>\n\
         <DT><H3 FOLDED>Tech</H3>\n<DL><p>\n\
         <DT><A HREF=\"https://a.example\" ADD_DATE=\"100\">A</A>\n\
         <DT><A HREF=\"https://b.example\" ADD_DATE=\"200\">B</A>\n\
         </DL><p>\n\
         <DT><H3 FOLDED>Life</H3>\n<DL><p>\n\
         <DT><A HREF=\"https://c.example\" ADD_DATE=\"300\">C</A>\n\
         </DL><p>\n\
         </DL>\n\n",
        PREAMBLE
    );
    assert_eq!(out, expected);
    assert_eq!(out.matches("<H3 FOLDED>Tech</H3>").count(), 1);
    assert_eq!(out.matches("<H3 FOLDED>Life</H3>").count(), 1);
}

#[test]
fn empty_folder_renders_empty_heading() {
    let list = NetscapeBookmarks::new()
        .doctype()
        .title("t")
        .header("h")
        .description_lists(group_by_folder(vec![bookmark("u", "T", "", 5)]))
        .render();
    assert!(list.contains(
        "<DL>\n<DT><H3 FOLDED></H3>\n<DL><p>\n<DT><A HREF=\"u\" ADD_DATE=\"5\">T</A>\n</DL><p>\n</DL>\n"
    ));
}

#[test]
fn fields_are_written_unescaped() {
    let out = NetscapeBookmarks::new()
        .doctype()
        .title("<b>&\"x\"</b>")
        .header("a < b & c")
        .description_lists(group_by_folder(vec![bookmark(
            "https://x.example/?a=1&b=\"2\"",
            "<script>alert('hi')</script>",
            "R&D <team>",
            0,
        )]))
        .render();
    assert!(out.contains("<Title><b>&\"x\"</b></Title>"));
    assert!(out.contains("<H1>a < b & c</H1>"));
    assert!(out.contains("<DT><H3 FOLDED>R&D <team></H3>"));
    assert!(out.contains(
        "<DT><A HREF=\"https://x.example/?a=1&b=\"2\"\" ADD_DATE=\"0\"><script>alert('hi')</script></A>"
    ));
}

#[test]
fn timestamps_are_written_in_decimal() {
    let out = export_document(vec![
        bookmark("a", "A", "F", 0),
        bookmark("b", "B", "F", 1700000000),
        bookmark("c", "C", "F", usize::MAX),
    ]);
    assert!(out.contains("ADD_DATE=\"0\""));
    assert!(out.contains("ADD_DATE=\"1700000000\""));
    assert!(out.contains(&format!("ADD_DATE=\"{}\"", usize::MAX)));
}

#[test]
fn unicode_text_is_kept() {
    let out = export_document(vec![bookmark("https://é.example", "Ünïcode ✓", "Лес", 9)]);
    assert!(out.contains("<DT><H3 FOLDED>Лес</H3>"));
    assert!(out.contains("<DT><A HREF=\"https://é.example\" ADD_DATE=\"9\">Ünïcode ✓</A>"));
}
