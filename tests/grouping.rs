use instamark::folders::group_by_folder;
use instamark::netscape_bookmark::Bookmark;

fn bookmark(url: &str, title: &str, folder: &str, timestamp: usize) -> Bookmark {
    Bookmark {
        url: url.to_string(),
        title: title.to_string(),
        _selection: None,
        folder: folder.to_string(),
        timestamp,
    }
}

fn urls(list: &[Bookmark]) -> Vec<&str> {
    list.iter().map(|b| b.url.as_str()).collect()
}

#[test]
fn empty_input_gives_no_groups() {
    assert!(group_by_folder(Vec::new()).is_empty());
}

#[test]
fn two_tech_one_life() {
    let groups = group_by_folder(vec![
        bookmark("https://a", "A", "Tech", 1),
        bookmark("https://b", "B", "Tech", 2),
        bookmark("https://c", "C", "Life", 3),
    ]);
    assert_eq!(groups.len(), 2);
    assert_eq!(groups[0].0, "Tech");
    assert_eq!(urls(&groups[0].1), vec!["https://a", "https://b"]);
    assert_eq!(groups[1].0, "Life");
    assert_eq!(urls(&groups[1].1), vec!["https://c"]);
}

#[test]
fn interleaved_folders_are_merged_in_input_order() {
    let groups = group_by_folder(vec![
        bookmark("1", "one", "X", 1),
        bookmark("2", "two", "Y", 2),
        bookmark("3", "three", "X", 3),
        bookmark("4", "four", "Y", 4),
        bookmark("5", "five", "X", 5),
    ]);
    assert_eq!(groups.len(), 2);
    assert_eq!(groups[0].0, "X");
    assert_eq!(urls(&groups[0].1), vec!["1", "3", "5"]);
    assert_eq!(groups[1].0, "Y");
    assert_eq!(urls(&groups[1].1), vec!["2", "4"]);
}

#[test]
fn every_record_kept_once_including_duplicates() {
    let groups = group_by_folder(vec![
        bookmark("u", "t", "F", 7),
        bookmark("u", "t", "F", 7),
        bookmark("v", "t", "G", 8),
        bookmark("u", "t", "F", 7),
    ]);
    let total: usize = groups.iter().map(|g| g.1.len()).sum();
    assert_eq!(total, 4);
    assert_eq!(urls(&groups[0].1), vec!["u", "u", "u"]);
    assert_eq!(urls(&groups[1].1), vec!["v"]);
}

#[test]
fn empty_folder_label_is_its_own_group() {
    let groups = group_by_folder(vec![
        bookmark("a", "A", "", 1),
        bookmark("b", "B", "Tech", 2),
        bookmark("c", "C", "", 3),
    ]);
    assert_eq!(groups.len(), 2);
    assert_eq!(groups[0].0, "");
    assert_eq!(urls(&groups[0].1), vec!["a", "c"]);
}

#[test]
fn labels_differing_in_case_or_space_stay_apart() {
    let groups = group_by_folder(vec![
        bookmark("a", "A", "tech", 1),
        bookmark("b", "B", "Tech", 2),
        bookmark("c", "C", "Tech ", 3),
    ]);
    assert_eq!(groups.len(), 3);
}
