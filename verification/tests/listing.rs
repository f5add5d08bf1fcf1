use diff_harness::listing::{child_path, name_precedes, read_dir};

fn names(list: &[&str]) -> Vec<String> {
    list.iter().map(|s| s.to_string()).collect()
}

#[test]
fn names_are_compared_byte_by_byte() {
    assert!(name_precedes("a", "b"));
    assert!(!name_precedes("b", "a"));
    assert!(name_precedes("a", "a"));
    assert!(name_precedes("", ""));
    assert!(name_precedes("", "a"));
    assert!(!name_precedes("a", ""));
    assert!(name_precedes("repos/a", "repos/a-b"));
    assert!(name_precedes("1.0.0", "1.0.1"));
    assert!(name_precedes("10.0.0", "2.0.0"));
    assert!(name_precedes("Z", "a"));
    assert!(name_precedes("z", "\u{39b}"));
    assert!(!name_precedes("\u{39b}", "z"));
}

#[test]
fn the_order_of_names_is_that_of_strings() {
    let samples = ["", "a", "ab", "b", "B", "1.0.0", "1.0.10", "1.0.2", "\u{e9}", "e\u{301}", "zz"];
    for a in samples {
        for b in samples {
            assert_eq!(name_precedes(a, b), a <= b, "{:?} against {:?}", a, b);
        }
    }
}

#[test]
fn entries_are_sorted() {
    let sorted = read_dir(names(&["repos/zed", "repos/alpha", "repos/mid", "repos/Beta"]));
    assert_eq!(sorted, names(&["repos/Beta", "repos/alpha", "repos/mid", "repos/zed"]));
}

#[test]
fn versions_are_sorted_as_text() {
    let sorted = read_dir(names(&["p/2.0.0", "p/10.0.0", "p/1.0.1", "p/1.0.0"]));
    assert_eq!(sorted, names(&["p/1.0.0", "p/1.0.1", "p/10.0.0", "p/2.0.0"]));
}

#[test]
fn sorting_keeps_every_entry() {
    let sorted = read_dir(names(&["b", "a", "b", "", "a"]));
    assert_eq!(sorted, names(&["", "a", "a", "b", "b"]));
    assert_eq!(read_dir(Vec::new()), Vec::<String>::new());
    assert_eq!(read_dir(names(&["only"])), names(&["only"]));
}

#[test]
fn sorting_sorted_entries_changes_nothing() {
    let once = read_dir(names(&["c", "a", "d", "b"]));
    let twice = read_dir(once.clone());
    assert_eq!(once, twice);
}

#[test]
fn sorting_agrees_with_the_standard_sort() {
    let entries = names(&["x/9", "x/10", "x/\u{e9}", "x/e", "x/E", "x/", "x/a b", "x/a-b", "x/a"]);
    let mut expected = entries.clone();
    expected.sort();
    assert_eq!(read_dir(entries), expected);
}

#[test]
fn an_entry_is_named_by_its_directory_and_its_name() {
    assert_eq!(child_path("repos/a/p/1.0.0", "tests"), "repos/a/p/1.0.0/tests");
    assert_eq!(child_path("repos", "elm.json"), "repos/elm.json");
    assert_eq!(child_path("", "x"), "/x");
    assert_eq!(child_path("d", ""), "d/");
}
