use jam::list::List;

#[test]
fn new_list_is_empty() {
    let l = List::new();
    assert!(l.length() == 0);
}

#[test]
fn appending_to_a_list_updates_length() {
    let mut l = List::new();
    l.append("Hello");
    assert!(l.length() == 1);
}

#[test]
fn appending_and_retrieving_a_string() {
    let mut l = List::new();
    l.append("Hello");
    assert!(l.get(0).unwrap() == "Hello");
}

#[test]
fn items_keep_their_order() {
    let mut l = List::new();
    l.append("a");
    l.append("");
    l.append("c");
    assert_eq!(l.length(), 3);
    assert_eq!(l.get(0), Some("a"));
    assert_eq!(l.get(1), Some(""));
    assert_eq!(l.get(2), Some("c"));
    assert_eq!(l.get(3), None);
}

#[test]
fn sublist_is_a_run_of_items() {
    let mut l = List::new();
    for s in ["a", "b", "c", "d"] {
        l.append(s);
    }
    let mut expected = List::new();
    expected.append("b");
    expected.append("c");
    assert_eq!(l.sublist(1, 2), expected);
    assert_eq!(l.sublist(4, 0), List::new());
    assert_eq!(l.sublist(0, 4), l);
}
