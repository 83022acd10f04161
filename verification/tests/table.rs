use everest::json::Json;
use everest::table::{find, insert_sorted};

fn names(entries: &Vec<(String, Json)>) -> Vec<&str> {
    entries.iter().map(|e| e.0.as_str()).collect()
}

#[test]
fn entries_are_put_in_at_their_place() {
    let mut entries: Vec<(String, Json)> = Vec::new();
    for name in ["m", "a", "z", "b", "", "ab"] {
        insert_sorted(&mut entries, name.to_string(), Json::Null);
    }
    assert_eq!(names(&entries), vec!["", "a", "ab", "b", "m", "z"]);
}

#[test]
fn a_name_that_is_there_goes_before_its_like() {
    let mut entries: Vec<(String, Json)> = Vec::new();
    insert_sorted(&mut entries, "a".to_string(), Json::Bool(true));
    insert_sorted(&mut entries, "a".to_string(), Json::Bool(false));
    assert_eq!(names(&entries), vec!["a", "a"]);
    assert!(matches!(entries[0].1, Json::Bool(false)));
}

#[test]
fn find_gives_the_first_index() {
    let entries = vec![
        ("x".to_string(), Json::Null),
        ("y".to_string(), Json::Bool(true)),
        ("x".to_string(), Json::Bool(false)),
    ];
    assert_eq!(find(&entries, "x"), Some(0));
    assert_eq!(find(&entries, "y"), Some(1));
    assert_eq!(find(&entries, "z"), None);
    assert_eq!(find(&Vec::<(String, Json)>::new(), "x"), None);
}
