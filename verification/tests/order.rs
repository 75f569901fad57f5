use hot_curry::order::{insert_ascending, sorted, str_precedes};
use hot_curry::text::same;

fn strings(names: &[&str]) -> Vec<String> {
    names.iter().map(|name| name.to_string()).collect()
}

#[test]
fn str_precedes_is_the_lexicographic_order() {
    assert!(str_precedes("a", "b"));
    assert!(!str_precedes("b", "a"));
    assert!(str_precedes("a", "ab"));
    assert!(!str_precedes("ab", "a"));
    assert!(str_precedes("ab", "b"));
    assert!(str_precedes("abc", "abd"));
    assert!(!str_precedes("abd", "abc"));
}

#[test]
fn nothing_precedes_itself_and_the_empty_string_precedes_all_others() {
    assert!(!str_precedes("", ""));
    assert!(!str_precedes("items", "items"));
    assert!(str_precedes("", "a"));
    assert!(!str_precedes("a", ""));
}

#[test]
fn str_precedes_is_case_sensitive() {
    assert!(str_precedes("Z", "a"));
    assert!(!str_precedes("a", "Z"));
    assert!(str_precedes("Items", "items"));
}

#[test]
fn str_precedes_compares_by_code_point() {
    assert!(str_precedes("z", "é"));
    assert!(str_precedes("é", "日"));
    assert!(str_precedes("日", "😀"));
    assert!(!str_precedes("😀", "日"));
}

#[test]
fn str_precedes_agrees_with_the_order_of_std() {
    let names = ["", "a", "A", "ab", "b", "é", "e", "日本", "z", "Z", "_x", "x1", "x10", "x2"];
    for a in names {
        for b in names {
            assert_eq!(str_precedes(a, b), a < b, "{:?} {:?}", a, b);
        }
    }
}

#[test]
fn same_tells_equal_strings_from_others() {
    assert!(same("", ""));
    assert!(same("json", "json"));
    assert!(!same("json", "jsonl"));
    assert!(!same("jsonl", "json"));
    assert!(!same("json", "jsoN"));
    assert!(!same("", "a"));
    assert!(same("日本", "日本"));
}

#[test]
fn sorted_orders_names_and_keeps_each_once() {
    assert_eq!(sorted(&strings(&["b", "a", "c"])), strings(&["a", "b", "c"]));
    assert_eq!(sorted(&strings(&["b", "a", "b", "a"])), strings(&["a", "b"]));
    assert_eq!(sorted(&strings(&[])), strings(&[]));
    assert_eq!(sorted(&strings(&["x"])), strings(&["x"]));
    assert_eq!(
        sorted(&strings(&["user", "Admin", "admin", "items", "item"])),
        strings(&["Admin", "admin", "item", "items", "user"])
    );
}

#[test]
fn sorted_does_not_depend_on_the_order_of_the_list() {
    let one = sorted(&strings(&["c", "a", "b", "aa"]));
    let other = sorted(&strings(&["aa", "b", "a", "c"]));
    assert_eq!(one, other);
    assert_eq!(one, strings(&["a", "aa", "b", "c"]));
}

#[test]
fn sorted_agrees_with_the_sort_of_std() {
    let list = strings(&["pear", "Apple", "fig", "apple", "", "fig", "日本", "zebra", "_", "fi"]);
    let mut expected = list.clone();
    expected.sort();
    expected.dedup();
    assert_eq!(sorted(&list), expected);
}

#[test]
fn insert_ascending_puts_a_name_at_its_place() {
    let mut list = strings(&["b", "d"]);
    insert_ascending(&mut list, &"c".to_string());
    assert_eq!(list, strings(&["b", "c", "d"]));
    insert_ascending(&mut list, &"a".to_string());
    assert_eq!(list, strings(&["a", "b", "c", "d"]));
    insert_ascending(&mut list, &"e".to_string());
    assert_eq!(list, strings(&["a", "b", "c", "d", "e"]));
}

#[test]
fn insert_ascending_leaves_a_list_that_holds_the_name() {
    let mut list = strings(&["a", "b"]);
    insert_ascending(&mut list, &"a".to_string());
    insert_ascending(&mut list, &"b".to_string());
    assert_eq!(list, strings(&["a", "b"]));
}
