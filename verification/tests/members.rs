use bookokrat::mcp::members::{cut_up, find_members, has_comma};
use bookokrat::mcp::text::same;

#[test]
fn objects_are_cut_up_between_their_members() {
    assert_eq!(
        cut_up("{\"a\":1, \"b\":[1,2],\"c\":{\"d\":3,\"e\":4}}"),
        ["\"a\":1", " \"b\":[1,2]", "\"c\":{\"d\":3,\"e\":4}"]
    );
    assert_eq!(
        cut_up("{\"a,\\\",b\":\"},{\",\"c\\\\\":1}"),
        ["\"a,\\\",b\":\"},{\"", "\"c\\\\\":1"]
    );
    assert_eq!(cut_up("{\"only\":1}"), ["\"only\":1"]);
    assert_eq!(cut_up("{}"), [""]);
    assert!(cut_up("{").is_empty());
}

#[test]
fn members_are_found_by_their_names() {
    let text = "{\"a\":1,\"b\":2,\"\\u0061\":[3]}";
    assert_eq!(find_members(text, "a"), ["\"a\":1", "\"\\u0061\":[3]"]);
    assert_eq!(find_members(text, "b"), ["\"b\":2"]);
    assert!(find_members(text, "c").is_empty());
    assert!(find_members("{}", "").is_empty());
}

#[test]
fn commas_are_found_anywhere() {
    assert!(has_comma("\",\""));
    assert!(!has_comma("[\"a\"]"));
    assert!(!has_comma(""));
}

#[test]
fn texts_are_compared_by_their_characters() {
    assert!(same("p\u{e4}ge", "p\u{e4}ge"));
    assert!(!same("page", "Page"));
    assert!(!same("page", "page "));
}
