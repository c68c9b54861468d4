use js_boundary::pattern::{chars_match, chars_match_any, chars_of_each};
use js_boundary::text::{chained, chars_contain, chars_of, join, push_text};

fn strings(items: &[&str]) -> Vec<String> {
    items.iter().map(|s| s.to_string()).collect()
}

#[test]
fn characters_of_a_string() {
    assert_eq!(chars_of(""), Vec::<char>::new());
    assert_eq!(chars_of("a::b"), vec!['a', ':', ':', 'b']);
    assert_eq!(chars_of("né"), vec!['n', 'é']);
}

#[test]
fn join_puts_separator_between_neighbours() {
    assert_eq!(join(&Vec::new(), "::"), "");
    assert_eq!(join(&strings(&["root"]), "::"), "root");
    assert_eq!(join(&strings(&["root", "JS"]), "::"), "root::JS");
    assert_eq!(join(&strings(&["a", "", "c"]), "-"), "a--c");
    assert_eq!(join(&strings(&["a", "b"]), ""), "ab");
}

#[test]
fn chained_lists_keep_order() {
    assert_eq!(chained(strings(&["a", "b"]), strings(&["c"])), strings(&["a", "b", "c"]));
    assert_eq!(chained(Vec::new(), strings(&["c"])), strings(&["c"]));
    assert_eq!(chained(strings(&["a"]), Vec::new()), strings(&["a"]));
}

#[test]
fn push_text_appends_a_copy() {
    let mut list = strings(&["a"]);
    push_text(&mut list, "b");
    push_text(&mut list, "");
    assert_eq!(list, strings(&["a", "b", ""]));
}

#[test]
fn search_on_characters() {
    assert!(chars_contain(&chars_of("unknown-freebsd"), &chars_of("freebsd")));
    assert!(!chars_contain(&chars_of("freebs"), &chars_of("freebsd")));
    assert!(chars_contain(&chars_of(""), &chars_of("")));
    assert!(chars_contain(&chars_of("aab"), &chars_of("ab")));
}

#[test]
fn wildcard_backtracks() {
    assert!(chars_match(&chars_of("a.*b.*c"), &chars_of("a-b-b-c-c")));
    assert!(!chars_match(&chars_of("a.*b.*c"), &chars_of("a-c-b")));
    assert!(chars_match(&chars_of(".*"), &chars_of("")));
    assert!(chars_match(&chars_of(".*.*"), &chars_of("x")));
    assert!(chars_match(&chars_of("a.*"), &chars_of("a.*")));
}

#[test]
fn characters_other_than_the_wildcard_stand_for_themselves() {
    assert!(chars_match(&chars_of("a.b"), &chars_of("a.b")));
    assert!(!chars_match(&chars_of("a.b"), &chars_of("axb")));
    assert!(chars_match(&chars_of("a*"), &chars_of("a*")));
    assert!(!chars_match(&chars_of("a*"), &chars_of("aa")));
    assert!(chars_match(&chars_of("JS::Rooted<JS::Auto.*Vector.*>"),
        &chars_of("JS::Rooted<JS::AutoValueVector>")));
    assert!(chars_match(&chars_of("x."), &chars_of("x.")));
    assert!(!chars_match(&chars_of("x."), &chars_of("xy")));
}

#[test]
fn any_of_several_patterns() {
    let patterns = chars_of_each(&strings(&["JS.*", "js::.*", "mozilla::.*"]));
    assert_eq!(patterns.len(), 3);
    assert_eq!(patterns[1], chars_of("js::.*"));
    assert!(chars_match_any(&patterns, &chars_of("js::HashMap")));
    assert!(chars_match_any(&patterns, &chars_of("JSObject")));
    assert!(!chars_match_any(&patterns, &chars_of("FILE")));
    assert!(!chars_match_any(&Vec::new(), &chars_of("FILE")));
}
