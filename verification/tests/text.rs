use gram::text::{chars_le, chars_of, sort_lines, text_le};

fn lines(items: &[&str]) -> Vec<String> {
    items.iter().map(|s| s.to_string()).collect()
}

#[test]
fn characters_come_out_in_order() {
    assert_eq!(chars_of("abc"), vec!['a', 'b', 'c']);
    assert_eq!(chars_of(""), Vec::<char>::new());
    assert_eq!(chars_of("é\u{10348}"), vec!['é', '\u{10348}']);
}

#[test]
fn a_prefix_comes_first() {
    assert!(text_le("", ""));
    assert!(text_le("", "a"));
    assert!(!text_le("a", ""));
    assert!(text_le("ab", "abc"));
    assert!(!text_le("abc", "ab"));
    assert!(text_le("abc", "abc"));
}

#[test]
fn the_first_difference_decides() {
    assert!(text_le("abc", "abd"));
    assert!(!text_le("abd", "abc"));
    assert!(text_le("Z", "a"));
    assert!(text_le("a!", "a]"));
    assert!(!text_le("b", "abcdef"));
    assert!(chars_le(&vec!['a', 'z'], &vec!['b']));
}

#[test]
fn the_order_is_that_of_the_strings() {
    let samples = ["", "a", "B", "ab", "a b", "é", "e", "z", "\u{10348}", "\u{ffff}", "[x]", "[x!]"];
    for a in samples {
        for b in samples {
            assert_eq!(text_le(a, b), a <= b, "{:?} against {:?}", a, b);
        }
    }
}

#[test]
fn sorting_orders_the_lines() {
    assert_eq!(sort_lines(lines(&["b", "a", "c"])), lines(&["a", "b", "c"]));
    assert_eq!(sort_lines(lines(&["[a]", "[a!]", "[", ""])), lines(&["", "[", "[a!]", "[a]"]));
    assert_eq!(sort_lines(Vec::new()), Vec::<String>::new());
}

#[test]
fn sorting_keeps_every_line_as_often_as_given() {
    assert_eq!(sort_lines(lines(&["b", "a", "b", "a", "b"])), lines(&["a", "a", "b", "b", "b"]));
}

#[test]
fn sorting_agrees_with_the_standard_sort() {
    let given = lines(&["[options.b]", "[description]", "[protected]", "[options.a]", "é", "e"]);
    let mut expected = given.clone();
    expected.sort();
    assert_eq!(sort_lines(given), expected);
}
