use profile_registry::text::{compare_text, TextOrder};

#[test]
fn equal_texts_are_the_same() {
    assert_eq!(compare_text("", ""), TextOrder::Same);
    assert_eq!(compare_text("abc", "abc"), TextOrder::Same);
    assert_eq!(compare_text("é", "é"), TextOrder::Same);
}

#[test]
fn a_prefix_comes_first() {
    assert_eq!(compare_text("", "a"), TextOrder::Before);
    assert_eq!(compare_text("a", ""), TextOrder::After);
    assert_eq!(compare_text("abc", "abcd"), TextOrder::Before);
    assert_eq!(compare_text("abcd", "abc"), TextOrder::After);
}

#[test]
fn the_first_different_byte_decides() {
    assert_eq!(compare_text("abc", "abd"), TextOrder::Before);
    assert_eq!(compare_text("abd", "abc"), TextOrder::After);
    assert_eq!(compare_text("b", "abc"), TextOrder::After);
    assert_eq!(compare_text("B", "a"), TextOrder::Before);
    assert_eq!(compare_text("10", "9"), TextOrder::Before);
    assert_eq!(compare_text("z", "é"), TextOrder::Before);
    assert_eq!(compare_text("é", "~"), TextOrder::After);
}

#[test]
fn comparison_agrees_with_the_order_of_strings() {
    let samples = ["", "a", "A", "ab", "b", "abc123", "xyz", "é", "日本", "~", "0", "a\u{0}"];
    for left in samples {
        for right in samples {
            let expected = if left < right {
                TextOrder::Before
            } else if left == right {
                TextOrder::Same
            } else {
                TextOrder::After
            };
            assert_eq!(compare_text(left, right), expected);
        }
    }
}
