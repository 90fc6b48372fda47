use feeding_tube::layout::{pad_str, truncate_str, word_wrap};
use unicode_width::UnicodeWidthStr;

// truncate_str

#[test]
fn test_truncate_str_short_string() {
    assert_eq!(truncate_str("hello", 10), "hello");
}

#[test]
fn test_truncate_str_exact_fit() {
    assert_eq!(truncate_str("hello", 5), "hello");
}

#[test]
fn test_truncate_str_too_long() {
    let result = truncate_str("hello world", 8);
    assert_eq!(result, "hello w…");
}

#[test]
fn test_truncate_str_very_small_max() {
    assert_eq!(truncate_str("hello", 1), ".");
    assert_eq!(truncate_str("hello", 0), ".");
}

#[test]
fn test_truncate_str_max_two() {
    let result = truncate_str("hello", 2);
    assert_eq!(result, "h…");
}

#[test]
fn test_truncate_str_empty() {
    assert_eq!(truncate_str("", 10), "");
    assert_eq!(truncate_str("", 0), "");
}

#[test]
fn test_truncate_str_unicode() {
    // CJK characters are double-width
    let result = truncate_str("日本語テスト", 8);
    // Each CJK char = 2 width, so 3 chars = 6 width + ellipsis = 7
    assert!(UnicodeWidthStr::width(result.as_str()) <= 8);
    assert!(result.ends_with('…'));
    assert_eq!(result, "日本語…");
    assert_eq!(truncate_str("日本語テスト", 12), "日本語テスト");
    assert_eq!(truncate_str("日本語テスト", 3), "日…");
    assert_eq!(truncate_str("日本語テスト", 2), "…");
}

// pad_str

#[test]
fn test_pad_str_needs_padding() {
    let result = pad_str("hi", 5);
    assert_eq!(result, "hi   ");
}

#[test]
fn test_pad_str_exact_width() {
    let result = pad_str("hello", 5);
    assert_eq!(result, "hello");
}

#[test]
fn test_pad_str_too_long() {
    let result = pad_str("hello world", 5);
    assert_eq!(result, "hello");
}

#[test]
fn test_pad_str_empty() {
    let result = pad_str("", 3);
    assert_eq!(result, "   ");
    assert_eq!(pad_str("", 0), "");
    assert_eq!(pad_str("abc", 0), "");
}

#[test]
fn test_pad_str_unicode() {
    // "日" is 2 display width
    let result = pad_str("日", 4);
    assert_eq!(result, "日  "); // 2 char width + 2 spaces = 4
    // A wide character that does not fit leaves a space.
    assert_eq!(pad_str("日本語", 3), "日 ");
    assert_eq!(pad_str("a日本", 4), "a日 ");
}

// word_wrap

#[test]
fn test_word_wrap_short_line() {
    let result = word_wrap("hello world", 20);
    assert_eq!(result, vec!["hello world"]);
}

#[test]
fn test_word_wrap_wraps() {
    let result = word_wrap("hello world foo bar", 11);
    assert_eq!(result, vec!["hello world", "foo bar"]);
}

#[test]
fn test_word_wrap_each_word() {
    let result = word_wrap("aaa bbb ccc", 3);
    assert_eq!(result, vec!["aaa", "bbb", "ccc"]);
}

#[test]
fn test_word_wrap_empty() {
    let result = word_wrap("", 10);
    assert_eq!(result, vec![""]);
    assert_eq!(word_wrap(" \n\t ", 10), vec![""]);
}

#[test]
fn test_word_wrap_zero_width() {
    let result = word_wrap("hello world", 0);
    assert_eq!(result, vec!["hello world"]);
    assert_eq!(word_wrap("  a  b ", 0), vec!["  a  b "]);
}

#[test]
fn test_word_wrap_single_long_word() {
    let result = word_wrap("superlongword", 5);
    assert_eq!(result, vec!["superlongword"]); // word too long, kept as-is
}

#[test]
fn word_wrap_parts_words_by_one_space() {
    assert_eq!(word_wrap("  a \n b\tc  ", 10), vec!["a b c"]);
    assert_eq!(word_wrap("a superlongword b c", 3), vec!["a", "superlongword", "b c"]);
    assert_eq!(word_wrap("日本 語 テスト", 5), vec!["日本", "語", "テスト"]);
    assert_eq!(word_wrap("日本 語 テスト", 7), vec!["日本 語", "テスト"]);
    assert_eq!(word_wrap("a b", usize::MAX), vec!["a b"]);
}
