use http_server::get_next_word;

#[test]
fn test_get_next_word_basic() {
    let input = "GET /path HTTP/1.1";
    let result = get_next_word(input);
    assert_eq!(result, Some(("GET", "/path HTTP/1.1")));
}

#[test]
fn test_get_next_word_with_carriage_return() {
    let input = "GET\r/path HTTP/1.1";
    let result = get_next_word(input);
    assert_eq!(result, Some(("GET", "/path HTTP/1.1")));
}

#[test]
fn test_get_next_word_no_delimiter() {
    let input = "GET";
    let result = get_next_word(input);
    assert_eq!(result, None);
}

#[test]
fn test_get_next_word_empty_string() {
    let input = "";
    let result = get_next_word(input);
    assert_eq!(result, None);
}

#[test]
fn test_get_next_word_multiple_spaces() {
    let input = "GET    /path HTTP/1.1";
    let result = get_next_word(input);
    assert_eq!(result, Some(("GET", "   /path HTTP/1.1")));
}

#[test]
fn next_word_none_without_delimiters() {
    assert_eq!(get_next_word("GET/pathHTTP/1.1\n\t"), None);
    assert_eq!(get_next_word("héllo"), None);
}

#[test]
fn next_word_splits_at_first_delimiter_only() {
    assert_eq!(get_next_word("ab\r\ncd ef"), Some(("ab", "\ncd ef")));
    assert_eq!(get_next_word(" x"), Some(("", "x")));
    assert_eq!(get_next_word("x "), Some(("x", "")));
}

#[test]
fn next_word_after_multibyte_text() {
    assert_eq!(get_next_word("héllo wörld"), Some(("héllo", "wörld")));
    assert_eq!(get_next_word("日本\r語"), Some(("日本", "語")));
}
