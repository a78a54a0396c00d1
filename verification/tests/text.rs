use chat_service::text::{
    byte_length, byte_slice, chars_of, find_marker, has_line_feed, push_repeated, stands_at,
};

fn chars(text: &str) -> Vec<char> {
    text.chars().collect()
}

#[test]
fn characters_of_a_text() {
    assert_eq!(chars_of("héllo"), vec!['h', 'é', 'l', 'l', 'o']);
    assert!(chars_of("").is_empty());
}

#[test]
fn line_feed_is_found_anywhere() {
    assert!(has_line_feed(&chars("a\nb")));
    assert!(has_line_feed(&chars("\n")));
    assert!(has_line_feed(&chars("ab\n")));
    assert!(!has_line_feed(&chars("a\rb")));
    assert!(!has_line_feed(&chars("")));
}

#[test]
fn marker_stands_where_its_characters_stand() {
    let line = chars("[1:a][2:b]");
    let marker = chars("][2:");
    assert!(stands_at(&line, &marker, 4));
    assert!(!stands_at(&line, &marker, 3));
    assert!(!stands_at(&line, &marker, 5));
    assert!(!stands_at(&line, &marker, 8));
    assert!(!stands_at(&line, &marker, 100));
    assert!(stands_at(&line, &Vec::new(), 10));
    assert!(!stands_at(&line, &Vec::new(), 11));
    assert!(!stands_at(&chars("]["), &marker, 0));
}

#[test]
fn first_marker_is_found() {
    let line = chars("a: b: c");
    let marker = chars(": ");
    assert_eq!(find_marker(&line, &marker, 0), Some(1));
    assert_eq!(find_marker(&line, &marker, 1), Some(1));
    assert_eq!(find_marker(&line, &marker, 2), Some(4));
    assert_eq!(find_marker(&line, &marker, 5), None);
    assert_eq!(find_marker(&line, &marker, 50), None);
    assert_eq!(find_marker(&line, &Vec::new(), 7), Some(7));
    assert_eq!(find_marker(&line, &Vec::new(), 8), None);
}

#[test]
fn length_counts_bytes() {
    assert_eq!(byte_length(""), 0);
    assert_eq!(byte_length("abc"), 3);
    assert_eq!(byte_length("grüße"), 7);
    assert_eq!(byte_length("世界"), 6);
}

#[test]
fn characters_are_repeated() {
    let mut text = "ab".to_string();
    push_repeated(&mut text, '─', 3);
    assert_eq!(text, "ab───");
    push_repeated(&mut text, 'x', 0);
    assert_eq!(text, "ab───");
}

#[test]
fn part_between_two_offsets() {
    assert_eq!(byte_slice("hello", 1, 3), "el");
    assert_eq!(byte_slice("hello", 0, 5), "hello");
    assert_eq!(byte_slice("hello", 2, 2), "");
    assert_eq!(byte_slice("aäb", 1, 3), "ä");
    assert_eq!(byte_slice("aäb", 3, 4), "b");
}
