use tts_gateway::text::{
    chunk_text, contains_sub, eq_ignore_ascii_case, find_char, json_escape, rate_display, str_eq,
    str_lt, u64_to_dec,
};

#[test]
fn rate_display_in_whole_units() {
    assert_eq!(rate_display(0), "0");
    assert_eq!(rate_display(17500), "175");
    assert_eq!(rate_display(450), "4.5");
    assert_eq!(rate_display(105), "1.05");
    assert_eq!(rate_display(1), "0.01");
    assert_eq!(rate_display(10), "0.1");
}

#[test]
fn lexicographic_order() {
    assert!(str_lt("abc", "abd"));
    assert!(str_lt("ab", "abc"));
    assert!(!str_lt("abc", "abc"));
    assert!(!str_lt("b", "abc"));
    assert!(str_lt("", "a"));
    assert!(!str_lt("", ""));
}

#[test]
fn decimal_rendering_exact_values() {
    assert_eq!(u64_to_dec(0), "0");
    assert_eq!(u64_to_dec(7), "7");
    assert_eq!(u64_to_dec(175), "175");
    assert_eq!(u64_to_dec(1000), "1000");
    assert_eq!(u64_to_dec(u64::MAX), "18446744073709551615");
}

#[test]
fn chunking_covers_the_text_in_order() {
    let text: String = std::iter::repeat('x').take(450).collect();
    let chunks = chunk_text(&text, 200);
    assert_eq!(chunks.len(), 3);
    assert_eq!(chunks[0].len(), 200);
    assert_eq!(chunks[1].len(), 200);
    assert_eq!(chunks[2].len(), 50);
    assert_eq!(chunks.concat(), text);
}

#[test]
fn chunking_counts_characters_not_bytes() {
    let text = "ééééé";
    let chunks = chunk_text(text, 2);
    assert_eq!(chunks.len(), 3);
    assert_eq!(chunks[0], "éé");
    assert_eq!(chunks[2], "é");
}

#[test]
fn chunking_empty_text_gives_no_chunks() {
    assert!(chunk_text("", 200).is_empty());
}

#[test]
fn chunking_short_text_gives_one_chunk() {
    let chunks = chunk_text("hello", 200);
    assert_eq!(chunks, vec![String::from("hello")]);
}

#[test]
fn json_escaping() {
    assert_eq!(json_escape("plain text"), "plain text");
    assert_eq!(json_escape("a\"b"), "a\\\"b");
    assert_eq!(json_escape("a\\b"), "a\\\\b");
    assert_eq!(json_escape("a\nb"), "a\\u000ab");
    assert_eq!(json_escape("\u{1f}"), "\\u001f");
    assert_eq!(json_escape("héllo"), "héllo");
}

#[test]
fn substring_containment() {
    assert!(contains_sub(b"hello world", b"lo wo"));
    assert!(contains_sub(b"hello", b""));
    assert!(!contains_sub(b"hello", b"world"));
    assert!(!contains_sub(b"ab", b"abc"));
}

#[test]
fn string_equality_helpers() {
    assert!(str_eq("abc", "abc"));
    assert!(!str_eq("abc", "abd"));
    assert!(!str_eq("abc", "ab"));
    assert!(eq_ignore_ascii_case("MP3", "mp3"));
    assert!(eq_ignore_ascii_case("OgG_OpUs", "ogg_opus"));
    assert!(!eq_ignore_ascii_case("mp3", "mp4"));
}

#[test]
fn find_char_first_occurrence() {
    assert_eq!(find_char("a-b-c", '-', 0), Some(1));
    assert_eq!(find_char("a-b-c", '-', 2), Some(3));
    assert_eq!(find_char("a-b-c", '-', 4), None);
    assert_eq!(find_char("abc", '-', 0), None);
}
