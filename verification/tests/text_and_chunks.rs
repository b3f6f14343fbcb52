use news::chunk::chunk_text;
use news::model::{NewsInput, Timestamp};
use news::text::{is_whitespace, len_utf8, trim};

fn ts() -> Timestamp {
    Timestamp { year: 2024, month: 1, day: 1, hour: 18, minute: 0, second: 0, nanosecond: 0 }
}

#[test]
fn trim_removes_surrounding_white_space() {
    assert_eq!(trim("  hello world \n\t"), "hello world");
    assert_eq!(trim("\u{3000}x\u{a0}"), "x");
    assert_eq!(trim("   "), "");
    assert_eq!(trim(""), "");
    assert_eq!(trim("a"), "a");
}

#[test]
fn whitespace_is_the_unicode_property() {
    for c in ['\t', '\n', '\u{b}', '\u{c}', '\r', ' ', '\u{85}', '\u{a0}', '\u{1680}', '\u{2000}', '\u{200a}', '\u{2028}', '\u{2029}', '\u{202f}', '\u{205f}', '\u{3000}'] {
        assert!(is_whitespace(c), "{:?}", c);
        assert_eq!(is_whitespace(c), c.is_whitespace());
    }
    for c in ['a', '0', '\u{200b}', '\u{feff}', '_', '\u{7f}'] {
        assert!(!is_whitespace(c));
        assert_eq!(is_whitespace(c), c.is_whitespace());
    }
}

#[test]
fn utf8_lengths() {
    assert_eq!(len_utf8('a'), 1);
    assert_eq!(len_utf8('é'), 2);
    assert_eq!(len_utf8('€'), 3);
    assert_eq!(len_utf8('😀'), 4);
}

#[test]
fn chunks_pack_words_greedily() {
    assert_eq!(chunk_text("a b c", 3), vec!["a b".to_string(), "c".to_string()]);
    assert_eq!(chunk_text("one two three four", 9), vec!["one two", "three", "four"]);
    assert_eq!(chunk_text("one two three four", 100), vec!["one two three four"]);
}

#[test]
fn chunks_collapse_white_space() {
    assert_eq!(chunk_text("  alpha \n\t beta  ", 100), vec!["alpha beta"]);
}

#[test]
fn blank_text_has_no_chunks() {
    assert!(chunk_text("", 10).is_empty());
    assert!(chunk_text(" \n\t ", 10).is_empty());
}

#[test]
fn long_word_is_its_own_chunk() {
    assert_eq!(chunk_text("a supercalifragilistic b", 5), vec!["a", "supercalifragilistic", "b"]);
    assert_eq!(chunk_text("word", 0), vec!["word"]);
}

#[test]
fn chunk_limit_counts_bytes() {
    // "é" is two bytes: "é é" is five bytes.
    assert_eq!(chunk_text("é é", 4), vec!["é", "é"]);
    assert_eq!(chunk_text("é é", 5), vec!["é é"]);
}

#[test]
fn chunks_are_bounded_and_keep_the_words() {
    let text = "The quick brown fox jumps over the lazy dog and keeps running far away";
    for max in [0usize, 1, 5, 10, 17, 40, 1000] {
        let chunks = chunk_text(text, max);
        for c in &chunks {
            assert!(!c.is_empty());
            assert!(c.len() <= max || !c.contains(' '));
        }
        assert_eq!(chunks.join(" "), text.split_whitespace().collect::<Vec<_>>().join(" "));
    }
}

#[test]
fn search_chunks_chunk_the_content() {
    let input = NewsInput {
        title: "title".to_string(),
        pub_date: ts(),
        sources: vec!["test".to_string()],
        content: "content of the article".to_string(),
    };
    assert_eq!(input.get_content(), "content of the article");
    assert_eq!(input.search_chunks(10), vec!["content of", "the", "article"]);
    assert_eq!(input.search_chunks(1024), vec!["content of the article"]);
}
