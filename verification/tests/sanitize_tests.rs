use nftee::error::ServiceError;
use nftee::sanitize::{sanitize, sanitize_text};
use nftee::text::{replace_chars, split_chars};

fn chars(s: &str) -> Vec<char> {
    s.chars().collect()
}

fn text(v: &[char]) -> String {
    v.iter().collect()
}

fn lines_of(raw: &[u8]) -> Vec<String> {
    sanitize(raw).expect("valid text").lines().clone()
}

#[test]
fn escaped_newline_becomes_line_break() {
    assert_eq!(lines_of(b"Hello\\nWorld"), vec!["Hello".to_string(), "World".to_string()]);
}

#[test]
fn markup_characters_become_entities() {
    assert_eq!(lines_of(b"<script>"), vec!["&lt;script&gt;".to_string()]);
    assert_eq!(
        lines_of(b"a<b>c</b>"),
        vec!["a&lt;b&gt;c&lt;/b&gt;".to_string()]
    );
}

#[test]
fn empty_reply_is_one_empty_line() {
    let safe = sanitize(b"").expect("valid text");
    assert_eq!(safe.line_count(), 1);
    assert_eq!(safe.lines(), &vec![String::new()]);
}

#[test]
fn nul_and_field_terminator_are_removed() {
    assert_eq!(lines_of(b"a\0b\x1cc\0\0"), vec!["abc".to_string()]);
    assert_eq!(lines_of(b"\0"), vec![String::new()]);
}

#[test]
fn doubled_backslash_collapses_from_the_left() {
    assert_eq!(lines_of(b"a\\\\b"), vec!["a\\b".to_string()]);
    assert_eq!(lines_of(b"\\\\\\"), vec!["\\\\".to_string()]);
    assert_eq!(lines_of(b"\\\\\\\\"), vec!["\\\\".to_string()]);
}

#[test]
fn steps_apply_in_order() {
    // A doubled backslash before `n` first collapses, then breaks the line.
    assert_eq!(lines_of(b"a\\\\nb"), vec!["a".to_string(), "b".to_string()]);
    // Removing a NUL brings a backslash and its `n` together.
    assert_eq!(lines_of(b"a\\\0nb"), vec!["a".to_string(), "b".to_string()]);
    // Three backslashes and `n`: one backslash stays, then the line breaks.
    assert_eq!(lines_of(b"a\\\\\\nb"), vec!["a\\".to_string(), "b".to_string()]);
}

#[test]
fn real_line_breaks_split_too() {
    assert_eq!(
        lines_of(b"one\ntwo\\nthree\n"),
        vec!["one".to_string(), "two".to_string(), "three".to_string(), String::new()]
    );
}

#[test]
fn ampersands_and_quotes_are_kept() {
    assert_eq!(lines_of(b"a & \"b\" 'c'"), vec!["a & \"b\" 'c'".to_string()]);
    assert_eq!(lines_of(b"&lt;"), vec!["&lt;".to_string()]);
}

#[test]
fn text_beyond_ascii_is_kept() {
    let raw = "caf\u{e9} \u{1f600}<".as_bytes();
    assert_eq!(lines_of(raw), vec!["caf\u{e9} \u{1f600}&lt;".to_string()]);
}

#[test]
fn invalid_utf8_is_refused() {
    assert_eq!(sanitize(&[0xff, 0xfe]).err(), Some(ServiceError::InvalidEncoding));
    assert_eq!(sanitize(&[b'a', 0x80]).err(), Some(ServiceError::InvalidEncoding));
    assert_eq!(sanitize(&[0xc3]).err(), Some(ServiceError::InvalidEncoding));
    assert_eq!(sanitize(&[0xed, 0xa0, 0x80]).err(), Some(ServiceError::InvalidEncoding));
}

#[test]
fn sanitized_lines_hold_no_unsafe_character() {
    let raw = b"<a>\0x\x1c\\n<<>>\n\\\\n>\0<";
    for line in lines_of(raw) {
        assert!(!line.contains('\0'));
        assert!(!line.contains('\u{1c}'));
        assert!(!line.contains('<'));
        assert!(!line.contains('>'));
        assert!(!line.contains('\n'));
    }
}

#[test]
fn sanitized_lines_hold_no_escaped_line_break() {
    let replies: [&[u8]; 5] = [
        b"a\\\\nb\\n\\\\\\nc",
        b"\\\0n",
        b"\\<n",
        b"\\\\\\\\n",
        b"\\\x1c\\n",
    ];
    for raw in replies {
        for line in lines_of(raw) {
            assert!(!line.contains("\\n"), "{:?} in {:?}", line, raw);
        }
    }
}

#[test]
fn rejoined_lines_are_the_escaped_text() {
    let joined = lines_of(b"a<b\\nc\\\\d\0>\ne").join("\n");
    assert_eq!(joined, "a&lt;b\nc\\d&gt;\ne");
}

#[test]
fn sanitizing_sanitized_text_changes_nothing_more() {
    let once = sanitize_text("<b>&</b>").lines().clone();
    let twice = sanitize_text(&once[0]).lines().clone();
    assert_eq!(once, vec!["&lt;b&gt;&&lt;/b&gt;".to_string()]);
    assert_eq!(twice, once);
}

#[test]
fn replace_chars_replaces_without_overlap() {
    assert_eq!(text(&replace_chars(&chars("aaaa"), &chars("aa"), &chars("b"))), "bb");
    assert_eq!(text(&replace_chars(&chars("aaa"), &chars("aa"), &chars("b"))), "ba");
    assert_eq!(text(&replace_chars(&chars("abc"), &chars("b"), &chars(""))), "ac");
    assert_eq!(text(&replace_chars(&chars("abc"), &chars("x"), &chars("y"))), "abc");
    assert_eq!(text(&replace_chars(&chars("abc"), &chars(""), &chars("y"))), "abc");
    assert_eq!(text(&replace_chars(&chars("ab"), &chars("abc"), &chars("y"))), "ab");
    assert_eq!(text(&replace_chars(&chars("xabab"), &chars("ab"), &chars("aab"))), "xaabaab");
}

#[test]
fn split_chars_keeps_empty_lines() {
    assert_eq!(split_chars(&chars("")), vec![String::new()]);
    assert_eq!(split_chars(&chars("\n")), vec![String::new(), String::new()]);
    assert_eq!(
        split_chars(&chars("a\n\nb")),
        vec!["a".to_string(), String::new(), "b".to_string()]
    );
}
