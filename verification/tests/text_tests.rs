use nftee::text::{chars_of, push_all, push_decimal, string_of};

#[test]
fn chars_and_strings_convert_both_ways() {
    let text = "a\u{e9}\u{1f600}\n<";
    let chars = chars_of(text);
    assert_eq!(chars, vec!['a', '\u{e9}', '\u{1f600}', '\n', '<']);
    assert_eq!(string_of(&chars), text);
    assert_eq!(chars_of(""), Vec::<char>::new());
    assert_eq!(string_of(&[]), "");
}

#[test]
fn push_all_appends_in_order() {
    let mut bytes = vec![1u8, 2];
    push_all(&mut bytes, &[3, 4, 5]);
    assert_eq!(bytes, vec![1, 2, 3, 4, 5]);
    push_all(&mut bytes, &[]);
    assert_eq!(bytes, vec![1, 2, 3, 4, 5]);
}

#[test]
fn push_decimal_writes_without_leading_zeros() {
    let mut out = String::from("n=");
    push_decimal(&mut out, 0);
    assert_eq!(out, "n=0");
    let mut out = String::new();
    push_decimal(&mut out, 8080);
    assert_eq!(out, "8080");
    let mut out = String::new();
    push_decimal(&mut out, 10);
    assert_eq!(out, "10");
    let mut out = String::new();
    push_decimal(&mut out, u64::MAX);
    assert_eq!(out, "18446744073709551615");
}
