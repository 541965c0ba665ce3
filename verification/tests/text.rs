use mpris_hyprland_host::text::{
    chars_of, contains_seq, find_seq, index_of_char, lowercase_chars, push_decimal, trim_chars,
    unsigned_abs,
};

fn chars(s: &str) -> Vec<char> {
    s.chars().collect()
}

#[test]
fn decimal_rendering() {
    let mut v = Vec::new();
    push_decimal(&mut v, 0);
    assert_eq!(v, chars("0"));
    let mut v = vec!['x'];
    push_decimal(&mut v, 18_446_744_073_709_551_615);
    assert_eq!(v, chars("x18446744073709551615"));
}

#[test]
fn magnitude_of_extremes() {
    assert_eq!(unsigned_abs(i64::MIN), 9_223_372_036_854_775_808);
    assert_eq!(unsigned_abs(-3), 3);
    assert_eq!(unsigned_abs(5), 5);
}

#[test]
fn searching() {
    let s = chars_of("a://b://c");
    assert_eq!(s, chars("a://b://c"));
    assert_eq!(find_seq(&s, &chars_of("://")), Some(1));
    assert_eq!(find_seq(&s, &chars_of("zz")), None);
    assert_eq!(find_seq(&s, &chars_of("")), Some(0));
    assert!(contains_seq(&s, &chars_of("b:")));
    assert_eq!(index_of_char(&s, 'c'), Some(8));
    assert_eq!(index_of_char(&s, 'q'), None);
}

#[test]
fn trimming_and_lowercasing() {
    assert_eq!(trim_chars(&chars_of("\u{a0} hé \n")), chars("hé"));
    assert_eq!(trim_chars(&chars_of(" \t ")), chars(""));
    assert_eq!(lowercase_chars(&chars_of("ZeN-Bin É")), chars("zen-bin É"));
}
