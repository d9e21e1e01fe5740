use autotube::text::{
    after_last_of, append_chars, begins_with, chars_of, decimal_of, first_match, holds,
    last_position, position, same_text, second_field_of, skip_bytes, slice_of, split, stands_at,
    string_of, strip_leading, takes_bytes, trim_to, up_to_first_of, width_of,
};

fn text(chars: &[char]) -> String {
    chars.iter().collect()
}

#[test]
fn chars_and_strings_go_both_ways() {
    let chars = chars_of("héllo");
    assert_eq!(chars, vec!['h', 'é', 'l', 'l', 'o']);
    assert_eq!(string_of(&chars, 0, 5), "héllo");
    assert_eq!(string_of(&chars, 1, 3), "él");
    assert_eq!(string_of(&chars, 2, 2), "");
    assert_eq!(slice_of(&chars, 3, 5), vec!['l', 'o']);
}

#[test]
fn searching_finds_the_first_place() {
    let hay = chars_of("abcabcabd");
    assert_eq!(first_match(&hay, &chars_of("abd")), Some(6));
    assert_eq!(first_match(&hay, &chars_of("abc")), Some(0));
    assert_eq!(first_match(&hay, &chars_of("bca")), Some(1));
    assert_eq!(first_match(&hay, &chars_of("abe")), None);
    assert_eq!(first_match(&hay, &chars_of("")), Some(0));
    assert_eq!(first_match(&chars_of(""), &chars_of("")), Some(0));
    assert_eq!(first_match(&chars_of(""), &chars_of("a")), None);
    assert!(holds(&hay, &chars_of("cab")));
    assert!(!holds(&hay, &chars_of("abcabcabda")));
    assert!(stands_at(&hay, &chars_of("abd"), 6));
    assert!(!stands_at(&hay, &chars_of("abd"), 7));
    assert!(stands_at(&hay, &chars_of(""), 9));
    assert!(!stands_at(&hay, &chars_of(""), 10));
    assert!(begins_with(&hay, &chars_of("abca")));
    assert!(!begins_with(&hay, &chars_of("bca")));
}

#[test]
fn positions_of_a_character() {
    let chars = chars_of("a.b.c");
    assert_eq!(position(&chars, '.'), Some(1));
    assert_eq!(last_position(&chars, '.'), Some(3));
    assert_eq!(position(&chars, 'x'), None);
    assert_eq!(last_position(&chars, 'x'), None);
    assert_eq!(position(&chars, 'a'), Some(0));
    assert_eq!(last_position(&chars, 'c'), Some(4));
}

#[test]
fn trimming_keeps_what_the_frame_encloses() {
    assert_eq!(text(&trim_to(&chars_of("\"___@17@___\"\n"), '_')), "___@17@___");
    assert_eq!(text(&trim_to(&chars_of("no frame"), '_')), "");
    assert_eq!(text(&trim_to(&chars_of("a_b"), '_')), "_");
    assert_eq!(text(&trim_to(&chars_of(""), '_')), "");
}

#[test]
fn second_field_is_what_follows_the_first_mark() {
    assert_eq!(second_field_of(&chars_of("___@17@___"), '@').map(|f| text(&f)), Some(String::from("17")));
    assert_eq!(second_field_of(&chars_of("a@b"), '@').map(|f| text(&f)), Some(String::from("b")));
    assert_eq!(second_field_of(&chars_of("a@"), '@').map(|f| text(&f)), Some(String::new()));
    assert_eq!(second_field_of(&chars_of("a@@b"), '@').map(|f| text(&f)), Some(String::new()));
    assert_eq!(second_field_of(&chars_of("ab"), '@'), None);
}

#[test]
fn cutting_at_the_last_and_at_the_first_mark() {
    assert_eq!(after_last_of(&chars_of("/tmp/1.2/download.mkv"), '.').map(|f| text(&f)), Some(String::from("mkv")));
    assert_eq!(after_last_of(&chars_of("download."), '.').map(|f| text(&f)), Some(String::new()));
    assert_eq!(after_last_of(&chars_of("download"), '.'), None);
    assert_eq!(text(&up_to_first_of(&chars_of("name/videos/x"), '/')), "name");
    assert_eq!(text(&up_to_first_of(&chars_of("name"), '/')), "name");
    assert_eq!(text(&up_to_first_of(&chars_of("/name"), '/')), "");
}

#[test]
fn stripping_takes_every_leading_copy() {
    let strip = |s: &str, p: &str| text(&strip_leading(&chars_of(s), &chars_of(p)));
    assert_eq!(strip("https://https://x", "https://"), "x");
    assert_eq!(strip("http://x", "https://"), "http://x");
    assert_eq!(strip("www.www.", "www."), "");
    assert_eq!(strip("abc", ""), "abc");
    assert_eq!(strip("", "a"), "");
}

#[test]
fn splitting_keeps_empty_fields() {
    let fields = |s: &str| -> Vec<String> { split(&chars_of(s), '&').iter().map(|f| text(f)).collect() };
    assert_eq!(fields("a&b&c"), vec!["a", "b", "c"]);
    assert_eq!(fields("a&"), vec!["a", ""]);
    assert_eq!(fields("&a"), vec!["", "a"]);
    assert_eq!(fields(""), vec![""]);
    assert_eq!(fields("a&&b"), vec!["a", "", "b"]);
}

#[test]
fn bytes_are_counted_as_utf8_has_them() {
    assert_eq!(width_of('a'), 1);
    assert_eq!(width_of('é'), 2);
    assert_eq!(width_of('€'), 3);
    assert_eq!(width_of('😀'), 4);
    for c in ['\u{7f}', '\u{80}', '\u{7ff}', '\u{800}', '\u{ffff}', '\u{10000}'] {
        assert_eq!(width_of(c), c.len_utf8());
    }
    assert!(takes_bytes(&chars_of("v=0123456789a"), 13));
    assert!(!takes_bytes(&chars_of("v=0123456789"), 13));
    assert!(takes_bytes(&chars_of("v=012345678é"), 13));
    assert!(takes_bytes(&chars_of(""), 0));
    let chars = chars_of("aé€😀b");
    assert_eq!(skip_bytes(&chars, 0, 0), Some(0));
    assert_eq!(skip_bytes(&chars, 0, 1), Some(1));
    assert_eq!(skip_bytes(&chars, 0, 2), None);
    assert_eq!(skip_bytes(&chars, 0, 3), Some(2));
    assert_eq!(skip_bytes(&chars, 1, 5), Some(3));
    assert_eq!(skip_bytes(&chars, 0, 10), Some(4));
    assert_eq!(skip_bytes(&chars, 0, 11), Some(5));
    assert_eq!(skip_bytes(&chars, 0, 12), None);
    assert_eq!(skip_bytes(&chars, 5, 0), Some(5));
    assert_eq!(skip_bytes(&chars, 5, 1), None);
}

#[test]
fn texts_are_compared_and_joined() {
    assert!(same_text("often", "often"));
    assert!(!same_text("often", "ofte"));
    assert!(!same_text("often", "oftem"));
    assert!(same_text("", ""));
    let mut chars = chars_of("ab");
    append_chars(&mut chars, &chars_of("cd"));
    append_chars(&mut chars, &chars_of(""));
    assert_eq!(text(&chars), "abcd");
}

#[test]
fn numbers_are_written_in_decimal() {
    for n in [0u64, 3, 9, 10, 11, 99, 100, 1234567890, u64::MAX] {
        assert_eq!(text(&decimal_of(n)), n.to_string());
    }
}
