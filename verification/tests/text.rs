use memory_pipeline::text::{
    append_decimal, char_vec, copy_option, date_part, join, replace, same_text, shorten,
    text_or_empty, trim,
};

#[test]
fn replace_takes_every_occurrence_from_the_left() {
    assert_eq!(replace("a-b-c", "-", "+"), "a+b+c");
    assert_eq!(replace("aaaa", "aa", "b"), "bb");
    assert_eq!(replace("aaa", "aa", "b"), "ba");
    assert_eq!(replace("", "x", "y"), "");
    assert_eq!(replace("no such", "{x}", "y"), "no such");
    assert_eq!(replace("{x}{x}", "{x}", "{x}!"), "{x}!{x}!");
    assert_eq!(replace("größe", "ö", ""), "grße");
    assert_eq!(replace("x", "xyz", "q"), "x");
}

#[test]
fn join_puts_the_separator_between() {
    assert_eq!(join(&[], ", "), "");
    assert_eq!(join(&["a".to_string()], ", "), "a");
    assert_eq!(join(&["a".to_string(), "".to_string(), "c".to_string()], ", "), "a, , c");
}

#[test]
fn numbers_are_written_in_decimal() {
    let mut line = String::from("n=");
    append_decimal(&mut line, 0);
    line.push(' ');
    append_decimal(&mut line, 4096);
    line.push(' ');
    append_decimal(&mut line, usize::MAX);
    assert_eq!(line, format!("n=0 4096 {}", usize::MAX));
}

#[test]
fn date_part_is_the_first_ten_bytes() {
    assert_eq!(date_part("2026-04-05T10:00:00+00:00"), "2026-04-05");
    assert_eq!(date_part("2026-04-05"), "2026-04-05");
    assert_eq!(date_part("2026-04"), "2026-04");
    assert_eq!(date_part(""), "");
    // The tenth byte falls inside a character: the text is given back whole.
    assert_eq!(date_part("123456789é"), "123456789é");
    assert_eq!(date_part("12345678é-"), "12345678é");
}

#[test]
fn trim_takes_white_space_off_both_ends() {
    assert_eq!(trim("  {\"a\": 1}\n"), "{\"a\": 1}");
    assert_eq!(trim("\t\r\n \u{b}\u{c}"), "");
    assert_eq!(trim(""), "");
    assert_eq!(trim("a b"), "a b");
    assert_eq!(trim("\u{a0}x\u{3000}"), "x");
    assert_eq!(trim("\u{200b}x"), "\u{200b}x");
}

#[test]
fn white_space_is_a_fixed_set() {
    for code in 0..=0x10ffff_u32 {
        let Some(c) = char::from_u32(code) else {
            continue;
        };
        let white = matches!(
            code,
            0x20 | 0x9..=0xd
                | 0x85
                | 0xa0
                | 0x1680
                | 0x2000..=0x200a
                | 0x2028
                | 0x2029
                | 0x202f
                | 0x205f
                | 0x3000
        );
        assert_eq!(c.is_whitespace(), white, "{code:x}");
        if white || code < 0x3100 {
            assert_eq!(trim(&c.to_string()).is_empty(), white, "{code:x}");
        }
    }
}

#[test]
fn shorten_counts_characters() {
    assert_eq!(shorten("abc", 3), "abc");
    assert_eq!(shorten("abcd", 3), "abc...");
    assert_eq!(shorten("ééé", 3), "ééé");
    assert_eq!(shorten("éééé", 3), "ééé...");
    assert_eq!(shorten("", 0), "");
    assert_eq!(shorten("a", 0), "...");
}

#[test]
fn small_helpers_do_what_they_say() {
    assert!(same_text("it", "it"));
    assert!(!same_text("it", "IT"));
    assert!(!same_text("it", "ita"));
    assert_eq!(char_vec("aé"), vec!['a', 'é']);
    assert_eq!(text_or_empty(None), "");
    assert_eq!(text_or_empty(Some("x".to_string())), "x");
    assert_eq!(copy_option(&None), None);
    assert_eq!(copy_option(&Some("x".to_string())), Some("x".to_string()));
}
