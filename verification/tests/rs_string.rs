use imp::rs_string::{from_char_code, from_code_point, RsString};

fn rs(s: &str) -> RsString {
    RsString::owned(s.to_string())
}

fn text(r: &RsString) -> String {
    r.get_slice().to_string()
}

#[test]
fn length_counts_chars_and_bytes() {
    let s = rs("héllo");
    assert_eq!(s.length(), 5);
    assert_eq!(s.byte_len(), 6);
    assert!(!s.is_empty());
    assert!(s.empty().is_empty());
    assert_eq!(text(&s.empty()), "");
}

#[test]
fn char_to_byte_offsets() {
    let s = rs("héllo");
    assert_eq!(s.char_to_byte(0), Some(0));
    assert_eq!(s.char_to_byte(2), Some(3));
    assert_eq!(s.char_to_byte(4), Some(5));
    assert_eq!(s.char_to_byte(5), None);
}

#[test]
fn at_counts_from_either_end() {
    let s = rs("hello");
    assert_eq!(text(&s.at_method(Some(-1))), "o");
    assert_eq!(text(&s.at_method(None)), "h");
    assert_eq!(text(&s.at_method(Some(1))), "e");
    assert_eq!(text(&s.at_method(Some(5))), "");
    assert_eq!(text(&s.at_method(Some(-6))), "");
}

#[test]
fn char_at_and_codes() {
    let s = rs("hello");
    assert_eq!(text(&s.char_at(1)), "e");
    assert_eq!(text(&s.char_at(10)), "");
    assert_eq!(s.char_code_at(1), 101);
    assert_eq!(s.char_code_at(10), -1);
    let e = rs("😀x");
    assert_eq!(e.code_point_at(0), 0x1F600);
    assert_eq!(e.code_point_at(1), 'x' as i32);
    assert_eq!(e.code_point_at(2), -1);
}

#[test]
fn substring_clamps_byte_offsets() {
    let s = rs("hello");
    assert_eq!(text(&s.substring(1, Some(3))), "el");
    assert_eq!(text(&s.substring(3, Some(1))), "");
    assert_eq!(text(&s.substring(2, None)), "llo");
    assert_eq!(text(&s.substring(0, Some(100))), "hello");
    assert_eq!(text(&rs("héllo").substring(1, Some(3))), "é");
}

#[test]
fn slice_takes_negative_offsets_from_the_end() {
    let s = rs("hello");
    assert_eq!(text(&s.slice(-3, None)), "llo");
    assert_eq!(text(&s.slice(1, Some(-1))), "ell");
    assert_eq!(text(&s.slice(3, Some(1))), "");
    assert_eq!(text(&s.slice(-100, Some(2))), "he");
    assert_eq!(text(&s.slice(100, None)), "");
}

#[test]
fn substr_counts_chars() {
    let s = rs("hello");
    assert_eq!(text(&s.substr(1, Some(3))), "ell");
    assert_eq!(text(&s.substr(-3, Some(2))), "ll");
    assert_eq!(text(&s.substr(2, Some(0))), "");
    assert_eq!(text(&s.substr(2, Some(-4))), "");
    assert_eq!(text(&s.substr(2, None)), "llo");
    assert_eq!(text(&s.substr(1, Some(100))), "ello");
    assert_eq!(text(&rs("héllo").substr(1, Some(2))), "él");
}

#[test]
fn trims() {
    let s = rs(" \t hi there \n ");
    assert_eq!(text(&s.trim()), "hi there");
    assert_eq!(text(&s.trim_start_method()), "hi there \n ");
    assert_eq!(text(&s.trim_end_method()), " \t hi there");
    assert_eq!(text(&rs("\u{3000}x\u{a0}").trim()), "x");
    assert_eq!(text(&rs("").trim()), "");
    assert_eq!(text(&rs(" \t\n ").trim()), "");
    assert_eq!(text(&rs("ab").pad_start(5, Some("é".to_string()))), "éééab");
    assert_eq!(text(&rs("   ").trim_start_method()), "");
    assert_eq!(text(&rs("   ").trim_end_method()), "");
}

#[test]
fn index_of_searches_forward_from_a_byte_offset() {
    let s = rs("hello");
    assert_eq!(s.index_of("l".to_string(), None), 2);
    assert_eq!(s.index_of("l".to_string(), Some(3)), 3);
    assert_eq!(s.index_of("z".to_string(), None), -1);
    assert_eq!(s.index_of("h".to_string(), Some(5)), -1);
    assert_eq!(s.index_of("".to_string(), Some(2)), 2);
    assert_eq!(rs("héllo").index_of("l".to_string(), None), 3);
}

#[test]
fn last_index_of_searches_before_a_byte_offset() {
    let s = rs("hello");
    assert_eq!(s.last_index_of("l".to_string(), None), 3);
    assert_eq!(s.last_index_of("l".to_string(), Some(3)), 2);
    assert_eq!(s.last_index_of("".to_string(), Some(0)), 0);
    assert_eq!(s.last_index_of("h".to_string(), Some(0)), -1);
    assert_eq!(s.last_index_of("z".to_string(), None), -1);
    assert_eq!(s.last_index_of("lo".to_string(), Some(100)), 3);
}

#[test]
fn includes_and_affixes() {
    let s = rs("hello");
    assert!(s.includes("ell".to_string()));
    assert!(!s.includes("elo".to_string()));
    assert!(s.starts_with("he".to_string()));
    assert!(!s.starts_with("lo".to_string()));
    assert!(s.ends_with("lo".to_string()));
    assert!(!s.ends_with("he".to_string()));
    assert!(s.includes("".to_string()));
}

#[test]
fn concat_and_repeat() {
    assert_eq!(text(&rs("hello").concat(" world".to_string())), "hello world");
    assert_eq!(text(&rs("ab").repeat(3)), "ababab");
    assert_eq!(text(&rs("ab").repeat(0)), "");
    assert_eq!(text(&rs("").repeat(5)), "");
}

#[test]
fn pads_cycle_the_pad_string() {
    let s = rs("ab");
    assert_eq!(text(&s.pad_start(5, None)), "   ab");
    assert_eq!(text(&s.pad_start(6, Some("xy".to_string()))), "xyxyab");
    assert_eq!(text(&s.pad_start(5, Some("xy".to_string()))), "xyxab");
    assert_eq!(text(&s.pad_end(5, Some("12".to_string()))), "ab121");
    assert_eq!(text(&s.pad_start(1, Some("x".to_string()))), "ab");
    assert_eq!(text(&s.pad_end(5, Some("".to_string()))), "ab");
    assert_eq!(text(&rs("é").pad_end(3, Some("ü".to_string()))), "éüü");
}

#[test]
fn case_mapping() {
    assert_eq!(text(&rs("HeLLo").to_lower_case()), "hello");
    assert_eq!(text(&rs("HeLLo").to_upper_case()), "HELLO");
    assert_eq!(text(&rs("ß").to_upper_case()), "SS");
    assert_eq!(text(&rs("ÀB").to_locale_lower_case()), "àb");
    assert_eq!(text(&rs("àb").to_locale_upper_case()), "ÀB");
}

#[test]
fn locale_compare_is_lexicographic() {
    let s = rs("b");
    assert_eq!(s.locale_compare("a".to_string()), 1);
    assert_eq!(s.locale_compare("c".to_string()), -1);
    assert_eq!(s.locale_compare("b".to_string()), 0);
    assert_eq!(s.locale_compare("ba".to_string()), -1);
    assert_eq!(rs("ba").locale_compare("b".to_string()), 1);
}

#[test]
fn normalize_forms() {
    let composed = "\u{e9}";
    let decomposed = "e\u{301}";
    assert_eq!(text(&rs(decomposed).normalize(None)), composed);
    assert_eq!(text(&rs(decomposed).normalize(Some("NFC".to_string()))), composed);
    assert_eq!(text(&rs(composed).normalize(Some("NFD".to_string()))), decomposed);
    assert_eq!(text(&rs("\u{fb01}").normalize(Some("NFKC".to_string()))), "fi");
    assert_eq!(text(&rs("\u{fb01}").normalize(Some("NFKD".to_string()))), "fi");
    assert_eq!(text(&rs(decomposed).normalize(Some("bogus".to_string()))), composed);
    assert_eq!(text(&rs(decomposed).normalize(Some("".to_string()))), composed);
}

#[test]
fn from_codes_skips_non_scalars() {
    assert_eq!(text(&from_char_code(&vec![72, 105])), "Hi");
    assert_eq!(text(&from_char_code(&vec![72, 0xD800, 105])), "Hi");
    assert_eq!(text(&from_code_point(&vec![0x1F600, 0x110000, 33])), "😀!");
    assert_eq!(text(&from_code_point(&vec![])), "");
}

#[test]
fn views_of_views() {
    let s = rs("abcdef");
    let t = s.slice(1, Some(5));
    assert_eq!(text(&t), "bcde");
    let u = t.substr(1, Some(2));
    assert_eq!(text(&u), "cd");
    assert_eq!(u.length(), 2);
    assert_eq!(text(&t.trim()), "bcde");
}
