use voice_client::text::{chars_of, is_whitespace, trim_range};

#[test]
fn white_space_is_what_the_standard_library_says() {
    for code in 0..=0x10FFFFu32 {
        if let Some(c) = char::from_u32(code) {
            assert_eq!(is_whitespace(c), c.is_whitespace(), "U+{:04X}", code);
        }
    }
}

#[test]
fn chars_come_out_in_order() {
    assert_eq!(chars_of(""), Vec::<char>::new());
    assert_eq!(chars_of("a\u{e9}\u{1F600}z"), vec!['a', '\u{e9}', '\u{1F600}', 'z']);
}

#[test]
fn a_range_is_trimmed_on_both_sides() {
    let cases = ["", " ", "a", "  a b \t\r\n", "\u{2003}x\u{a0}", "xx", " \n "];
    for case in cases {
        let chars: Vec<char> = case.chars().collect();
        let (a, b) = trim_range(&chars, 0, chars.len());
        let got: String = chars[a..b].iter().collect();
        assert_eq!(got, case.trim());
    }
    let chars: Vec<char> = "ab  cd  ef".chars().collect();
    assert_eq!(trim_range(&chars, 2, 8), (4, 6));
    assert_eq!(trim_range(&chars, 2, 4), (4, 4));
    assert_eq!(trim_range(&chars, 5, 5), (5, 5));
}
