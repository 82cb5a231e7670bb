use haessig::text::{chars_of, is_whitespace, parse_u8, split_lines, starts_with, str_eq};

#[test]
fn white_space_is_what_std_says() {
    let mut c = '\0';
    loop {
        assert_eq!(is_whitespace(c), c.is_whitespace(), "{:?}", c);
        if c == char::MAX {
            break;
        }
        c = char::from_u32(c as u32 + 1).unwrap_or('\u{e000}');
    }
}

#[test]
fn lines_are_what_std_says() {
    let inputs = [
        "",
        "a",
        "a\n",
        "a\nb",
        "a\n\nb\n",
        "\n",
        "\n\n",
        "a\r\nb",
        "a\r\n",
        "a\r",
        "a\rb\n",
        "\r\n\r\n",
        "\r\r\n",
        "ä\nö\r\nü",
        " x \n\ty\n",
    ];
    for input in inputs {
        let expected: Vec<&str> = input.lines().collect();
        assert_eq!(split_lines(input), expected, "{:?}", input);
    }
}

#[test]
fn lines_by_hand() {
    assert_eq!(split_lines("a\nb\r\nc"), vec!["a", "b", "c"]);
    assert_eq!(split_lines("one\n"), vec!["one"]);
    assert_eq!(split_lines("\nx"), vec!["", "x"]);
    assert_eq!(split_lines(""), Vec::<&str>::new());
}

#[test]
fn numbers_below_256() {
    assert_eq!(parse_u8("0"), Some(0));
    assert_eq!(parse_u8("5"), Some(5));
    assert_eq!(parse_u8("255"), Some(255));
    assert_eq!(parse_u8("+5"), Some(5));
    assert_eq!(parse_u8("007"), Some(7));
    assert_eq!(parse_u8("0000000000000000000000255"), Some(255));
    assert_eq!(parse_u8("256"), None);
    assert_eq!(parse_u8("1000"), None);
    assert_eq!(parse_u8("99999999999999999999999999"), None);
    assert_eq!(parse_u8(""), None);
    assert_eq!(parse_u8("+"), None);
    assert_eq!(parse_u8("-1"), None);
    assert_eq!(parse_u8("-0"), None);
    assert_eq!(parse_u8("++1"), None);
    assert_eq!(parse_u8("1.5"), None);
    assert_eq!(parse_u8("12a"), None);
    assert_eq!(parse_u8(" 1"), None);
    assert_eq!(parse_u8("1 "), None);
    assert_eq!(parse_u8("٣"), None);
}

#[test]
fn numbers_are_what_std_says() {
    for n in 0..=300u32 {
        let text = n.to_string();
        assert_eq!(parse_u8(&text), text.parse::<u8>().ok());
        let signed = format!("+{}", n);
        assert_eq!(parse_u8(&signed), signed.parse::<u8>().ok());
        let padded = format!("00{}", n);
        assert_eq!(parse_u8(&padded), padded.parse::<u8>().ok());
    }
}

#[test]
fn equal_texts() {
    assert!(str_eq("", ""));
    assert!(str_eq("plus", "plus"));
    assert!(str_eq("grösser", "gr\u{f6}sser"));
    assert!(!str_eq("plus", "plu"));
    assert!(!str_eq("plus", "Plus"));
    assert!(!str_eq("a", ""));
    assert!(!str_eq("ä", "a"));
}

#[test]
fn characters_and_prefixes() {
    assert_eq!(chars_of("dä x"), vec!['d', 'ä', ' ', 'x']);
    assert_eq!(chars_of(""), Vec::<char>::new());
    let s = chars_of("isch 5");
    assert!(starts_with(&s, &chars_of("isch ")));
    assert!(starts_with(&s, &chars_of("")));
    assert!(starts_with(&s, &s));
    assert!(!starts_with(&s, &chars_of("isch 55")));
    assert!(!starts_with(&s, &chars_of("Isch")));
}
