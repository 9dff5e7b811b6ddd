use angler::text::{
    char_is_space, chars_of, decimal, parse_i32, parse_u64, push_decimal, split, split_words,
    trim, Separator,
};

fn chars(text: &str) -> Vec<char> {
    text.chars().collect()
}

fn pieces(text: &str, spans: &[(usize, usize)]) -> Vec<String> {
    let all = chars(text);
    spans.iter().map(|&(from, to)| all[from..to].iter().collect()).collect()
}

const SAMPLES: [&str; 24] = [
    "",
    " ",
    "a",
    ",",
    ",,",
    "a,b",
    "a,b,c",
    ",a,,b,",
    "10,20 300,400",
    "  10,20\t300,400\n",
    "10,20 300x400",
    "one two  three",
    "\u{a0}x\u{2003}y\u{3000}",
    "\u{85}\u{1680}\u{2028}\u{2029}\u{202f}\u{205f}",
    "\u{200b}zero\u{200b}width",
    "tab\tnew\nline\r\nfeed\u{c}vt\u{b}",
    "é,ü ß,ø",
    " lead",
    "trail ",
    " , ",
    "-5,+7 0,-0",
    "1,2,3 4,5,6 7,8,9",
    "12345678901234567890",
    "\u{1f3a3},\u{1f41f}",
];

#[test]
fn white_space_is_that_of_the_standard_library() {
    for code in 0..=0x10ffffu32 {
        if let Some(c) = char::from_u32(code) {
            assert_eq!(char_is_space(c), c.is_whitespace(), "{:x}", code);
        }
    }
}

#[test]
fn characters_of_a_string() {
    for text in SAMPLES {
        assert_eq!(chars_of(text), chars(text));
    }
}

#[test]
fn split_at_commas_is_that_of_the_standard_library() {
    for text in SAMPLES {
        let expected: Vec<String> = text.split(',').map(String::from).collect();
        assert_eq!(pieces(text, &split(&chars(text), Separator::Comma)), expected);
    }
}

#[test]
fn split_keeps_empty_pieces() {
    assert_eq!(split(&chars(""), Separator::Comma), vec![(0, 0)]);
    assert_eq!(split(&chars(",a,,b,"), Separator::Comma), vec![
        (0, 0),
        (1, 2),
        (3, 3),
        (4, 5),
        (6, 6)
    ]);
    assert_eq!(split(&chars("a b"), Separator::Space), vec![(0, 1), (2, 3)]);
    assert_eq!(split(&chars("a b"), Separator::Comma), vec![(0, 3)]);
}

#[test]
fn words_are_those_of_the_standard_library() {
    for text in SAMPLES {
        let expected: Vec<String> = text.split_whitespace().map(String::from).collect();
        assert_eq!(pieces(text, &split_words(&chars(text))), expected);
    }
}

#[test]
fn words_have_no_empty_piece() {
    assert_eq!(split_words(&chars("")), vec![]);
    assert_eq!(split_words(&chars(" \t ")), vec![]);
    assert_eq!(split_words(&chars("  ab  c ")), vec![(2, 4), (6, 7)]);
}

#[test]
fn trim_is_that_of_the_standard_library() {
    for text in SAMPLES {
        let span = trim(&chars(text));
        assert_eq!(pieces(text, &[span]), vec![text.trim().to_string()]);
    }
    assert_eq!(trim(&chars("  ab c \n")), (2, 6));
    assert_eq!(trim(&chars(" \t ")), (3, 3));
    assert_eq!(trim(&chars("")), (0, 0));
}

const NUMBERS: [&str; 40] = [
    "",
    "+",
    "-",
    "0",
    "-0",
    "+0",
    "7",
    "+7",
    "-7",
    "007",
    "-007",
    "42",
    "2147483647",
    "2147483648",
    "+2147483647",
    "-2147483648",
    "-2147483649",
    "4294967295",
    "4294967296",
    "18446744073709551615",
    "18446744073709551616",
    "+18446744073709551615",
    "-18446744073709551615",
    "00000000000000000000000000000000000001",
    "99999999999999999999999999999999999999999999",
    "340282366920938463463374607431768211456",
    "--1",
    "++1",
    "+-1",
    "1-",
    "1+1",
    " 1",
    "1 ",
    "1_000",
    "1.0",
    "1e3",
    "0x10",
    "١٢٣",
    "１２",
    "a",
];

#[test]
fn parse_i32_is_that_of_the_standard_library() {
    for text in NUMBERS {
        assert_eq!(parse_i32(&chars(text)), text.parse::<i32>().ok(), "{:?}", text);
    }
    for v in [i32::MIN, i32::MIN + 1, -100_000, -1, 0, 1, 99, 65535, i32::MAX - 1, i32::MAX] {
        assert_eq!(parse_i32(&chars(&v.to_string())), Some(v));
    }
}

#[test]
fn parse_i32_exact_values() {
    assert_eq!(parse_i32(&chars("-2147483648")), Some(i32::MIN));
    assert_eq!(parse_i32(&chars("2147483647")), Some(i32::MAX));
    assert_eq!(parse_i32(&chars("2147483648")), None);
    assert_eq!(parse_i32(&chars("-2147483649")), None);
    assert_eq!(parse_i32(&chars("+12")), Some(12));
    assert_eq!(parse_i32(&chars("-")), None);
    assert_eq!(parse_i32(&chars("")), None);
    assert_eq!(parse_i32(&chars("12a")), None);
}

#[test]
fn parse_u64_is_that_of_the_standard_library() {
    for text in NUMBERS {
        assert_eq!(parse_u64(&chars(text)), text.parse::<u64>().ok(), "{:?}", text);
    }
}

#[test]
fn parse_u64_exact_values() {
    assert_eq!(parse_u64(&chars("18446744073709551615")), Some(u64::MAX));
    assert_eq!(parse_u64(&chars("18446744073709551616")), None);
    assert_eq!(parse_u64(&chars("+5")), Some(5));
    assert_eq!(parse_u64(&chars("-5")), None);
    assert_eq!(parse_u64(&chars("-0")), None);
    assert_eq!(parse_u64(&chars("0")), Some(0));
}

#[test]
fn decimal_is_that_of_the_standard_library() {
    let mut v: i64 = i32::MIN as i64;
    while v <= i32::MAX as i64 {
        assert_eq!(decimal(v as i32), v.to_string());
        v += 65_537;
    }
    for v in [i32::MIN, -10, -9, -1, 0, 1, 9, 10, 11, 99, 100, 101, i32::MAX] {
        assert_eq!(decimal(v), v.to_string());
    }
}

#[test]
fn decimal_exact_values() {
    assert_eq!(decimal(0), "0");
    assert_eq!(decimal(-1), "-1");
    assert_eq!(decimal(1200), "1200");
    assert_eq!(decimal(i32::MIN), "-2147483648");
    assert_eq!(decimal(i32::MAX), "2147483647");
}

#[test]
fn push_decimal_appends() {
    let mut text = String::from("at ");
    push_decimal(&mut text, 12);
    push_decimal(&mut text, -3);
    assert_eq!(text, "at 12-3");
}

#[test]
fn written_numbers_read_back() {
    for v in [i32::MIN, -77, 0, 5, 1 << 20, i32::MAX] {
        assert_eq!(parse_i32(&chars(&decimal(v))), Some(v));
    }
}
