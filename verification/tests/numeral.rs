use toolbox::numeral::{
    char_of_digit, digit_of, parse_digits, parse_signed, parse_unsigned, push_decimal,
    push_fixed_numeral, push_numeral, push_signed_numeral,
};
use toolbox::text::{chars_of, split_fields};

fn chars(text: &str) -> Vec<char> {
    text.chars().collect()
}

fn numeral(n: u64, radix: u64) -> String {
    let mut out = String::new();
    push_numeral(&mut out, n, radix);
    out
}

fn decimal(n: i64) -> String {
    let mut out = String::new();
    push_decimal(&mut out, n);
    out
}

fn signed(n: i64, radix: u64) -> String {
    let mut out = String::new();
    push_signed_numeral(&mut out, n, radix);
    out
}

#[test]
fn digits_are_worth_what_std_says() {
    for code in 0..=0x7fu8 {
        let c = code as char;
        let expected = c.to_digit(36).map(|d| d as u64).unwrap_or(36);
        assert_eq!(digit_of(c), expected);
    }
    assert_eq!(digit_of('é'), 36);
    assert_eq!(digit_of('٣'), 36);
}

#[test]
fn digit_chars_are_upper_case() {
    for d in 0..36u64 {
        let c = char_of_digit(d);
        assert_eq!(c, std::char::from_digit(d as u32, 36).unwrap().to_ascii_uppercase());
        assert_eq!(digit_of(c), d);
    }
}

#[test]
fn parse_digits_reads_plain_numerals_only() {
    assert_eq!(parse_digits(&chars("255"), 10, 255), Some(255));
    assert_eq!(parse_digits(&chars("256"), 10, 255), None);
    assert_eq!(parse_digits(&chars("000255"), 10, 255), Some(255));
    assert_eq!(parse_digits(&chars(""), 10, 255), None);
    assert_eq!(parse_digits(&chars("+1"), 10, 255), None);
    assert_eq!(parse_digits(&chars("-1"), 10, 255), None);
    assert_eq!(parse_digits(&chars("12a"), 10, 255), None);
    assert_eq!(parse_digits(&chars("fF"), 16, 255), Some(255));
    assert_eq!(parse_digits(&chars("z"), 36, 255), Some(35));
    assert_eq!(parse_digits(&chars("8"), 8, 255), None);
}

#[test]
fn parse_unsigned_agrees_with_std() {
    let cases = [
        "", "+", "-", "0", "+0", "-0", "255", "256", "+255", "0255", "00000000255", "1 ", " 1",
        "++1", "1+", "18446744073709551615", "18446744073709551616", "99999999999999999999999",
        "ff", "0x10", "1_000", "١٢٣",
    ];
    for text in cases {
        assert_eq!(parse_unsigned(&chars(text), 10, 255), text.parse::<u8>().ok().map(u64::from));
        assert_eq!(
            parse_unsigned(&chars(text), 10, u32::MAX as u64),
            text.parse::<u32>().ok().map(u64::from)
        );
        assert_eq!(parse_unsigned(&chars(text), 10, u64::MAX), text.parse::<u64>().ok());
        assert_eq!(
            parse_unsigned(&chars(text), 16, 255),
            u8::from_str_radix(text, 16).ok().map(u64::from)
        );
        assert_eq!(
            parse_unsigned(&chars(text), 2, 255),
            u8::from_str_radix(text, 2).ok().map(u64::from)
        );
    }
}

#[test]
fn parse_signed_agrees_with_std() {
    let cases = [
        "", "+", "-", "0", "+0", "-0", "-1", "+1", "--1", "-+1", "+-1", "1-",
        "9223372036854775807", "9223372036854775808", "-9223372036854775808",
        "-9223372036854775809", "7FFFFFFFFFFFFFFF", "8000000000000000", "-8000000000000000",
        "-8000000000000001", "ffffffffffffffff", "FF", "ff", "-fF", "777", "778",
        "1000000000000000000000", "-1000000000000000000000", "101", "102", " 1", "1.0", "é",
        "0000000000000000000000000000000000000001",
    ];
    for text in cases {
        for radix in [2u32, 8, 10, 16, 36] {
            assert_eq!(
                parse_signed(&chars(text), radix as u64),
                i64::from_str_radix(text, radix).ok(),
                "{:?} in radix {}",
                text,
                radix
            );
        }
    }
}

#[test]
fn numerals_agree_with_std_formatting() {
    for n in [0u64, 1, 7, 8, 9, 10, 15, 16, 255, 256, 1000, u32::MAX as u64, u64::MAX] {
        assert_eq!(numeral(n, 10), format!("{}", n));
        assert_eq!(numeral(n, 16), format!("{:X}", n));
        assert_eq!(numeral(n, 8), format!("{:o}", n));
        assert_eq!(numeral(n, 2), format!("{:b}", n));
    }
    assert_eq!(numeral(35, 36), "Z");
    assert_eq!(numeral(36, 36), "10");
}

#[test]
fn fixed_numerals_are_padded_or_cut_to_width() {
    let fixed = |n: u64, radix: u64, width: usize| {
        let mut out = String::new();
        push_fixed_numeral(&mut out, n, radix, width);
        out
    };
    for n in 0..=255u64 {
        assert_eq!(fixed(n, 2, 8), format!("{:08b}", n));
        assert_eq!(fixed(n, 16, 2), format!("{:02X}", n));
    }
    assert_eq!(fixed(5, 10, 0), "");
    assert_eq!(fixed(0x1234, 16, 2), "34");
    assert_eq!(fixed(7, 10, 4), "0007");
}

#[test]
fn pushing_appends_to_what_is_there() {
    let mut out = String::from("n=");
    push_numeral(&mut out, 42, 10);
    push_decimal(&mut out, -7);
    push_fixed_numeral(&mut out, 3, 2, 4);
    push_signed_numeral(&mut out, -255, 16);
    assert_eq!(out, "n=42-70011-FF");
}

#[test]
fn decimal_text_agrees_with_std() {
    for n in [0i64, 1, -1, 9, -9, 10, -10, 255, -255, i64::MAX, i64::MIN, i64::MIN + 1] {
        assert_eq!(decimal(n), format!("{}", n));
    }
}

#[test]
fn signed_numerals_carry_a_sign_in_every_radix() {
    for n in [0i64, 1, 255, 4096, i64::MAX] {
        assert_eq!(signed(n, 16), format!("{:X}", n));
        assert_eq!(signed(n, 8), format!("{:o}", n));
        assert_eq!(signed(n, 2), format!("{:b}", n));
        assert_eq!(signed(n, 10), format!("{}", n));
    }
    for n in [1i64, 2, 255, 4096, i64::MAX] {
        assert_eq!(signed(-n, 16), format!("-{:X}", n));
        assert_eq!(signed(-n, 8), format!("-{:o}", n));
        assert_eq!(signed(-n, 2), format!("-{:b}", n));
        assert_eq!(signed(-n, 10), format!("-{}", n));
    }
    assert_eq!(signed(-1, 16), "-1");
    assert_eq!(signed(-255, 16), "-FF");
    assert_eq!(signed(i64::MIN, 16), "-8000000000000000");
    assert_eq!(signed(i64::MIN, 8), "-1000000000000000000000");
    assert_eq!(signed(i64::MIN, 2), format!("-1{}", "0".repeat(63)));
    assert_eq!(signed(i64::MIN, 10), "-9223372036854775808");
}

#[test]
fn written_numbers_read_back() {
    for n in [0i64, 1, 9, 10, 255, 4096, i64::MAX, -1, -255, i64::MIN + 1, i64::MIN] {
        assert_eq!(parse_signed(&chars(&decimal(n)), 10), Some(n));
        for radix in [2u64, 8, 10, 16, 36] {
            assert_eq!(parse_signed(&chars(&signed(n, radix)), radix), Some(n));
        }
    }
}

#[test]
fn chars_of_gives_the_characters_in_order() {
    assert_eq!(chars_of(""), Vec::<char>::new());
    assert_eq!(chars_of("a.b"), vec!['a', '.', 'b']);
    assert_eq!(chars_of("é1"), vec!['é', '1']);
}

#[test]
fn split_fields_agrees_with_std_split() {
    for text in ["", ".", "a", "a.b", ".a", "a.", "..", "a..b", "1.2.3.4", "1,2,3", "é.ü"] {
        for sep in ['.', ','] {
            let expected: Vec<Vec<char>> = text.split(sep).map(|f| f.chars().collect()).collect();
            assert_eq!(split_fields(&chars(text), sep), expected);
        }
    }
}
