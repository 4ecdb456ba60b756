use bijoux::decimal::{int_error_message, parse_i32_text, IntErrorKind};

fn std_kind(s: &str) -> Result<i32, IntErrorKind> {
    match s.parse::<i32>() {
        Ok(v) => Ok(v),
        Err(e) => Err(match e.kind() {
            std::num::IntErrorKind::Empty => IntErrorKind::Empty,
            std::num::IntErrorKind::InvalidDigit => IntErrorKind::InvalidDigit,
            std::num::IntErrorKind::PosOverflow => IntErrorKind::PosOverflow,
            std::num::IntErrorKind::NegOverflow => IntErrorKind::NegOverflow,
            _ => panic!("unexpected kind"),
        }),
    }
}

#[test]
fn reads_plain_and_signed_numbers() {
    assert_eq!(parse_i32_text("42"), Ok(42));
    assert_eq!(parse_i32_text("-42"), Ok(-42));
    assert_eq!(parse_i32_text("+7"), Ok(7));
    assert_eq!(parse_i32_text("007"), Ok(7));
    assert_eq!(parse_i32_text("0"), Ok(0));
    assert_eq!(parse_i32_text("-0"), Ok(0));
}

#[test]
fn reads_the_ends_of_the_range() {
    assert_eq!(parse_i32_text("2147483647"), Ok(i32::MAX));
    assert_eq!(parse_i32_text("-2147483648"), Ok(i32::MIN));
    assert_eq!(parse_i32_text("2147483648"), Err(IntErrorKind::PosOverflow));
    assert_eq!(parse_i32_text("-2147483649"), Err(IntErrorKind::NegOverflow));
}

#[test]
fn refuses_malformed_text() {
    assert_eq!(parse_i32_text(""), Err(IntErrorKind::Empty));
    assert_eq!(parse_i32_text("-"), Err(IntErrorKind::InvalidDigit));
    assert_eq!(parse_i32_text("+"), Err(IntErrorKind::InvalidDigit));
    assert_eq!(parse_i32_text("1a"), Err(IntErrorKind::InvalidDigit));
    assert_eq!(parse_i32_text(" 1"), Err(IntErrorKind::InvalidDigit));
    assert_eq!(parse_i32_text("1.5"), Err(IntErrorKind::InvalidDigit));
    assert_eq!(parse_i32_text("--1"), Err(IntErrorKind::InvalidDigit));
    assert_eq!(parse_i32_text("١٢"), Err(IntErrorKind::InvalidDigit));
}

#[test]
fn the_first_problem_from_the_left_decides() {
    assert_eq!(parse_i32_text("99999999999a"), Err(IntErrorKind::PosOverflow));
    assert_eq!(parse_i32_text("1a99999999999"), Err(IntErrorKind::InvalidDigit));
    assert_eq!(parse_i32_text("-99999999999x"), Err(IntErrorKind::NegOverflow));
}

#[test]
fn agrees_with_std_on_many_texts() {
    let samples = [
        "", "+", "-", "0", "12", "-12", "+12", "2147483647", "2147483648", "-2147483648",
        "-2147483649", "99999999999a", "1a", "a1", " 3", "3 ", "+-3", "12345678901234567890",
        "0000000000000000000001", "-0000000000002147483648", "4294967296", "x", "é", "7é",
    ];
    for s in samples.iter() {
        assert_eq!(parse_i32_text(s), std_kind(s), "text {:?}", s);
    }
}

#[test]
fn reads_back_printed_numbers() {
    let values = [0, 1, -1, 9, 10, -10, 12345, -98765, i32::MAX, i32::MIN, 1_000_000_000];
    for v in values.iter() {
        assert_eq!(parse_i32_text(&v.to_string()), Ok(*v));
    }
}

#[test]
fn error_texts_match_std() {
    let cases = [("", IntErrorKind::Empty), ("x", IntErrorKind::InvalidDigit), ("9999999999", IntErrorKind::PosOverflow), ("-9999999999", IntErrorKind::NegOverflow)];
    for (text, kind) in cases.iter() {
        let std_text = text.parse::<i32>().unwrap_err().to_string();
        assert_eq!(int_error_message(*kind), std_text);
    }
}
