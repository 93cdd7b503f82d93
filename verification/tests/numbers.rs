use orredis::numbers::{i64_text, parse_i64, u64_text};

#[test]
fn decimal_text_of_integers() {
    assert_eq!(i64_text(0), "0");
    assert_eq!(i64_text(7), "7");
    assert_eq!(i64_text(-7), "-7");
    assert_eq!(i64_text(1234567890), "1234567890");
    assert_eq!(i64_text(i64::MAX), "9223372036854775807");
    assert_eq!(i64_text(i64::MIN), "-9223372036854775808");
    assert_eq!(u64_text(0), "0");
    assert_eq!(u64_text(u64::MAX), "18446744073709551615");
}

#[test]
fn integers_are_read_from_decimal_text() {
    assert_eq!(parse_i64("0"), Some(0));
    assert_eq!(parse_i64("30"), Some(30));
    assert_eq!(parse_i64("-30"), Some(-30));
    assert_eq!(parse_i64("+30"), Some(30));
    assert_eq!(parse_i64("-0"), Some(0));
    assert_eq!(parse_i64("007"), Some(7));
    assert_eq!(parse_i64("9223372036854775807"), Some(i64::MAX));
    assert_eq!(parse_i64("-9223372036854775808"), Some(i64::MIN));
}

#[test]
fn what_is_no_integer_is_refused() {
    for text in [
        "",
        "+",
        "-",
        "--1",
        "+-1",
        " 1",
        "1 ",
        "1_000",
        "1.0",
        "0x10",
        "abc",
        "9223372036854775808",
        "-9223372036854775809",
        "99999999999999999999999999",
        "\u{661}",
    ] {
        assert_eq!(parse_i64(text), None, "text {:?}", text);
    }
}

#[test]
fn reading_agrees_with_the_standard_library() {
    for text in ["12", "-12", "+12", "", "-", "00", "1e3", "9223372036854775807", "9223372036854775808"] {
        assert_eq!(parse_i64(text), text.parse::<i64>().ok(), "text {:?}", text);
    }
}

#[test]
fn an_integer_is_read_back_from_its_text() {
    for v in [0i64, 1, -1, 9, 10, -10, 99, 100, 12345, -98765, i64::MAX, i64::MIN, i64::MAX - 1] {
        assert_eq!(parse_i64(&i64_text(v)), Some(v));
        assert_eq!(i64_text(v), v.to_string());
    }
}

#[test]
fn numbers_with_a_fraction() {
    for text in [
        "0", "1", "-1", "+1", "1.5", "-1.5", "1.", ".5", "+.5", "-.5", "1e5", "1E5", "1e+5",
        "1e-5", "1.5e10", "1.e3", ".5E-3", "007", "0.000001", "1e-07", "inf", "-inf", "+inf",
        "Inf", "INF", "infinity", "Infinity", "-INFINITY", "nan", "NaN", "-nan", "+NAN",
        "123456789012345678901234567890", "1e400",
    ] {
        assert!(orredis::numbers::is_float(text), "text {:?}", text);
    }
}

#[test]
fn what_is_no_number_with_a_fraction_is_refused() {
    for text in [
        "", "+", "-", ".", "+.", "e", "e5", ".e5", "1e", "1e+", "1e-", "1e5.5", "1.2.3", "1..2",
        "--1", "+-1", "1 ", " 1", "1_000", "0x10", "1f", "in", "infinit", "infinityy", "na",
        "nane", "i n f", "1,5", "1e5e5", "\u{661}", "\u{ff11}", "1.5\n",
    ] {
        assert!(!orredis::numbers::is_float(text), "text {:?}", text);
    }
}

#[test]
fn numbers_with_a_fraction_agree_with_the_standard_library() {
    let alphabet = ['1', '0', '.', 'e', 'E', '+', '-', 'i', 'n', 'f', 'a', 'N', ' ', '_', 't', 'y'];
    let mut texts: Vec<String> = vec![String::new()];
    let mut start = 0;
    for _ in 0..4 {
        let end = texts.len();
        for i in start..end {
            for c in alphabet {
                let mut longer = texts[i].clone();
                longer.push(c);
                texts.push(longer);
            }
        }
        start = end;
    }
    for extra in ["infinity", "INFINITY", "-Infinity", "+infinity", "infinitY", "infinite", "1.5e-10", "-1.5E+10", "12.e12"] {
        texts.push(extra.to_string());
    }
    for text in &texts {
        assert_eq!(
            orredis::numbers::is_float(text),
            text.parse::<f64>().is_ok(),
            "text {:?}",
            text
        );
    }
}
