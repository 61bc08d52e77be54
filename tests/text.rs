use msh_daemon::text::{parse_decimal, parse_u16, trim_line_end_str, Decimal};

fn dec(negative: bool, mantissa: u64, scale: usize) -> Decimal {
    Decimal { negative, mantissa, scale }
}

#[test]
fn decimals_parse() {
    assert_eq!(parse_decimal("23.5"), Some(dec(false, 235, 1)));
    assert_eq!(parse_decimal("-0.25"), Some(dec(true, 25, 2)));
    assert_eq!(parse_decimal("+7"), Some(dec(false, 7, 0)));
    assert_eq!(parse_decimal("5."), Some(dec(false, 5, 0)));
    assert_eq!(parse_decimal(".5"), Some(dec(false, 5, 1)));
    assert_eq!(parse_decimal("0"), Some(dec(false, 0, 0)));
}

#[test]
fn malformed_decimals_are_refused() {
    for s in ["", "-", ".", "1.2.3", "abc", "2a", "1e3", " 1", "18446744073709551616"] {
        assert_eq!(parse_decimal(s), None, "{s}");
    }
    assert_eq!(parse_decimal("18446744073709551615"), Some(dec(false, u64::MAX, 0)));
}

#[test]
fn u16_parses_like_std() {
    assert_eq!(parse_u16("412"), Some(412));
    assert_eq!(parse_u16("+412"), Some(412));
    assert_eq!(parse_u16("65535"), Some(65535));
    assert_eq!(parse_u16("0065535"), Some(65535));
    for s in ["", "+", "-1", "65536", "4 12", "41.2", "abc"] {
        assert_eq!(parse_u16(s), None, "{s}");
        assert!(s.parse::<u16>().is_err());
    }
}

#[test]
fn line_endings_are_trimmed() {
    assert_eq!(trim_line_end_str("12\r\n\n"), "12");
    assert_eq!(trim_line_end_str("12 \n"), "12 ");
    assert_eq!(trim_line_end_str("\n"), "");
}

#[test]
fn decimals_render() {
    assert_eq!(dec(false, 235, 1).to_text(), "23.5");
    assert_eq!(dec(false, 5, 3).to_text(), "0.005");
    assert_eq!(dec(true, 25, 2).to_text(), "-0.25");
    assert_eq!(dec(true, 0, 1).to_text(), "0.0");
    assert_eq!(dec(false, 60, 0).to_text(), "60");
    assert_eq!(dec(false, 1200, 2).to_text(), "12.00");
}

#[test]
fn decimals_in_millis() {
    assert_eq!(dec(false, 235, 1).millis(), 23500);
    assert_eq!(dec(false, 12345, 4).millis(), 1234);
    assert_eq!(dec(true, 5, 0).millis(), 0);
    assert_eq!(dec(false, 5, 40).millis(), 0);
    assert_eq!(dec(false, u64::MAX, 0).millis(), u64::MAX);
}

#[test]
fn rendered_decimals_parse_back() {
    for s in ["23.5", "-1.5", "0.005", "60", "12.00", "18446744073709551615"] {
        let d = parse_decimal(s).unwrap();
        assert_eq!(d.to_text(), s);
        assert!(!d.to_text().is_empty());
    }
    assert!(dec(true, 15, 1).is_negative());
    assert!(!dec(true, 0, 1).is_negative());
}
