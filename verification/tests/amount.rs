use payments_core::amount::{format_cents, normalize_amount};

#[test]
fn parses_whole_and_fractional_amounts() {
    assert_eq!(normalize_amount("10.00").unwrap(), 1000);
    assert_eq!(normalize_amount("5.5").unwrap(), 550);
    assert_eq!(normalize_amount("0").unwrap(), 0);
    assert_eq!(normalize_amount("7").unwrap(), 700);
    assert_eq!(normalize_amount("1.").unwrap(), 100);
    assert_eq!(normalize_amount(".5").unwrap(), 50);
    assert_eq!(normalize_amount("+2").unwrap(), 200);
    assert_eq!(normalize_amount("-1.25").unwrap(), -125);
    assert_eq!(normalize_amount("007.10").unwrap(), 710);
}

#[test]
fn rounds_half_away_from_zero_at_the_cent() {
    assert_eq!(normalize_amount("12.345").unwrap(), 1235);
    assert_eq!(normalize_amount("0.005").unwrap(), 1);
    assert_eq!(normalize_amount("-0.005").unwrap(), -1);
    assert_eq!(normalize_amount("2.004").unwrap(), 200);
    assert_eq!(normalize_amount("2.0049").unwrap(), 200);
    assert_eq!(normalize_amount("2.005").unwrap(), 201);
    assert_eq!(normalize_amount("2.0051").unwrap(), 201);
    assert_eq!(normalize_amount("-2.005").unwrap(), -201);
}

#[test]
fn rejects_non_numeric_strings() {
    for bad in ["abc", "", ".", "+", "-", "+.", "12.3.4", "1e5", " 10", "10 ", "1,5"] {
        let err = normalize_amount(bad).unwrap_err();
        assert_eq!(err.message, "Invalid checkout amount format");
    }
}

#[test]
fn saturates_at_the_i64_bounds() {
    assert_eq!(
        normalize_amount("99999999999999999999999999").unwrap(),
        i64::MAX
    );
    assert_eq!(
        normalize_amount("-99999999999999999999999999").unwrap(),
        i64::MIN
    );
}

#[test]
fn formats_cents_to_two_decimals() {
    assert_eq!(format_cents(1000), "10.00");
    assert_eq!(format_cents(0), "0.00");
    assert_eq!(format_cents(-5), "-0.05");
    assert_eq!(format_cents(1235), "12.35");
    assert_eq!(format_cents(550), "5.50");
    assert_eq!(format_cents(i64::MIN), "-92233720368547758.08");
    assert_eq!(format_cents(i64::MAX), "92233720368547758.07");
}

#[test]
fn normalize_then_format_round_trips() {
    for s in ["12.345", "10.00", "5.5", "-1.005", "0", ".5"] {
        let cents = normalize_amount(s).unwrap();
        let rendered = format_cents(cents);
        assert_eq!(normalize_amount(&rendered).unwrap(), cents);
    }
    for cents in [0i64, 1, -1, 99, -100, 123456789, i64::MIN, i64::MAX] {
        assert_eq!(normalize_amount(&format_cents(cents)).unwrap(), cents);
    }
}
