use genpdf::text::{decimal_text, digit_str, item_line};
use genpdf::Price;

#[test]
fn digits_are_written_one_by_one() {
    let all: Vec<&str> = (0..10).map(digit_str).collect();
    assert_eq!(all, vec!["0", "1", "2", "3", "4", "5", "6", "7", "8", "9"]);
}

#[test]
fn numbers_are_written_without_leading_zeros() {
    assert_eq!(decimal_text(0), "0");
    assert_eq!(decimal_text(7), "7");
    assert_eq!(decimal_text(10), "10");
    assert_eq!(decimal_text(1203), "1203");
    assert_eq!(decimal_text(u64::MAX), "18446744073709551615");
}

#[test]
fn prices_have_two_decimal_places() {
    assert_eq!(Price { mills: 0 }.to_text(), "0.00");
    assert_eq!(Price { mills: 9990 }.to_text(), "9.99");
    assert_eq!(Price { mills: 1000 }.to_text(), "1.00");
    assert_eq!(Price { mills: 50 }.to_text(), "0.05");
    assert_eq!(Price { mills: 123_456_780 }.to_text(), "123456.78");
    assert_eq!(Price { mills: 1_000_000_000_000 }.to_text(), "1000000000.00");
}

#[test]
fn a_half_rounds_away_from_zero() {
    assert_eq!(Price { mills: 19995 }.to_text(), "20.00");
    assert_eq!(Price { mills: 19994 }.to_text(), "19.99");
    assert_eq!(Price { mills: 5 }.to_text(), "0.01");
    assert_eq!(Price { mills: 4 }.to_text(), "0.00");
    assert_eq!(Price { mills: -5 }.to_text(), "-0.01");
    assert_eq!(Price { mills: -4 }.to_text(), "0.00");
    assert_eq!(Price { mills: -19995 }.to_text(), "-20.00");
    assert_eq!(Price { mills: 19995 }.rounded(), 2000);
    assert_eq!(Price { mills: -19995 }.rounded(), -2000);
    assert_eq!(Price { mills: -19994 }.rounded(), -1999);
}

#[test]
fn the_largest_and_smallest_prices_are_written() {
    assert_eq!(Price { mills: i64::MAX }.to_text(), "9223372036854775.81");
    assert_eq!(Price { mills: i64::MIN }.to_text(), "-9223372036854775.81");
    assert_eq!(Price { mills: i64::MAX }.rounded(), 922337203685477581);
    assert_eq!(Price { mills: i64::MIN }.rounded(), -922337203685477581);
}

#[test]
fn prices_are_made_from_mills_and_from_hundredths() {
    assert_eq!(Price::from_mills(1234), Price { mills: 1234 });
    assert_eq!(Price::from_hundredths(999), Price { mills: 9990 });
    assert_eq!(Price::from_hundredths(-1).to_text(), "-0.01");
    assert_eq!(Price::from_hundredths(i32::MIN).rounded(), i32::MIN as i64);
}

#[test]
fn an_item_line_has_label_gap_and_price() {
    let line = item_line("Widget", Price { mills: 9990 });
    assert_eq!(line, format!("Widget{}$9.99", " ".repeat(34)));
    assert_eq!(line.len(), 6 + 34 + 5);
    assert_eq!(item_line("", Price { mills: 0 }), format!("{}$0.00", " ".repeat(34)));
}

#[test]
fn price_text_agrees_with_two_place_formatting() {
    for cents in [0i64, 1, 9, 10, 99, 100, 101, 123, 999, 1000, 61500, 123456] {
        let expected = format!("{:.2}", cents as f64 / 100.0);
        assert_eq!(Price { mills: cents * 10 }.to_text(), expected);
    }
}

#[test]
fn amounts_in_floating_point_round_to_the_expected_text() {
    let mills = |amount: f64| (amount * 1000.0).round() as i64;
    assert_eq!(mills(9.99), 9990);
    assert_eq!(mills(19.995), 19995);
    assert_eq!(Price::from_mills(mills(9.99)).to_text(), "9.99");
    assert_eq!(Price::from_mills(mills(19.995)).to_text(), "20.00");
    assert_eq!(Price::from_mills(mills(1.23 * 500.0)).to_text(), "615.00");
}

#[test]
fn different_amounts_have_different_texts() {
    let mut seen = std::collections::BTreeMap::new();
    for mills in -3005i64..3005 {
        let price = Price::from_mills(mills);
        let text = price.to_text();
        let known = seen.entry(text).or_insert(price.rounded());
        assert_eq!(*known, price.rounded());
    }
    assert_eq!(seen.len(), 602);
}
