use measurement_generator::decimal::{push_digit, push_digits};
use measurement_generator::measurement::{append_line, append_reading, MAX_TEMP, MIN_TEMP};

fn reading(value: i32) -> String {
    let mut buf = String::new();
    append_reading(&mut buf, value);
    buf
}

#[test]
fn digits_are_written_without_leading_zeros() {
    let mut buf = String::from("n=");
    push_digits(&mut buf, 0);
    buf.push(' ');
    push_digits(&mut buf, 7);
    buf.push(' ');
    push_digits(&mut buf, 10);
    buf.push(' ');
    push_digits(&mut buf, 1_000_000_000);
    buf.push(' ');
    push_digits(&mut buf, u64::MAX);
    assert_eq!(buf, "n=0 7 10 1000000000 18446744073709551615");
}

#[test]
fn each_digit_has_its_character() {
    let mut buf = String::new();
    for d in 0..10u8 {
        push_digit(&mut buf, d);
    }
    assert_eq!(buf, "0123456789");
}

#[test]
fn bounds_are_in_tenths_of_a_degree() {
    assert_eq!(MIN_TEMP, -999);
    assert_eq!(MAX_TEMP, 999);
}

#[test]
fn reading_has_whole_part_point_and_one_digit() {
    assert_eq!(reading(0), "0.0");
    assert_eq!(reading(5), "0.5");
    assert_eq!(reading(10), "1.0");
    assert_eq!(reading(123), "12.3");
    assert_eq!(reading(998), "99.8");
    assert_eq!(reading(999), "99.9");
}

#[test]
fn negative_reading_carries_its_sign_on_the_whole_part() {
    assert_eq!(reading(-10), "-1.0");
    assert_eq!(reading(-15), "-1.5");
    assert_eq!(reading(-123), "-12.3");
    assert_eq!(reading(-999), "-99.9");
}

#[test]
fn reading_between_zero_and_minus_one_degree_has_no_sign() {
    assert_eq!(reading(-5), "0.5");
    assert_eq!(reading(-1), "0.1");
    assert_eq!(reading(-9), "0.9");
}

#[test]
fn reading_of_the_extreme_integers() {
    assert_eq!(reading(i32::MAX), "214748364.7");
    assert_eq!(reading(i32::MIN), "-214748364.8");
}

#[test]
fn reading_agrees_with_integer_formatting() {
    for value in -1200..1200 {
        let expected = format!("{}.{}", value / 10, (value as i32).abs() % 10);
        assert_eq!(reading(value), expected);
    }
}

#[test]
fn line_is_id_semicolon_reading_line_feed() {
    let mut buf = String::new();
    append_line(&mut buf, "Seattle", 123);
    assert_eq!(buf, "Seattle;12.3\n");
    append_line(&mut buf, "Zürich", -5);
    assert_eq!(buf, "Seattle;12.3\nZürich;0.5\n");
    append_line(&mut buf, "", -999);
    assert_eq!(buf, "Seattle;12.3\nZürich;0.5\n;-99.9\n");
}
