use egui_export_svg::decimal::{decimal, digit, opacity, write_decimal};

#[test]
fn decimal_of_small_numbers() {
    assert_eq!(decimal(0), "0");
    assert_eq!(decimal(7), "7");
    assert_eq!(decimal(10), "10");
    assert_eq!(decimal(-1), "-1");
    assert_eq!(decimal(1234567890), "1234567890");
    assert_eq!(decimal(-9000), "-9000");
}

#[test]
fn decimal_of_the_largest_and_smallest() {
    assert_eq!(decimal(i128::MAX), i128::MAX.to_string());
    assert_eq!(decimal(i128::MIN), i128::MIN.to_string());
    assert_eq!(decimal(i64::MIN as i128), i64::MIN.to_string());
}

#[test]
fn decimal_agrees_with_the_standard_library() {
    let mut v: i128 = 1;
    for _ in 0..38 {
        assert_eq!(decimal(v), v.to_string());
        assert_eq!(decimal(-v), (-v).to_string());
        assert_eq!(decimal(v - 1), (v - 1).to_string());
        v *= 10;
    }
}

#[test]
fn write_decimal_appends() {
    let mut s = String::from("x=");
    write_decimal(&mut s, -42);
    write_decimal(&mut s, 7);
    assert_eq!(s, "x=-427");
}

#[test]
fn digits_are_the_ten_characters() {
    let all: String = (0..10).map(digit).collect();
    assert_eq!(all, "0123456789");
}

#[test]
fn opacity_has_three_places() {
    assert_eq!(opacity(0), "0.000");
    assert_eq!(opacity(255), "1.000");
    assert_eq!(opacity(128), "0.502");
    assert_eq!(opacity(1), "0.004");
    assert_eq!(opacity(64), "0.251");
    assert_eq!(opacity(254), "0.996");
}

#[test]
fn different_numbers_are_written_differently() {
    let samples: [i128; 9] = [-110, -11, -10, -1, 0, 1, 10, 11, 110];
    for a in samples {
        for b in samples {
            assert_eq!(decimal(a) == decimal(b), a == b);
        }
    }
}
