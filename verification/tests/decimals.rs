use osm_geojson::decimal::push_decimal;

fn written(n: i64) -> String {
    let mut text = String::new();
    push_decimal(&mut text, n);
    text
}

#[test]
fn decimal_of_small_numbers() {
    assert_eq!(written(0), "0");
    assert_eq!(written(7), "7");
    assert_eq!(written(10), "10");
    assert_eq!(written(99), "99");
    assert_eq!(written(100), "100");
    assert_eq!(written(1234567890), "1234567890");
}

#[test]
fn decimal_of_negative_numbers() {
    assert_eq!(written(-1), "-1");
    assert_eq!(written(-10), "-10");
    assert_eq!(written(-305), "-305");
}

#[test]
fn decimal_of_the_bounds() {
    assert_eq!(written(i64::MAX), "9223372036854775807");
    assert_eq!(written(i64::MIN), "-9223372036854775808");
    assert_eq!(written(i64::MIN + 1), "-9223372036854775807");
}

#[test]
fn decimal_is_appended() {
    let mut text = "node/".to_string();
    push_decimal(&mut text, 42);
    assert_eq!(text, "node/42");
    push_decimal(&mut text, -3);
    assert_eq!(text, "node/42-3");
}

#[test]
fn decimal_agrees_with_the_standard_formatting() {
    let mut n: i64 = 1;
    for step in 0..62 {
        for value in [n, -n, n - 1, -(n - 1), n + step] {
            assert_eq!(written(value), format!("{}", value));
        }
        n *= 2;
    }
}
