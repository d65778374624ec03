use openehr_base::primitive_types::any::Any;
use openehr_base::primitive_types::integer64::Integer64;

#[test]
fn integer64_tests_equality_with_same_value_returns_true() {
    let int64_a = Integer64::new(100);
    let int64_b = Integer64::new(100);
    assert_eq!(int64_a, int64_b);
}

#[test]
fn integer64_tests_equality_with_different_values_returns_false() {
    let int64_a = Integer64::new(-100);
    let int64_b = Integer64::new(100);
    assert_ne!(int64_a, int64_b);
}

#[test]
fn integer64_tests_is_equal_with_same_value_returns_true() {
    let int64_a = Integer64::new(1234567890);
    let int64_b = Integer64::new(1234567890);
    assert!(int64_a.is_equal(&int64_b));
}

#[test]
fn integer64_tests_is_equal_with_different_values_returns_false() {
    let int64_a = Integer64::new(1234567890);
    let int64_b = Integer64::new(987654321);
    assert!(!int64_a.is_equal(&int64_b));
}

#[test]
fn addition_of_two_integer64s() {
    let integer64_a = Integer64::new(1234567890);
    let integer64_b = Integer64::new(10);
    let result = integer64_a + integer64_b;
    assert_eq!(result.value, 1234567900);
}

#[test]
fn subtraction_of_two_integer64s() {
    let integer64_a = Integer64::new(1234567890);
    let integer64_b = Integer64::new(10);
    let result = integer64_a - integer64_b;
    assert_eq!(result.value, 1234567880);
}

#[test]
fn multiplication_of_two_integer64s() {
    let integer64_a = Integer64::new(1234567890);
    let integer64_b = Integer64::new(10);
    let result = integer64_a * integer64_b;
    assert_eq!(result.value, 12345678900);
}

#[test]
fn division_of_two_integer64s() {
    let integer64_a = Integer64::new(1234567890);
    let integer64_b = Integer64::new(10);
    let result = integer64_a / integer64_b;
    assert_eq!(result.value, 123456789);
}

#[test]
fn negation_of_a_integer64() {
    let integer64 = Integer64::new(1234567890);
    let result = -integer64;
    assert_eq!(result.value, -1234567890);
}

#[test]
fn integer64_tests_partial_ordering_less_than() {
    let integer64_a = Integer64::new(10);
    let integer64_b = Integer64::new(20);
    assert!(integer64_a < integer64_b);
}

#[test]
fn integer64_tests_partial_ordering_greater_than() {
    let integer64_a = Integer64::new(30);
    let integer64_b = Integer64::new(20);
    assert!(integer64_a > integer64_b);
}

#[test]
fn integer64_tests_partial_ordering_less_than_or_equal_with_equal_values() {
    let integer64_a = Integer64::new(20);
    let integer64_b = Integer64::new(20);
    assert!(integer64_a <= integer64_b);
}

#[test]
fn integer64_tests_partial_ordering_less_than_or_equal_with_less_value() {
    let integer64_a = Integer64::new(11);
    let integer64_b = Integer64::new(22);
    assert!(integer64_a <= integer64_b);
}

#[test]
fn integer64_tests_partial_ordering_greater_than_or_equal_with_equal_values() {
    let integer64_a = Integer64::new(33);
    let integer64_b = Integer64::new(33);
    assert!(integer64_a >= integer64_b);
}

#[test]
fn integer64_tests_partial_ordering_greater_than_or_equal_with_greater_value() {
    let integer64_a = Integer64::new(44);
    let integer64_b = Integer64::new(33);
    assert!(integer64_a >= integer64_b);
}

#[test]
fn integer64_tests_debug_format_matches_expected_output() {
    let int64 = Integer64::new(-1234567890);
    assert_eq!(int64.to_string(), "-1234567890");
}
