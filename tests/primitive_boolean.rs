use openehr_base::primitive_types::any::Any;
use openehr_base::primitive_types::boolean::Boolean;

#[test]
fn boolean_equality_with_same_value_returns_true() {
    let a = Boolean::new(true);
    let b = Boolean::new(true);
    assert!(a.is_equal(&b));
}

#[test]
fn boolean_equality_with_different_values_returns_false() {
    let a = Boolean::new(true);
    let b = Boolean::new(false);
    assert!(!a.is_equal(&b));
}

#[test]
fn partial_eq_with_same_value_returns_true() {
    let a = Boolean::new(true);
    let b = Boolean::new(true);
    assert_eq!(a, b);
}

#[test]
fn partial_eq_with_different_values_returns_false() {
    let a = Boolean::new(true);
    let b = Boolean::new(false);
    assert_ne!(a, b);
}
