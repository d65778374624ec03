use openehr_base::foundation_types::{Any, Integer, Integer64, String, StringExtension};
use openehr_base::primitive_types::integer::Integer as PrimitiveInteger;
use openehr_base::primitive_types::string::String as PrimitiveString;

#[test]
fn integer_remainder_has_sign_of_dividend() {
    assert_eq!((Integer::new(-7) % Integer::new(3)).value, -1);
    assert_eq!((Integer64::new(7) % Integer64::new(-3)).value, 1);
}

#[test]
fn primitive_division_rounds_toward_zero() {
    assert_eq!((PrimitiveInteger::new(-7) / PrimitiveInteger::new(2)).value, -3);
    assert_eq!((PrimitiveInteger::new(7) / PrimitiveInteger::new(-2)).value, -3);
}

#[test]
fn string_integer_reading() {
    assert_eq!(String::from("-42").as_integer(), Some(-42));
    assert_eq!(String::from("+7").as_integer(), Some(7));
    assert_eq!(String::from("9223372036854775808").as_integer(), None);
    assert!(!String::from("").is_integer());
    assert!(String::from("x").instance_of("String"));
}

#[test]
fn primitive_string_editing() {
    let mut s = PrimitiveString::new("ab".to_string());
    s.push('c');
    s.push_str("dé");
    assert_eq!(s.as_str(), "abcdé");
    assert_eq!(s.len(), 6);
    assert_eq!(s.pop(), Some('é'));
    assert_eq!(s.as_bytes(), b"abcd");
    assert!(!s.is_empty());
    s.clear();
    assert!(s.is_empty());
    assert_eq!(s.pop(), None);
    let t = PrimitiveString::new("x".to_string()).concat("y");
    assert_eq!(t.into_bytes(), b"xy".to_vec());
}

#[test]
fn primitive_decimal_text() {
    assert_eq!(PrimitiveInteger::new(i32::MIN).to_string(), "-2147483648");
    assert_eq!(PrimitiveInteger::new(0).to_string(), "0");
}

#[test]
fn primitive_string_byte_indexed_editing() {
    let mut s = PrimitiveString::new("héllo".to_string());
    s.insert(0, '>');
    assert_eq!(s.as_str(), ">héllo");
    s.insert_str(4, "--");
    assert_eq!(s.as_str(), ">hé--llo");
    assert_eq!(s.remove(2), 'é');
    assert_eq!(s.as_str(), ">h--llo");
    let tail = s.split_off(3);
    assert_eq!(s.as_str(), ">h-");
    assert_eq!(tail.as_str(), "-llo");
    s.truncate(10);
    assert_eq!(s.as_str(), ">h-");
    s.truncate(1);
    assert_eq!(s.as_str(), ">");
}
