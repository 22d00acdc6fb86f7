use dpbook::{PhoneNumber, PhoneNumberError};

#[test]
fn test_valid_phone_number() {
    let phone = PhoneNumber::new("(555) 123-4567".to_string()).unwrap();
    assert_eq!(phone.value(), "5551234567");
}

#[test]
fn test_valid_international_phone_number() {
    let phone = PhoneNumber::new("+1-555-123-4567".to_string()).unwrap();
    assert_eq!(phone.value(), "+15551234567");
}

#[test]
fn test_invalid_phone_number_too_short() {
    let result = PhoneNumber::new("123".to_string());
    assert!(result.is_err());
}

#[test]
fn test_empty_phone_number() {
    let result = PhoneNumber::new("".to_string());
    assert!(matches!(result, Err(PhoneNumberError::Empty)));
}

#[test]
fn test_phone_number_formatting() {
    let phone = PhoneNumber::new("5551234567".to_string()).unwrap();
    assert_eq!(phone.formatted(), "(555) 123-4567");
}

#[test]
fn test_international_phone_number_formatting() {
    let phone = PhoneNumber::new("+15551234567".to_string()).unwrap();
    assert_eq!(phone.formatted(), "+15551234567");
}

#[test]
fn blank_phone_number_is_empty() {
    assert!(matches!(PhoneNumber::new("   \t".to_string()), Err(PhoneNumberError::Empty)));
}

#[test]
fn letters_only_phone_number_is_empty() {
    assert!(matches!(PhoneNumber::new("call me".to_string()), Err(PhoneNumberError::Empty)));
    assert!(matches!(PhoneNumber::new("abc".to_string()), Err(PhoneNumberError::Empty)));
}

#[test]
fn too_few_digits_is_invalid_format_with_input() {
    match PhoneNumber::new("call 555".to_string()) {
        Err(PhoneNumberError::InvalidFormat(s)) => assert_eq!(s, "call 555"),
        other => panic!("unexpected {:?}", other),
    }
}

#[test]
fn phone_number_length_bounds() {
    assert!(PhoneNumber::new("123456789".to_string()).is_err());
    assert!(PhoneNumber::new("1234567890".to_string()).is_ok());
    assert!(PhoneNumber::new("123456789012345".to_string()).is_ok());
    assert!(PhoneNumber::new("1234567890123456".to_string()).is_err());
    assert!(PhoneNumber::new("+12345678901".to_string()).is_ok());
    assert!(PhoneNumber::new("+1234567890".to_string()).is_err());
    assert!(PhoneNumber::new("+123456789012345678".to_string()).is_ok());
    assert!(PhoneNumber::new("+1234567890123456789".to_string()).is_err());
}

#[test]
fn plus_after_a_digit_is_dropped() {
    assert_eq!(PhoneNumber::new("555+1234567".to_string()).unwrap().value(), "5551234567");
    assert_eq!(PhoneNumber::new("+1+555+123+4567".to_string()).unwrap().value(), "+15551234567");
    assert_eq!(PhoneNumber::new("tel: +44 20 7946 0958".to_string()).unwrap().value(), "+442079460958");
    assert_eq!(PhoneNumber::clean_phone_number("1+2"), "12");
    assert_eq!(PhoneNumber::clean_phone_number("++1"), "+1");
    assert_eq!(PhoneNumber::clean_phone_number("x"), "");
}

#[test]
fn formatting_other_lengths_unchanged() {
    let phone = PhoneNumber::new("555-123-45678".to_string()).unwrap();
    assert_eq!(phone.formatted(), "55512345678");
}

#[test]
fn formatting_all_ten_digit_inputs_shape() {
    for s in ["0000000000", "9876543210", "(212) 555 0100"] {
        let p = PhoneNumber::new(s.to_string()).unwrap();
        let v = p.value().to_string();
        assert_eq!(p.formatted(), format!("({}) {}-{}", &v[0..3], &v[3..6], &v[6..10]));
    }
}

#[test]
fn clean_keeps_digits_and_plus() {
    assert_eq!(PhoneNumber::clean_phone_number("+1 (555) abc-12"), "+155512");
    assert!(PhoneNumber::is_valid_format("5551234567"));
    assert!(!PhoneNumber::is_valid_format("555-123-4567"));
}

#[test]
fn from_cleaned_checks_shape() {
    assert!(PhoneNumber::from_cleaned("5551234567".to_string()).is_ok());
    assert!(matches!(
        PhoneNumber::from_cleaned("555-123-4567".to_string()),
        Err(PhoneNumberError::InvalidFormat(_))
    ));
}

#[test]
fn phone_error_texts() {
    assert_eq!(PhoneNumberError::Empty.to_string(), "Phone number cannot be empty");
    assert_eq!(
        PhoneNumberError::InvalidFormat("x".to_string()).to_string(),
        "Invalid phone number format: x"
    );
}
