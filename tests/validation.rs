use dpbook::{DomainError, Email, PhoneNumber, RepositoryError, Validator};

fn message(r: Result<(), DomainError>) -> String {
    match r {
        Err(DomainError::Validation(m)) => m,
        other => panic!("unexpected {:?}", other),
    }
}

#[test]
fn non_empty_and_lengths() {
    assert!(Validator::validate_non_empty_string("x", "F").is_ok());
    assert_eq!(message(Validator::validate_non_empty_string(" \t", "F")), "F cannot be empty");
    assert_eq!(message(Validator::validate_min_length(" ab ", 3, "F")), "F must be at least 3 characters long");
    assert!(Validator::validate_min_length(" abc ", 3, "F").is_ok());
    assert_eq!(message(Validator::validate_max_length("abcd", 3, "F")), "F cannot exceed 3 characters");
    assert!(Validator::validate_max_length("abc", 3, "F").is_ok());
}

#[test]
fn name_components() {
    assert!(Validator::validate_name_component("Ada", "First name").is_ok());
    assert!(Validator::validate_name_component("A\tB", "First name").is_ok());
    assert!(Validator::validate_name_component(&"x".repeat(100), "First name").is_ok());
    assert_eq!(
        message(Validator::validate_name_component(&"x".repeat(101), "First name")),
        "First name cannot exceed 100 characters"
    );
    assert_eq!(
        message(Validator::validate_name_component("A\nB", "First name")),
        "First name contains invalid characters"
    );
    assert_eq!(message(Validator::validate_name_component("", "Last name")), "Last name cannot be empty");
}

#[test]
fn search_query_and_pagination() {
    assert!(Validator::validate_search_query("ada").is_ok());
    assert_eq!(message(Validator::validate_search_query("  ")), "Search query cannot be empty");
    assert_eq!(
        message(Validator::validate_search_query(&"q".repeat(201))),
        "Search query cannot exceed 200 characters"
    );
    assert!(Validator::validate_pagination(0, 1).is_ok());
    assert!(Validator::validate_pagination(3, 100).is_ok());
    assert_eq!(message(Validator::validate_pagination(0, 0)), "Page size must be greater than 0");
    assert_eq!(message(Validator::validate_pagination(0, 101)), "Page size cannot exceed 100");
}

#[test]
fn phone_and_email_lists() {
    let phones = Validator::validate_phone_numbers(&["(555) 123-4567".to_string(), "+15551234567".to_string()]).unwrap();
    assert_eq!(phones.len(), 2);
    assert_eq!(phones[0].value(), "5551234567");
    match Validator::validate_phone_numbers(&["5551234567".to_string(), "12".to_string(), "".to_string()]) {
        Err(DomainError::Validation(m)) => {
            assert_eq!(m, "Invalid phone number '12': Invalid phone number format: 12")
        }
        other => panic!("unexpected {:?}", other.map(|v| v.len())),
    }
    match Validator::validate_phone_numbers(&["".to_string()]) {
        Err(DomainError::Validation(m)) => assert_eq!(m, "Invalid phone number '': Phone number cannot be empty"),
        other => panic!("unexpected {:?}", other.map(|v| v.len())),
    }
    let emails = Validator::validate_emails(&["A@B.C".to_string()]).unwrap();
    assert_eq!(emails[0].value(), "a@b.c");
    match Validator::validate_emails(&["bad".to_string()]) {
        Err(DomainError::Validation(m)) => assert_eq!(m, "Invalid email 'bad': Invalid email format: bad"),
        other => panic!("unexpected {:?}", other.map(|v| v.len())),
    }
    match Validator::validate_emails(&[" ".to_string()]) {
        Err(DomainError::Validation(m)) => assert_eq!(m, "Invalid email ' ': Email cannot be empty"),
        other => panic!("unexpected {:?}", other.map(|v| v.len())),
    }
}

#[test]
fn contact_methods() {
    let p = vec![PhoneNumber::new("5551234567".to_string()).unwrap()];
    let e = vec![Email::new("a@b.c".to_string()).unwrap()];
    assert!(Validator::validate_contact_methods(&p, &[]).is_ok());
    assert!(Validator::validate_contact_methods(&[], &e).is_ok());
    match Validator::validate_contact_methods(&[], &[]) {
        Err(DomainError::BusinessRule(m)) => {
            assert_eq!(m, "At least one phone number or email address is required")
        }
        other => panic!("unexpected {:?}", other),
    }
}

#[test]
fn error_texts() {
    assert_eq!(DomainError::Validation("x".to_string()).to_string(), "Validation error: x");
    assert_eq!(DomainError::BusinessRule("x".to_string()).to_string(), "Business rule violation: x");
    assert_eq!(DomainError::EntityNotFound("x".to_string()).to_string(), "Entity not found: x");
    assert_eq!(DomainError::DuplicateEntity("x".to_string()).to_string(), "Duplicate entity: x");
    assert_eq!(RepositoryError::ContactNotFound("i".to_string()).to_string(), "Contact not found with ID: i");
    assert_eq!(RepositoryError::IoError("e".to_string()).to_string(), "IO error: e");
    assert_eq!(RepositoryError::SerializationError("e".to_string()).to_string(), "Serialization error: e");
}
