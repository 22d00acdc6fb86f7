use dpbook::{Email, EmailError};

#[test]
fn email_is_trimmed_and_lower_cased() {
    let e = Email::new("  Foo@Bar.COM ".to_string()).unwrap();
    assert_eq!(e.value(), "foo@bar.com");
}

#[test]
fn emails_differing_in_case_are_equal() {
    let a = Email::new("Foo@Bar.COM".to_string()).unwrap();
    let b = Email::new("foo@bar.com".to_string()).unwrap();
    let c = Email::new("FOO@BAR.com".to_string()).unwrap();
    assert_eq!(a.value(), "foo@bar.com");
    assert_eq!(a, b);
    assert_eq!(b, c);
}

#[test]
fn blank_email_is_empty() {
    assert!(matches!(Email::new("".to_string()), Err(EmailError::Empty)));
    assert!(matches!(Email::new("   ".to_string()), Err(EmailError::Empty)));
}

#[test]
fn invalid_email_keeps_input() {
    match Email::new(" Not An Email ".to_string()) {
        Err(EmailError::InvalidFormat(s)) => assert_eq!(s, " Not An Email "),
        other => panic!("unexpected {:?}", other),
    }
}

#[test]
fn email_grammar_cases() {
    for ok in ["a@b", "a.b+c@x-y.example.org", "x!#$%&'*+/=?^_`{|}~-@d1.co", "u@a.b.c"] {
        assert!(Email::new(ok.to_string()).is_ok(), "{}", ok);
    }
    for bad in ["@b.com", "a@", "a@-b.com", "a@b-.com", "a@b..com", "a@.b", "a@b.", "a b@c.com", "a@b@c", "a@b_c.com"] {
        assert!(Email::new(bad.to_string()).is_err(), "{}", bad);
    }
}

#[test]
fn domain_label_length_limit() {
    let label63 = "a".repeat(63);
    let label64 = "a".repeat(64);
    assert!(Email::new(format!("x@{}.com", label63)).is_ok());
    assert!(Email::new(format!("x@{}.com", label64)).is_err());
    assert!(Email::new(format!("x@{}", label64)).is_err());
}

#[test]
fn email_parts() {
    let e = Email::new("John.Doe@Example.com".to_string()).unwrap();
    assert_eq!(e.local_part(), "john.doe");
    assert_eq!(e.domain(), "example.com");
}

#[test]
fn email_error_texts() {
    assert_eq!(EmailError::Empty.to_string(), "Email cannot be empty");
    assert_eq!(EmailError::InvalidFormat("q".to_string()).to_string(), "Invalid email format: q");
}

#[test]
fn from_normalized_checks_grammar() {
    assert!(Email::from_normalized("a@b.c".to_string(), "A@B.C".to_string()).is_ok());
    assert!(matches!(
        Email::from_normalized("".to_string(), " ".to_string()),
        Err(EmailError::Empty)
    ));
    match Email::from_normalized("nope".to_string(), "NOPE".to_string()) {
        Err(EmailError::InvalidFormat(s)) => assert_eq!(s, "NOPE"),
        other => panic!("unexpected {:?}", other),
    }
}

#[test]
fn unicode_lowercase_is_applied() {
    // The Kelvin sign lower-cases to an ASCII `k`.
    let e = Email::new("\u{212A}@b.com".to_string()).unwrap();
    assert_eq!(e.value(), "k@b.com");
}

#[test]
fn blank_after_trim_is_empty_not_invalid() {
    assert!(matches!(Email::new("\u{3000}\t".to_string()), Err(EmailError::Empty)));
}
