use dpbook::{Contact, ContactId, Email, PhoneNumber};

fn phone(s: &str) -> PhoneNumber {
    PhoneNumber::new(s.to_string()).unwrap()
}

fn email(s: &str) -> Email {
    Email::new(s.to_string()).unwrap()
}

fn ada() -> Contact {
    Contact::with_id(
        ContactId::from_uuid(7),
        "Ada".to_string(),
        "Lovelace".to_string(),
        vec![phone("5551234567")],
        vec![email("ada@example.com")],
    )
}

#[test]
fn new_contact_starts_without_notes_tags_metadata() {
    let c = Contact::new("A".to_string(), "B".to_string(), vec![phone("5551234567")], vec![]);
    assert_eq!(c.first_name(), "A");
    assert_eq!(c.last_name(), "B");
    assert_eq!(c.phone_numbers().len(), 1);
    assert!(c.emails().is_empty());
    assert_eq!(c.notes(), None);
    assert!(c.tags().is_empty());
    assert!(c.metadata().is_empty());
    let other = Contact::new("A".to_string(), "B".to_string(), vec![], vec![]);
    assert_ne!(c.id(), other.id());
}

#[test]
fn full_name_joins_with_space() {
    assert_eq!(ada().full_name(), "Ada Lovelace");
}

#[test]
fn add_tag_twice_keeps_length() {
    let mut c = ada();
    c.add_tag("friend".to_string());
    assert_eq!(c.tags().len(), 1);
    c.add_tag("friend".to_string());
    assert_eq!(c.tags(), &["friend".to_string()]);
}

#[test]
fn add_phone_and_email_twice_keeps_length() {
    let mut c = ada();
    c.add_phone_number(phone("(555) 123-4567"));
    assert_eq!(c.phone_numbers().len(), 1);
    c.add_phone_number(phone("+441234567890"));
    c.add_phone_number(phone("+441234567890"));
    assert_eq!(c.phone_numbers().len(), 2);
    c.add_email(email("ADA@example.com"));
    assert_eq!(c.emails().len(), 1);
}

#[test]
fn removals_are_idempotent() {
    let mut c = ada();
    c.remove_phone_number(&phone("5551234567"));
    assert!(c.phone_numbers().is_empty());
    c.remove_phone_number(&phone("5551234567"));
    assert!(c.phone_numbers().is_empty());
    c.remove_email(&email("ada@example.com"));
    assert!(c.emails().is_empty());
    c.add_tag("a".to_string());
    c.add_tag("b".to_string());
    c.remove_tag("a");
    c.remove_tag("zzz");
    assert_eq!(c.tags(), &["b".to_string()]);
}

#[test]
fn metadata_set_replace_remove() {
    let mut c = ada();
    c.set_metadata("k".to_string(), "1".to_string());
    c.set_metadata("j".to_string(), "2".to_string());
    c.set_metadata("k".to_string(), "3".to_string());
    assert_eq!(
        c.metadata(),
        &[("k".to_string(), "3".to_string()), ("j".to_string(), "2".to_string())]
    );
    c.remove_metadata("k");
    assert_eq!(c.metadata(), &[("j".to_string(), "2".to_string())]);
}

#[test]
fn setters_replace_fields() {
    let mut c = ada();
    c.set_first_name("Augusta".to_string());
    c.set_last_name("King".to_string());
    c.set_notes(Some("math".to_string()));
    assert_eq!(c.full_name(), "Augusta King");
    assert_eq!(c.notes(), Some("math"));
    c.set_notes(None);
    assert_eq!(c.notes(), None);
}

#[test]
fn search_matches_fields_ignoring_case() {
    let mut c = ada();
    c.set_notes(Some("Analytical Engine".to_string()));
    c.add_tag("Pioneer".to_string());
    assert!(c.matches_search("ada"));
    assert!(c.matches_search("LOVE"));
    assert!(c.matches_search("123456"));
    assert!(c.matches_search("EXAMPLE.COM"));
    assert!(c.matches_search("engine"));
    assert!(c.matches_search("pion"));
    assert!(!c.matches_search("babbage"));
}

#[test]
fn clone_keeps_every_field() {
    let mut c = ada();
    c.add_tag("t".to_string());
    c.set_metadata("a".to_string(), "b".to_string());
    let d = c.clone();
    assert_eq!(d.id(), c.id());
    assert_eq!(d.full_name(), c.full_name());
    assert_eq!(d.tags(), c.tags());
    assert_eq!(d.metadata(), c.metadata());
    assert_eq!(d.phone_numbers(), c.phone_numbers());
    assert_eq!(d.emails(), c.emails());
}
