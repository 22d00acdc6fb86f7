use dpbook::{Contact, ContactFormatter, ContactId, Email, PhoneNumber, SortField};

fn sample() -> Contact {
    let mut c = Contact::with_id(
        ContactId::from_uuid(0x0123456789abcdef0123456789abcdef),
        "Ada".to_string(),
        "Lovelace".to_string(),
        vec![
            PhoneNumber::new("5551234567".to_string()).unwrap(),
            PhoneNumber::new("+15551234567".to_string()).unwrap(),
        ],
        vec![Email::new("ada@example.com".to_string()).unwrap()],
    );
    c.set_notes(Some("hi".to_string()));
    c.add_tag("a".to_string());
    c.add_tag("b".to_string());
    c
}

#[test]
fn format_full_contact() {
    assert_eq!(
        ContactFormatter::format_contact(&sample()),
        "ID: 01234567-89ab-cdef-0123-456789abcdef\nName: Ada Lovelace\nPhone Numbers:\n  - (555) 123-4567\n  - +15551234567\nEmails:\n  - ada@example.com\nNotes: hi\nTags: a, b\n"
    );
}

#[test]
fn format_bare_contact() {
    let c = Contact::with_id(ContactId::from_uuid(1), "A".to_string(), "B".to_string(), vec![], vec![]);
    assert_eq!(
        ContactFormatter::format_contact(&c),
        "ID: 00000000-0000-0000-0000-000000000001\nName: A B\n"
    );
    assert_eq!(
        ContactFormatter::format_contact_compact(&c),
        format!("{:<8} {:<25} {:<15} {}", "00000000", "A B", "No phone", "No email")
    );
}

#[test]
fn format_compact_contact() {
    assert_eq!(
        ContactFormatter::format_contact_compact(&sample()),
        format!("{:<8} {:<25} {:<15} {}", "01234567", "Ada Lovelace", "(555) 123-4567", "ada@example.com")
    );
}

#[test]
fn format_header_separator_summary_stats() {
    assert_eq!(
        ContactFormatter::format_list_header(),
        format!("{:<8} {:<25} {:<15} {}", "ID", "Name", "Phone", "Email")
    );
    assert_eq!(ContactFormatter::format_separator(), "-".repeat(80));
    assert_eq!(ContactFormatter::format_search_summary("ada", 12), "Found 12 contact(s) matching 'ada'\n");
    assert_eq!(ContactFormatter::format_stats(0), "Total contacts: 0");
    assert_eq!(ContactFormatter::format_stats(1234), "Total contacts: 1234");
}

#[test]
fn format_pagination() {
    assert_eq!(ContactFormatter::format_pagination_info(0, 10, 25, true), "Showing 1 - 10 of 25 contacts (Page 1)");
    assert_eq!(ContactFormatter::format_pagination_info(2, 10, 25, false), "Showing 21 - 25 of 25 contacts");
}

#[test]
fn sort_field_names() {
    assert_eq!(SortField::parse("First-Name"), Ok(SortField::FirstName));
    assert_eq!(SortField::parse("lastname"), Ok(SortField::LastName));
    assert_eq!(SortField::parse("FULL-NAME"), Ok(SortField::FullName));
    assert_eq!(SortField::parse("age"), Err("Invalid sort field: age".to_string()));
    assert_eq!("full-name".parse::<SortField>(), Ok(SortField::FullName));
    assert_eq!(SortField::FullName.to_string(), "full-name");
    assert_eq!(SortField::FirstName.sort_by(), dpbook::SortBy::FirstName);
}
