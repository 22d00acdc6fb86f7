use dpbook::{
    AddContactRequest, AddContactUseCase, ContactId, ContactRepositorySync, ContactService,
    ContactStore, DeleteContactRequest, Email, FindContactRequest, ListContactsRequest,
    PhoneNumber, RepositoryError, SearchContactsRequest, SortBy, UpdateContactRequest,
};

fn phone(s: &str) -> PhoneNumber {
    PhoneNumber::new(s.to_string()).unwrap()
}

fn email(s: &str) -> Email {
    Email::new(s.to_string()).unwrap()
}

fn add(service: &mut ContactService<ContactStore>, first: &str, last: &str, phones: &[&str]) -> ContactId {
    service
        .add_contact(AddContactRequest {
            first_name: first.to_string(),
            last_name: last.to_string(),
            phone_numbers: phones.iter().map(|p| phone(p)).collect(),
            emails: vec![],
        })
        .unwrap()
        .contact_id
}

fn update_request(id: ContactId) -> UpdateContactRequest {
    UpdateContactRequest {
        contact_id: id,
        first_name: None,
        last_name: None,
        notes: None,
        add_phone_numbers: vec![],
        remove_phone_numbers: vec![],
        add_emails: vec![],
        remove_emails: vec![],
        add_tags: vec![],
        remove_tags: vec![],
    }
}

#[test]
fn add_then_find_ada() {
    let mut service = ContactService::new(ContactStore::new());
    let response = service
        .add_contact(AddContactRequest {
            first_name: "Ada".to_string(),
            last_name: "Lovelace".to_string(),
            phone_numbers: vec![phone("5551234567")],
            emails: vec![],
        })
        .unwrap();
    assert_eq!(response.message, "Contact added successfully");
    let text = response.contact_id.to_string();
    assert_eq!(text.len(), 36);
    assert_eq!(ContactId::parse(&text), Some(response.contact_id));
    let found = service.find_contact(FindContactRequest { contact_id: response.contact_id }).unwrap();
    assert!(found.found);
    let c = found.contact.unwrap();
    assert_eq!(c.full_name(), "Ada Lovelace");
    assert_eq!(c.phone_numbers()[0].formatted(), "(555) 123-4567");
}

#[test]
fn add_refuses_bad_names_and_missing_methods() {
    let mut service = ContactService::new(ContactStore::new());
    let r = service.add_contact(AddContactRequest {
        first_name: "  ".to_string(),
        last_name: "X".to_string(),
        phone_numbers: vec![phone("5551234567")],
        emails: vec![],
    });
    match r {
        Err(RepositoryError::ValidationError(m)) => assert_eq!(m, "Validation error: First name cannot be empty"),
        other => panic!("unexpected {:?}", other.map(|r| r.message)),
    }
    let r = service.add_contact(AddContactRequest {
        first_name: "A".to_string(),
        last_name: "x".repeat(101),
        phone_numbers: vec![phone("5551234567")],
        emails: vec![],
    });
    match r {
        Err(RepositoryError::ValidationError(m)) => {
            assert_eq!(m, "Validation error: Last name cannot exceed 100 characters")
        }
        other => panic!("unexpected {:?}", other.map(|r| r.message)),
    }
    let r = service.add_contact(AddContactRequest {
        first_name: "A".to_string(),
        last_name: "B\u{7}".to_string(),
        phone_numbers: vec![phone("5551234567")],
        emails: vec![],
    });
    match r {
        Err(RepositoryError::ValidationError(m)) => {
            assert_eq!(m, "Validation error: Last name contains invalid characters")
        }
        other => panic!("unexpected {:?}", other.map(|r| r.message)),
    }
    let r = service.add_contact(AddContactRequest {
        first_name: "A".to_string(),
        last_name: "B".to_string(),
        phone_numbers: vec![],
        emails: vec![],
    });
    match r {
        Err(RepositoryError::ValidationError(m)) => assert_eq!(
            m,
            "Business rule violation: At least one phone number or email address is required"
        ),
        other => panic!("unexpected {:?}", other.map(|r| r.message)),
    }
    assert_eq!(service.repository().count().unwrap(), 0);
}

#[test]
fn add_with_taken_id_fails() {
    let mut store = ContactStore::new();
    let use_case = AddContactUseCase::new();
    let request = || AddContactRequest {
        first_name: "A".to_string(),
        last_name: "B".to_string(),
        phone_numbers: vec![],
        emails: vec![email("a@b.c")],
    };
    let id = ContactId::from_uuid(42);
    assert!(use_case.execute_with_id(&mut store, request(), id).is_ok());
    match use_case.execute_with_id(&mut store, request(), id) {
        Err(RepositoryError::ContactAlreadyExists(s)) => assert_eq!(s, "00000000-0000-0000-0000-00000000002a"),
        other => panic!("unexpected {:?}", other.map(|r| r.message)),
    }
    assert_eq!(store.count().unwrap(), 1);
}

#[test]
fn delete_unknown_id_fails_and_keeps_count() {
    let mut service = ContactService::new(ContactStore::new());
    add(&mut service, "A", "B", &["5551234567"]);
    let before = service.repository().count().unwrap();
    let r = service.delete_contact(DeleteContactRequest { contact_id: ContactId::from_uuid(1) });
    match r {
        Err(RepositoryError::ContactNotFound(s)) => assert_eq!(s, "00000000-0000-0000-0000-000000000001"),
        other => panic!("unexpected {:?}", other.map(|r| r.message)),
    }
    assert_eq!(service.repository().count().unwrap(), before);
}

#[test]
fn delete_known_id_removes() {
    let mut service = ContactService::new(ContactStore::new());
    let id = add(&mut service, "A", "B", &["5551234567"]);
    let r = service.delete_contact(DeleteContactRequest { contact_id: id }).unwrap();
    assert_eq!(r.message, "Contact deleted successfully");
    assert_eq!(service.repository().count().unwrap(), 0);
    assert!(!service.find_contact(FindContactRequest { contact_id: id }).unwrap().found);
}

#[test]
fn search_blank_query_is_refused() {
    let mut service = ContactService::new(ContactStore::new());
    add(&mut service, "A", "B", &["5551234567"]);
    for q in ["", "   "] {
        match service.search_contacts(SearchContactsRequest { query: q.to_string() }) {
            Err(RepositoryError::ValidationError(m)) => assert_eq!(m, "Search query cannot be empty"),
            other => panic!("unexpected {:?}", other.map(|r| r.count)),
        }
    }
}

#[test]
fn search_finds_matches_in_order() {
    let mut service = ContactService::new(ContactStore::new());
    add(&mut service, "Ada", "Lovelace", &["5551234567"]);
    add(&mut service, "Charles", "Babbage", &["5559999999"]);
    add(&mut service, "Adam", "Smith", &["5550000000"]);
    let r = service.search_contacts(SearchContactsRequest { query: "ADA".to_string() }).unwrap();
    assert_eq!(r.count, 2);
    assert_eq!(r.contacts[0].first_name(), "Ada");
    assert_eq!(r.contacts[1].first_name(), "Adam");
    assert_eq!(r.query, "ADA");
}

#[test]
fn update_applies_changes() {
    let mut service = ContactService::new(ContactStore::new());
    let id = add(&mut service, "Ada", "Lovelace", &["5551234567"]);
    let mut req = update_request(id);
    req.first_name = Some("Augusta".to_string());
    req.notes = Some("note".to_string());
    req.add_emails = vec![email("ada@example.com")];
    req.remove_phone_numbers = vec![phone("5551234567")];
    req.add_tags = vec!["x".to_string(), "x".to_string()];
    let r = service.update_contact(req).unwrap();
    assert_eq!(r.message, "Contact updated successfully");
    assert_eq!(r.contact.full_name(), "Augusta Lovelace");
    let c = service.find_contact(FindContactRequest { contact_id: id }).unwrap().contact.unwrap();
    assert!(c.phone_numbers().is_empty());
    assert_eq!(c.emails()[0].value(), "ada@example.com");
    assert_eq!(c.notes(), Some("note"));
    assert_eq!(c.tags(), &["x".to_string()]);
    let mut req = update_request(id);
    req.notes = Some("  ".to_string());
    let r = service.update_contact(req).unwrap();
    assert_eq!(r.contact.notes(), None);
}

#[test]
fn update_leaving_no_contact_method_is_refused() {
    let mut service = ContactService::new(ContactStore::new());
    let id = add(&mut service, "Ada", "Lovelace", &["5551234567"]);
    let mut req = update_request(id);
    req.first_name = Some("Changed".to_string());
    req.remove_phone_numbers = vec![phone("5551234567")];
    match service.update_contact(req) {
        Err(RepositoryError::ValidationError(m)) => {
            assert_eq!(m, "Contact must have at least one phone number or email")
        }
        other => panic!("unexpected {:?}", other.map(|r| r.message)),
    }
    let c = service.find_contact(FindContactRequest { contact_id: id }).unwrap().contact.unwrap();
    assert_eq!(c.first_name(), "Ada");
    assert_eq!(c.phone_numbers().len(), 1);
}

#[test]
fn update_blank_name_and_unknown_id() {
    let mut service = ContactService::new(ContactStore::new());
    let id = add(&mut service, "Ada", "Lovelace", &["5551234567"]);
    let mut req = update_request(id);
    req.last_name = Some(" ".to_string());
    match service.update_contact(req) {
        Err(RepositoryError::ValidationError(m)) => assert_eq!(m, "Last name cannot be empty"),
        other => panic!("unexpected {:?}", other.map(|r| r.message)),
    }
    match service.update_contact(update_request(ContactId::from_uuid(5))) {
        Err(RepositoryError::ContactNotFound(_)) => {}
        other => panic!("unexpected {:?}", other.map(|r| r.message)),
    }
}

#[test]
fn list_sorts_and_pages() {
    let mut service = ContactService::new(ContactStore::new());
    add(&mut service, "Carl", "Zeta", &["5551234567"]);
    add(&mut service, "Anna", "Young", &["5551234568"]);
    add(&mut service, "Bob", "Young", &["5551234569"]);
    let names = |r: &dpbook::ListContactsResponse| -> Vec<String> {
        r.contacts.iter().map(|c| c.first_name().to_string()).collect()
    };
    let r = service
        .list_contacts(ListContactsRequest { page: 0, page_size: 2, sort_by: SortBy::LastName, reverse: false })
        .unwrap();
    assert_eq!(names(&r), vec!["Anna", "Bob"]);
    assert_eq!(r.total_count, 3);
    assert!(r.has_more);
    let r = service
        .list_contacts(ListContactsRequest { page: 1, page_size: 2, sort_by: SortBy::LastName, reverse: false })
        .unwrap();
    assert_eq!(names(&r), vec!["Carl"]);
    assert!(!r.has_more);
    let r = service
        .list_contacts(ListContactsRequest { page: 0, page_size: 10, sort_by: SortBy::FirstName, reverse: true })
        .unwrap();
    assert_eq!(names(&r), vec!["Carl", "Bob", "Anna"]);
    let r = service
        .list_contacts(ListContactsRequest { page: 0, page_size: 10, sort_by: SortBy::FullName, reverse: false })
        .unwrap();
    assert_eq!(names(&r), vec!["Anna", "Bob", "Carl"]);
}

#[test]
fn list_page_past_end_is_empty() {
    let mut service = ContactService::new(ContactStore::new());
    add(&mut service, "A", "B", &["5551234567"]);
    add(&mut service, "C", "D", &["5551234568"]);
    let r = service
        .list_contacts(ListContactsRequest { page: 5, page_size: 10, sort_by: SortBy::LastName, reverse: false })
        .unwrap();
    assert!(r.contacts.is_empty());
    assert!(!r.has_more);
    assert_eq!(r.total_count, 2);
    let r = service
        .list_contacts(ListContactsRequest { page: usize::MAX, page_size: usize::MAX, sort_by: SortBy::LastName, reverse: false })
        .unwrap();
    assert!(r.contacts.is_empty());
    assert!(!r.has_more);
}

#[test]
fn list_default_request() {
    let r = ListContactsRequest::default();
    assert_eq!(r.page, 0);
    assert_eq!(r.page_size, 10);
    assert_eq!(r.sort_by, SortBy::LastName);
    assert!(!r.reverse);
}

#[test]
fn list_sort_is_stable_for_equal_keys() {
    let mut service = ContactService::new(ContactStore::new());
    add(&mut service, "First", "Same", &["5551234567"]);
    add(&mut service, "Second", "Same", &["5551234568"]);
    add(&mut service, "Third", "Same", &["5551234569"]);
    let r = service.list_contacts(ListContactsRequest::default()).unwrap();
    let names: Vec<&str> = r.contacts.iter().map(|c| c.first_name()).collect();
    assert_eq!(names, vec!["First", "Second", "Third"]);
    let r = service
        .list_contacts(ListContactsRequest { page: 0, page_size: 10, sort_by: SortBy::LastName, reverse: true })
        .unwrap();
    let names: Vec<&str> = r.contacts.iter().map(|c| c.first_name()).collect();
    assert_eq!(names, vec!["Third", "Second", "First"]);
}

#[test]
fn valid_add_on_empty_repository_succeeds() {
    let mut store = ContactStore::new();
    let r = AddContactUseCase::new()
        .execute(
            &mut store,
            AddContactRequest {
                first_name: "Ada".to_string(),
                last_name: "Lovelace".to_string(),
                phone_numbers: vec![phone("5551234567")],
                emails: vec![],
            },
        )
        .unwrap();
    assert!(store.exists_by_id(&r.contact_id).unwrap());
    assert_eq!(store.count().unwrap(), 1);
    assert_eq!(ContactId::parse(&r.contact_id.to_string()), Some(r.contact_id));
}

#[test]
fn deleted_id_is_gone() {
    let mut service = ContactService::new(ContactStore::new());
    let a = add(&mut service, "A", "B", &["5551234567"]);
    let b = add(&mut service, "C", "D", &["5551234568"]);
    service.delete_contact(DeleteContactRequest { contact_id: a }).unwrap();
    assert!(!service.repository().exists_by_id(&a).unwrap());
    assert!(service.repository().exists_by_id(&b).unwrap());
}
