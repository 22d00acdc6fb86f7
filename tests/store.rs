use dpbook::{
    decode_contacts, encode_contacts, Contact, ContactId, ContactRecord, ContactRepositorySync,
    ContactStore, Email, FileStorage, PhoneNumber, RepositoryError,
};

fn contact(id: u128, first: &str) -> Contact {
    Contact::with_id(
        ContactId::from_uuid(id),
        first.to_string(),
        "Last".to_string(),
        vec![PhoneNumber::new("5551234567".to_string()).unwrap()],
        vec![Email::new("x@y.z".to_string()).unwrap()],
    )
}

#[test]
fn store_crud() {
    let mut s = ContactStore::new();
    assert_eq!(s.count().unwrap(), 0);
    s.save(contact(1, "A")).unwrap();
    s.save(contact(2, "B")).unwrap();
    assert!(matches!(s.save(contact(1, "C")), Err(RepositoryError::ContactAlreadyExists(_))));
    assert_eq!(s.count().unwrap(), 2);
    assert!(s.exists_by_id(&ContactId::from_uuid(2)).unwrap());
    assert!(!s.exists_by_id(&ContactId::from_uuid(3)).unwrap());
    assert_eq!(s.find_by_id(&ContactId::from_uuid(2)).unwrap().unwrap().first_name(), "B");
    assert!(s.find_by_id(&ContactId::from_uuid(3)).unwrap().is_none());
    s.update(contact(2, "Bee")).unwrap();
    assert_eq!(s.find_by_id(&ContactId::from_uuid(2)).unwrap().unwrap().first_name(), "Bee");
    assert!(matches!(s.update(contact(9, "Z")), Err(RepositoryError::ContactNotFound(_))));
    s.delete(&ContactId::from_uuid(1)).unwrap();
    assert!(matches!(s.delete(&ContactId::from_uuid(1)), Err(RepositoryError::ContactNotFound(_))));
    let all = s.find_all().unwrap();
    assert_eq!(all.len(), 1);
    assert_eq!(all[0].first_name(), "Bee");
    assert_eq!(s.search("bee").unwrap().len(), 1);
    assert_eq!(s.search("zzz").unwrap().len(), 0);
}

#[test]
fn encode_decode_round_trip() {
    let mut a = contact(0x0123456789abcdef0123456789abcdef, "Ada");
    a.set_notes(Some("n".to_string()));
    a.add_tag("t1".to_string());
    a.add_tag("t2".to_string());
    a.set_metadata("k".to_string(), "v".to_string());
    let b = Contact::new(
        "Bob".to_string(),
        "B".to_string(),
        vec![PhoneNumber::new("+44 20 7946 0958".to_string()).unwrap()],
        vec![],
    );
    let contacts = vec![a.clone(), b.clone()];
    let entries = encode_contacts(&contacts);
    assert_eq!(entries[0].0, "01234567-89ab-cdef-0123-456789abcdef");
    assert_eq!(entries[0].1.id, entries[0].0);
    assert_eq!(entries[0].1.phone_numbers, vec!["5551234567".to_string()]);
    let store = decode_contacts(&entries).unwrap();
    let back = store.find_all().unwrap();
    assert_eq!(back.len(), 2);
    for (x, y) in back.iter().zip(contacts.iter()) {
        assert_eq!(x.id(), y.id());
        assert_eq!(x.first_name(), y.first_name());
        assert_eq!(x.last_name(), y.last_name());
        assert_eq!(x.phone_numbers(), y.phone_numbers());
        assert_eq!(x.emails(), y.emails());
        assert_eq!(x.notes(), y.notes());
        assert_eq!(x.tags(), y.tags());
        assert_eq!(x.metadata(), y.metadata());
    }
}

fn record(id: &str) -> ContactRecord {
    ContactRecord {
        id: id.to_string(),
        first_name: "A".to_string(),
        last_name: "B".to_string(),
        phone_numbers: vec!["5551234567".to_string()],
        emails: vec![],
        notes: None,
        tags: vec![],
        metadata: vec![],
    }
}

#[test]
fn decode_refuses_bad_entries() {
    let id = "00000000-0000-0000-0000-000000000001";
    let bad_key = vec![("not-a-uuid".to_string(), record(id))];
    assert!(matches!(decode_contacts(&bad_key), Err(RepositoryError::SerializationError(_))));
    let mismatch = vec![(id.to_string(), record("00000000-0000-0000-0000-000000000002"))];
    assert!(matches!(decode_contacts(&mismatch), Err(RepositoryError::SerializationError(_))));
    let mut r = record(id);
    r.phone_numbers = vec!["555-123".to_string()];
    assert!(matches!(decode_contacts(&[(id.to_string(), r)]), Err(RepositoryError::SerializationError(_))));
    let mut r = record(id);
    r.emails = vec!["nope".to_string()];
    assert!(matches!(decode_contacts(&[(id.to_string(), r)]), Err(RepositoryError::SerializationError(_))));
    let mut r = record(id);
    r.metadata = vec![("k".to_string(), "1".to_string()), ("k".to_string(), "2".to_string())];
    assert!(matches!(decode_contacts(&[(id.to_string(), r)]), Err(RepositoryError::SerializationError(_))));
    let dup = vec![(id.to_string(), record(id)), (id.to_string(), record(id))];
    assert!(matches!(decode_contacts(&dup), Err(RepositoryError::SerializationError(_))));
    let ok = vec![(id.to_string(), record(id))];
    assert_eq!(decode_contacts(&ok).unwrap().count().unwrap(), 1);
}

#[test]
fn decode_accepts_other_uuid_forms() {
    let upper = "00000000-0000-0000-0000-00000000000A";
    let entries = vec![(upper.to_string(), record(upper))];
    let store = decode_contacts(&entries).unwrap();
    assert!(store.exists_by_id(&ContactId::from_uuid(10)).unwrap());
}

#[test]
fn empty_documents() {
    assert!(FileStorage::is_empty_document(""));
    assert!(FileStorage::is_empty_document(" \n\t"));
    assert!(!FileStorage::is_empty_document("{}"));
    let fs = FileStorage::new("contacts.json".to_string());
    assert_eq!(fs.file_path(), "contacts.json");
}

#[test]
fn contact_id_text_forms() {
    let id = ContactId::from_uuid(0xa1a2a3a4b1b2c1c2d1d2d3d4d5d6d7d8);
    assert_eq!(id.to_string(), "a1a2a3a4-b1b2-c1c2-d1d2-d3d4d5d6d7d8");
    assert_eq!(id.as_uuid(), 0xa1a2a3a4b1b2c1c2d1d2d3d4d5d6d7d8);
    assert_eq!(ContactId::parse("a1a2a3a4-b1b2-c1c2-d1d2-d3d4d5d6d7d8"), Some(id));
    assert_eq!(ContactId::parse("xyz"), None);
    let fresh = ContactId::new();
    assert_eq!((fresh.as_uuid() >> 76) & 0xf, 4);
    assert_eq!((fresh.as_uuid() >> 62) & 0x3, 2);
    assert_ne!(ContactId::new(), fresh);
}
