//! The persisted form of the contact set: one entry per contact, keyed by
//! the identifier's text, each holding the contact's fields as plain text.
//! Reading and writing the file, and the JSON syntax, are the caller's part.

use vstd::prelude::*;
use crate::contact::{
    clone_pairs, clone_strings,
    contact_wf, email_views, keys_unique, option_view, pair_views, phone_views, string_views,
    Contact, ContactView,
};
use crate::contact_id::{uuid_parse_result, uuid_text, ContactId};
use crate::email::{email_grammar, Email};
use crate::errors::RepositoryError;
use crate::phone_number::{phone_shape, PhoneNumber};
use crate::repository::{contact_views, ids_unique, ContactRepositorySync};
use crate::store::ContactStore;
use crate::text::{concat, is_blank, is_blank_str};

verus! {

/// Where the contact set is kept.
#[derive(Debug)]
pub struct FileStorage {
    file_path: String,
}

impl View for FileStorage {
    type V = Seq<char>;

    closed spec fn view(&self) -> Seq<char> {
        self.file_path@
    }
}

impl FileStorage {
    pub fn new(file_path: String) -> (r: FileStorage)
        ensures
            r@ == file_path@,
    {
        FileStorage { file_path }
    }

    pub fn file_path(&self) -> (r: &str)
        ensures
            r@ == self@,
    {
        self.file_path.as_str()
    }

    /// Whether a stored document holds no contacts at all: a blank file
    /// stands for an empty contact set.
    pub fn is_empty_document(content: &str) -> (r: bool)
        ensures
            r == is_blank(content@),
    {
        is_blank_str(content)
    }
}

/// A contact as stored: its fields as plain text.
#[derive(Debug, Clone, PartialEq, Eq)]
pub struct ContactRecord {
    pub id: String,
    pub first_name: String,
    pub last_name: String,
    pub phone_numbers: Vec<String>,
    pub emails: Vec<String>,
    pub notes: Option<String>,
    pub tags: Vec<String>,
    pub metadata: Vec<(String, String)>,
}

pub struct RecordView {
    pub id: Seq<char>,
    pub first_name: Seq<char>,
    pub last_name: Seq<char>,
    pub phone_numbers: Seq<Seq<char>>,
    pub emails: Seq<Seq<char>>,
    pub notes: Option<Seq<char>>,
    pub tags: Seq<Seq<char>>,
    pub metadata: Seq<(Seq<char>, Seq<char>)>,
}

impl View for ContactRecord {
    type V = RecordView;

    open spec fn view(&self) -> RecordView {
        RecordView {
            id: self.id@,
            first_name: self.first_name@,
            last_name: self.last_name@,
            phone_numbers: string_views(self.phone_numbers@),
            emails: string_views(self.emails@),
            notes: option_view(self.notes),
            tags: string_views(self.tags@),
            metadata: pair_views(self.metadata@),
        }
    }
}

/// The stored form of a contact.
pub open spec fn record_of(c: ContactView) -> RecordView {
    RecordView {
        id: uuid_text(c.id),
        first_name: c.first_name,
        last_name: c.last_name,
        phone_numbers: c.phone_numbers,
        emails: c.emails,
        notes: c.notes,
        tags: c.tags,
        metadata: c.metadata,
    }
}

pub open spec fn entry_views(v: Seq<(String, ContactRecord)>) -> Seq<(Seq<char>, RecordView)> {
    v.map_values(|e: (String, ContactRecord)| (e.0@, e.1@))
}

/// The stored form of a contact set: each contact under its identifier's text.
pub open spec fn encode_spec(cs: Seq<ContactView>) -> Seq<(Seq<char>, RecordView)> {
    cs.map_values(|c: ContactView| (uuid_text(c.id), record_of(c)))
}

/// Contacts that can be stored and read back: each well-formed, identifiers distinct.
pub open spec fn contacts_wf(cs: Seq<ContactView>) -> bool {
    &&& ids_unique(cs)
    &&& forall|i: int| 0 <= i < cs.len() ==> contact_wf(#[trigger] cs[i])
}

/// A stored entry reads back: the key and the record's own identifier are
/// the same identifier, phone numbers are in cleaned form, e-mail addresses
/// in the grammar, and metadata keys distinct.
pub open spec fn entry_ok(e: (Seq<char>, RecordView)) -> bool {
    &&& uuid_parse_result(e.0) is Some
    &&& uuid_parse_result(e.1.id) == uuid_parse_result(e.0)
    &&& forall|i: int| 0 <= i < e.1.phone_numbers.len() ==> phone_shape(#[trigger] e.1.phone_numbers[i])
    &&& forall|i: int| 0 <= i < e.1.emails.len() ==> email_grammar(#[trigger] e.1.emails[i])
    &&& keys_unique(e.1.metadata)
}

/// The contact an entry stands for.
pub open spec fn decoded_view(e: (Seq<char>, RecordView)) -> ContactView {
    ContactView {
        id: match uuid_parse_result(e.0) {
            Some(v) => v,
            None => 0,
        },
        first_name: e.1.first_name,
        last_name: e.1.last_name,
        phone_numbers: e.1.phone_numbers,
        emails: e.1.emails,
        notes: e.1.notes,
        tags: e.1.tags,
        metadata: e.1.metadata,
    }
}

pub open spec fn decoded_views(es: Seq<(Seq<char>, RecordView)>) -> Seq<ContactView> {
    es.map_values(|e: (Seq<char>, RecordView)| decoded_view(e))
}

/// A stored contact set reads back when every entry does and no identifier
/// occurs twice.
pub open spec fn decodes(es: Seq<(Seq<char>, RecordView)>) -> bool {
    &&& forall|i: int| 0 <= i < es.len() ==> entry_ok(#[trigger] es[i])
    &&& ids_unique(decoded_views(es))
}

/// The hyphenated text of an identifier reads back as that identifier.
pub open spec fn reads_back(s: Seq<char>) -> bool {
    forall|v: u128| #[trigger] uuid_text(v) == s ==> uuid_parse_result(s) == Some(v)
}

/// An entry written for a well-formed contact reads back as that contact.
proof fn lemma_encoded_entry(c: ContactView)
    requires
        contact_wf(c),
        reads_back(uuid_text(c.id)),
    ensures
        entry_ok((uuid_text(c.id), record_of(c))),
        decoded_view((uuid_text(c.id), record_of(c))) == c,
{
    let s = uuid_text(c.id);
    assert(uuid_parse_result(s) == Some(c.id));
}

/// The stored form of `contacts`, in their order.
pub fn encode_contacts(contacts: &[Contact]) -> (r: Vec<(String, ContactRecord)>)
    ensures
        entry_views(r@) == encode_spec(contact_views(contacts@)),
{
    let mut out: Vec<(String, ContactRecord)> = Vec::new();
    let mut i: usize = 0;
    while i < contacts.len()
        invariant
            i <= contacts@.len(),
            out@.len() == i,
            forall|j: int| 0 <= j < i ==> (#[trigger] out@[j]).0@ == uuid_text(contacts@[j]@.id) && out@[j].1@ == record_of(contacts@[j]@),
        decreases contacts@.len() - i,
    {
        let c = &contacts[i];
        let rec = record_for(c);
        out.push((c.id().to_string(), rec));
        i = i + 1;
    }
    assert(entry_views(out@) =~= encode_spec(contact_views(contacts@)));
    out
}

fn strings_of_phones(v: &[PhoneNumber]) -> (r: Vec<String>)
    ensures
        string_views(r@) == phone_views(v@),
{
    let mut out: Vec<String> = Vec::new();
    let mut i: usize = 0;
    while i < v.len()
        invariant
            i <= v@.len(),
            out@.len() == i,
            forall|j: int| 0 <= j < i ==> #[trigger] out@[j]@ == v@[j]@,
        decreases v@.len() - i,
    {
        out.push(v[i].value().to_owned());
        i = i + 1;
    }
    assert(string_views(out@) =~= phone_views(v@));
    out
}

fn strings_of_emails(v: &[Email]) -> (r: Vec<String>)
    ensures
        string_views(r@) == email_views(v@),
{
    let mut out: Vec<String> = Vec::new();
    let mut i: usize = 0;
    while i < v.len()
        invariant
            i <= v@.len(),
            out@.len() == i,
            forall|j: int| 0 <= j < i ==> #[trigger] out@[j]@ == v@[j]@,
        decreases v@.len() - i,
    {
        out.push(v[i].value().to_owned());
        i = i + 1;
    }
    assert(string_views(out@) =~= email_views(v@));
    out
}

fn record_for(c: &Contact) -> (r: ContactRecord)
    ensures
        r@ == record_of(c@),
{
    let notes = match c.notes() {
        Some(n) => Some(n.to_owned()),
        None => None,
    };
    ContactRecord {
        id: c.id().to_string(),
        first_name: c.first_name().to_owned(),
        last_name: c.last_name().to_owned(),
        phone_numbers: strings_of_phones(c.phone_numbers()),
        emails: strings_of_emails(c.emails()),
        notes,
        tags: clone_strings(c.tags()),
        metadata: clone_pairs(c.metadata()),
    }
}

/// Metadata keys are pairwise distinct.
fn metadata_keys_distinct(m: &Vec<(String, String)>) -> (r: bool)
    ensures
        r == keys_unique(pair_views(m@)),
{
    let ghost pv = pair_views(m@);
    let mut i: usize = 0;
    while i < m.len()
        invariant
            pv == pair_views(m@),
            i <= m@.len(),
            forall|a: int, b: int| 0 <= a < b < m@.len() && a < i ==> #[trigger] pv[a].0 != #[trigger] pv[b].0,
        decreases m@.len() - i,
    {
        let mut j: usize = i + 1;
        while j < m.len()
            invariant
                pv == pair_views(m@),
                i < m@.len(),
                i + 1 <= j <= m@.len(),
                forall|a: int, b: int| 0 <= a < b < m@.len() && a < i ==> #[trigger] pv[a].0 != #[trigger] pv[b].0,
                forall|b: int| i < b < j ==> pv[i as int].0 != #[trigger] pv[b].0,
            decreases m@.len() - j,
        {
            if m[i].0 == m[j].0 {
                assert(pv[i as int].0 == pv[j as int].0);
                return false;
            }
            j = j + 1;
        }
        i = i + 1;
    }
    true
}

/// The contact a stored entry stands for, or a `SerializationError` if it
/// does not read back.
fn decode_entry(key: &String, rec: &ContactRecord) -> (r: Result<Contact, RepositoryError>)
    ensures
        reads_back(key@),
        match r {
            Ok(c) => entry_ok((key@, rec@)) && c@ == decoded_view((key@, rec@)),
            Err(e) => !entry_ok((key@, rec@)) && e is SerializationError,
        },
{
    let key_id = ContactId::parse(key.as_str());
    let own_id = ContactId::parse(rec.id.as_str());
    let id = match key_id {
        Some(id) => id,
        None => {
            return Err(RepositoryError::SerializationError(concat("Invalid UUID: ", key.as_str())));
        },
    };
    match own_id {
        Some(own) => {
            if own.as_uuid() != id.as_uuid() {
                return Err(RepositoryError::SerializationError(concat("Mismatched contact ID: ", rec.id.as_str())));
            }
        },
        None => {
            return Err(RepositoryError::SerializationError(concat("Invalid UUID: ", rec.id.as_str())));
        },
    }
    let ghost rv = rec@;
    let mut phones: Vec<PhoneNumber> = Vec::new();
    let mut i: usize = 0;
    while i < rec.phone_numbers.len()
        invariant
            rv == rec@,
            reads_back(key@),
            i <= rec.phone_numbers@.len(),
            phones@.len() == i,
            forall|j: int| 0 <= j < i ==> #[trigger] phones@[j]@ == rv.phone_numbers[j] && phone_shape(rv.phone_numbers[j]),
        decreases rec.phone_numbers@.len() - i,
    {
        match PhoneNumber::from_cleaned(rec.phone_numbers[i].clone()) {
            Ok(p) => phones.push(p),
            Err(_) => {
                assert(rv.phone_numbers[i as int] == rec.phone_numbers@[i as int]@);
                return Err(RepositoryError::SerializationError(concat("Invalid phone number: ", rec.phone_numbers[i].as_str())));
            },
        }
        i = i + 1;
    }
    let mut emails: Vec<Email> = Vec::new();
    let mut i: usize = 0;
    while i < rec.emails.len()
        invariant
            rv == rec@,
            reads_back(key@),
            i <= rec.emails@.len(),
            emails@.len() == i,
            forall|j: int| 0 <= j < i ==> #[trigger] emails@[j]@ == rv.emails[j] && email_grammar(rv.emails[j]),
        decreases rec.emails@.len() - i,
    {
        match Email::from_normalized(rec.emails[i].clone(), rec.emails[i].clone()) {
            Ok(e) => emails.push(e),
            Err(_) => {
                assert(rv.emails[i as int] == rec.emails@[i as int]@);
                return Err(RepositoryError::SerializationError(concat("Invalid email: ", rec.emails[i].as_str())));
            },
        }
        i = i + 1;
    }
    if !metadata_keys_distinct(&rec.metadata) {
        return Err(RepositoryError::SerializationError("Duplicate metadata key".to_owned()));
    }
    let notes = match &rec.notes {
        Some(n) => Some(n.clone()),
        None => None,
    };
    let c = Contact::from_parts(
        id,
        rec.first_name.clone(),
        rec.last_name.clone(),
        phones,
        emails,
        notes,
        clone_strings(rec.tags.as_slice()),
        clone_pairs(rec.metadata.as_slice()),
    );
    assert(phone_views(phones@) =~= rv.phone_numbers);
    assert(email_views(emails@) =~= rv.emails);
    assert(c@ == decoded_view((key@, rv)));
    Ok(c)
}

/// Reads a stored contact set back into a store. It fails with a
/// `SerializationError` when an entry does not read back or an identifier
/// occurs twice. A set written by `encode_contacts` reads back as it was.
pub fn decode_contacts(entries: &[(String, ContactRecord)]) -> (r: Result<ContactStore, RepositoryError>)
    ensures
        match r {
            Ok(store) => decodes(entry_views(entries@)) && store.contacts() == decoded_views(entry_views(entries@)),
            Err(e) => !decodes(entry_views(entries@)) && e is SerializationError,
        },
        forall|cs: Seq<ContactView>|
            #[trigger] encode_spec(cs) == entry_views(entries@) && contacts_wf(cs) ==> (r matches Ok(store)
                && store.contacts() == cs),
{
    let ghost es = entry_views(entries@);
    let mut store = ContactStore::new();
    let mut i: usize = 0;
    while i < entries.len()
        invariant
            es == entry_views(entries@),
            i <= es.len(),
            store.contacts() == decoded_views(es.subrange(0, i as int)),
            forall|j: int| 0 <= j < i ==> entry_ok(#[trigger] es[j]),
            forall|j: int| 0 <= j < i ==> reads_back(#[trigger] es[j].0),
            ids_unique(decoded_views(es.subrange(0, i as int))),
        decreases es.len() - i,
    {
        let (key, rec) = &entries[i];
        assert(es[i as int] == (key@, rec@));
        match decode_entry(key, rec) {
            Ok(c) => {
                let ghost before = store.contacts();
                let ghost cv = c@;
                match store.save(c) {
                    Ok(()) => {
                        proof {
                            let p = es.subrange(0, i + 1);
                            assert(p.drop_last() =~= es.subrange(0, i as int));
                            assert(decoded_views(p) =~= before.push(cv));
                        }
                    },
                    Err(_) => {
                        proof {
                            let k = choose|k: int| 0 <= k < before.len() && #[trigger] before[k].id == cv.id;
                            assert(decoded_views(es)[k] == before[k]);
                            assert(decoded_views(es)[i as int] == cv);
                            lemma_not_unique_no_round_trip(es, k, i as int);
                        }
                        return Err(RepositoryError::SerializationError(concat("Duplicate contact ID: ", key.as_str())));
                    },
                }
            },
            Err(e) => {
                proof {
                    lemma_bad_entry_no_round_trip(es, i as int);
                }
                return Err(e);
            },
        }
        i = i + 1;
    }
    proof {
        assert(es.subrange(0, es.len() as int) == es);
        lemma_round_trip_all(es);
    }
    Ok(store)
}

/// If entry `i` does not read back, no well-formed contact set was written as `es`.
proof fn lemma_bad_entry_no_round_trip(es: Seq<(Seq<char>, RecordView)>, i: int)
    requires
        0 <= i < es.len(),
        !entry_ok(es[i]),
        reads_back(es[i].0),
    ensures
        !decodes(es),
        forall|cs: Seq<ContactView>| #[trigger] encode_spec(cs) == es ==> !contacts_wf(cs),
{
    assert forall|cs: Seq<ContactView>| #[trigger] encode_spec(cs) == es implies !contacts_wf(cs) by {
        if contacts_wf(cs) {
            assert(es[i] == (uuid_text(cs[i].id), record_of(cs[i])));
            assert(contact_wf(cs[i]));
            lemma_encoded_entry(cs[i]);
        }
    }
}

/// If entries `k < i` stand for contacts with one identifier, no
/// well-formed contact set was written as `es`.
proof fn lemma_not_unique_no_round_trip(es: Seq<(Seq<char>, RecordView)>, k: int, i: int)
    requires
        0 <= k < i < es.len(),
        decoded_views(es)[k].id == decoded_views(es)[i].id,
        reads_back(es[k].0),
        reads_back(es[i].0),
    ensures
        !decodes(es),
        forall|cs: Seq<ContactView>| #[trigger] encode_spec(cs) == es ==> !contacts_wf(cs),
{
    assert forall|cs: Seq<ContactView>| #[trigger] encode_spec(cs) == es implies !contacts_wf(cs) by {
        if contacts_wf(cs) {
            assert(es[i] == (uuid_text(cs[i].id), record_of(cs[i])));
            assert(es[k] == (uuid_text(cs[k].id), record_of(cs[k])));
            assert(contact_wf(cs[i]));
            assert(contact_wf(cs[k]));
            lemma_encoded_entry(cs[i]);
            lemma_encoded_entry(cs[k]);
            assert(cs[k].id != cs[i].id);
        }
    }
}

/// When every entry reads back, a well-formed set written as `es` is exactly
/// what `es` decodes to.
proof fn lemma_round_trip_all(es: Seq<(Seq<char>, RecordView)>)
    requires
        forall|j: int| 0 <= j < es.len() ==> reads_back(#[trigger] es[j].0),
    ensures
        forall|cs: Seq<ContactView>| #[trigger] encode_spec(cs) == es && contacts_wf(cs) ==> decoded_views(es) == cs,
{
    assert forall|cs: Seq<ContactView>| #[trigger] encode_spec(cs) == es && contacts_wf(cs) implies decoded_views(es) == cs by {
        assert forall|j: int| 0 <= j < cs.len() implies #[trigger] decoded_views(es)[j] == cs[j] by {
            assert(es[j] == (uuid_text(cs[j].id), record_of(cs[j])));
            assert(contact_wf(cs[j]));
            assert(reads_back(es[j].0));
            lemma_encoded_entry(cs[j]);
        }
        assert(decoded_views(es) =~= cs);
    }
}

} // verus!
