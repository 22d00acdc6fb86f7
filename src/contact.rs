//! The contact entity: identity, names, contact methods, notes, tags and
//! metadata, with set-like mutators and case-insensitive search matching.

use vstd::prelude::*;
use crate::contact_id::{is_random_v4, ContactId};
use crate::email::{email_grammar, Email};
use crate::phone_number::{phone_shape, PhoneNumber};
use crate::text::{contains_str, lower_of, push_all, push_char, seq_contains, to_lower};

verus! {

/// What a contact holds, as mathematical values.
pub struct ContactView {
    pub id: u128,
    pub first_name: Seq<char>,
    pub last_name: Seq<char>,
    pub phone_numbers: Seq<Seq<char>>,
    pub emails: Seq<Seq<char>>,
    pub notes: Option<Seq<char>>,
    pub tags: Seq<Seq<char>>,
    pub metadata: Seq<(Seq<char>, Seq<char>)>,
}

pub open spec fn phone_views(s: Seq<PhoneNumber>) -> Seq<Seq<char>> {
    s.map_values(|p: PhoneNumber| p@)
}

pub open spec fn email_views(s: Seq<Email>) -> Seq<Seq<char>> {
    s.map_values(|e: Email| e@)
}

pub open spec fn string_views(s: Seq<String>) -> Seq<Seq<char>> {
    s.map_values(|t: String| t@)
}

pub open spec fn pair_views(s: Seq<(String, String)>) -> Seq<(Seq<char>, Seq<char>)> {
    s.map_values(|kv: (String, String)| (kv.0@, kv.1@))
}

pub open spec fn option_view(o: Option<String>) -> Option<Seq<char>> {
    match o {
        Some(s) => Some(s@),
        None => None,
    }
}

/// The texts of `s` other than `v`, in order.
pub open spec fn without(s: Seq<Seq<char>>, v: Seq<char>) -> Seq<Seq<char>> {
    s.filter(differs_from(v))
}

pub open spec fn differs_from(v: Seq<char>) -> spec_fn(Seq<char>) -> bool {
    |x: Seq<char>| x != v
}

/// `s` with `v` added at the end, unless `s` holds it already.
pub open spec fn with_added(s: Seq<Seq<char>>, v: Seq<char>) -> Seq<Seq<char>> {
    if s.contains(v) {
        s
    } else {
        s.push(v)
    }
}

/// Adding twice is adding once: after `add_tag`, `add_phone_number` or
/// `add_email` with a value, a second call with the same value leaves the
/// list unchanged, length included.
pub proof fn lemma_add_idempotent(s: Seq<Seq<char>>, v: Seq<char>)
    ensures
        with_added(with_added(s, v), v) == with_added(s, v),
        with_added(s, v).contains(v),
        with_added(s, v).len() == if s.contains(v) { s.len() } else { s.len() + 1 },
{
    if !s.contains(v) {
        assert(s.push(v)[s.len() as int] == v);
    }
}

/// The first entry of `m` at or after `i` whose key is `k`, or the length.
pub open spec fn key_position(m: Seq<(Seq<char>, Seq<char>)>, k: Seq<char>, i: int) -> int
    decreases m.len() - i,
{
    if i < 0 || i >= m.len() {
        m.len() as int
    } else if m[i].0 == k {
        i
    } else {
        key_position(m, k, i + 1)
    }
}

/// `m` with the value of `k` set to `v`: the entry of `k` is replaced in
/// place, or a new entry is added at the end.
pub open spec fn metadata_set(m: Seq<(Seq<char>, Seq<char>)>, k: Seq<char>, v: Seq<char>) -> Seq<
    (Seq<char>, Seq<char>),
> {
    let i = key_position(m, k, 0);
    if i < m.len() {
        m.update(i, (k, v))
    } else {
        m.push((k, v))
    }
}

pub open spec fn key_differs(k: Seq<char>) -> spec_fn((Seq<char>, Seq<char>)) -> bool {
    |kv: (Seq<char>, Seq<char>)| kv.0 != k
}

/// `m` without the entry of `k`.
pub open spec fn metadata_removed(m: Seq<(Seq<char>, Seq<char>)>, k: Seq<char>) -> Seq<
    (Seq<char>, Seq<char>),
> {
    m.filter(key_differs(k))
}

/// The keys of `m` are pairwise distinct.
pub open spec fn keys_unique(m: Seq<(Seq<char>, Seq<char>)>) -> bool {
    forall|i: int, j: int| 0 <= i < j < m.len() ==> #[trigger] m[i].0 != #[trigger] m[j].0
}

/// The full name: first name, a space, last name.
pub open spec fn full_name_spec(c: ContactView) -> Seq<char> {
    c.first_name + seq![' '] + c.last_name
}

/// Whether the contact matches a query, ignoring case: the lower-cased query
/// occurs in the lower-cased first or last name, notes or a tag, or in a phone
/// number or e-mail address as stored.
pub open spec fn search_matches(c: ContactView, query: Seq<char>) -> bool {
    let q = lower_of(query);
    ||| seq_contains(lower_of(c.first_name), q)
    ||| seq_contains(lower_of(c.last_name), q)
    ||| exists|i: int| 0 <= i < c.phone_numbers.len() && seq_contains(#[trigger] c.phone_numbers[i], q)
    ||| exists|i: int| 0 <= i < c.emails.len() && seq_contains(#[trigger] c.emails[i], q)
    ||| (c.notes matches Some(n) && seq_contains(lower_of(n), q))
    ||| exists|i: int| 0 <= i < c.tags.len() && seq_contains(lower_of(#[trigger] c.tags[i]), q)
}

/// A well-formed contact: every phone number and e-mail address is in its
/// grammar and the metadata keys are distinct.
pub open spec fn contact_wf(c: ContactView) -> bool {
    &&& forall|i: int| 0 <= i < c.phone_numbers.len() ==> phone_shape(#[trigger] c.phone_numbers[i])
    &&& forall|i: int| 0 <= i < c.emails.len() ==> email_grammar(#[trigger] c.emails[i])
    &&& keys_unique(c.metadata)
}

/// A person in the address book.
#[derive(Debug)]
pub struct Contact {
    id: ContactId,
    first_name: String,
    last_name: String,
    phone_numbers: Vec<PhoneNumber>,
    emails: Vec<Email>,
    notes: Option<String>,
    tags: Vec<String>,
    metadata: Vec<(String, String)>,
}

impl View for Contact {
    type V = ContactView;

    closed spec fn view(&self) -> ContactView {
        ContactView {
            id: self.id@,
            first_name: self.first_name@,
            last_name: self.last_name@,
            phone_numbers: phone_views(self.phone_numbers@),
            emails: email_views(self.emails@),
            notes: option_view(self.notes),
            tags: string_views(self.tags@),
            metadata: pair_views(self.metadata@),
        }
    }
}

fn clone_phones(v: &Vec<PhoneNumber>) -> (r: Vec<PhoneNumber>)
    ensures
        phone_views(r@) == phone_views(v@),
{
    let mut out: Vec<PhoneNumber> = Vec::new();
    let mut i: usize = 0;
    while i < v.len()
        invariant
            i <= v@.len(),
            out@.len() == i,
            forall|j: int| 0 <= j < i ==> #[trigger] out@[j]@ == v@[j]@,
        decreases v@.len() - i,
    {
        out.push(v[i].clone());
        i = i + 1;
    }
    assert(phone_views(out@) =~= phone_views(v@));
    out
}

fn clone_emails(v: &Vec<Email>) -> (r: Vec<Email>)
    ensures
        email_views(r@) == email_views(v@),
{
    let mut out: Vec<Email> = Vec::new();
    let mut i: usize = 0;
    while i < v.len()
        invariant
            i <= v@.len(),
            out@.len() == i,
            forall|j: int| 0 <= j < i ==> #[trigger] out@[j]@ == v@[j]@,
        decreases v@.len() - i,
    {
        out.push(v[i].clone());
        i = i + 1;
    }
    assert(email_views(out@) =~= email_views(v@));
    out
}

pub(crate) fn clone_strings(v: &[String]) -> (r: Vec<String>)
    ensures
        string_views(r@) == string_views(v@),
{
    let mut out: Vec<String> = Vec::new();
    let mut i: usize = 0;
    while i < v.len()
        invariant
            i <= v@.len(),
            out@.len() == i,
            forall|j: int| 0 <= j < i ==> #[trigger] out@[j]@ == v@[j]@,
        decreases v@.len() - i,
    {
        out.push(v[i].clone());
        i = i + 1;
    }
    assert(string_views(out@) =~= string_views(v@));
    out
}

pub(crate) fn clone_pairs(v: &[(String, String)]) -> (r: Vec<(String, String)>)
    ensures
        pair_views(r@) == pair_views(v@),
{
    let mut out: Vec<(String, String)> = Vec::new();
    let mut i: usize = 0;
    while i < v.len()
        invariant
            i <= v@.len(),
            out@.len() == i,
            forall|j: int| 0 <= j < i ==> #[trigger] out@[j].0@ == v@[j].0@ && out@[j].1@ == v@[j].1@,
        decreases v@.len() - i,
    {
        let (k, x) = &v[i];
        out.push((k.clone(), x.clone()));
        i = i + 1;
    }
    assert(pair_views(out@) =~= pair_views(v@));
    out
}

fn phones_without(v: &Vec<PhoneNumber>, x: &PhoneNumber) -> (r: Vec<PhoneNumber>)
    ensures
        phone_views(r@) == without(phone_views(v@), x@),
{
    let ghost all = phone_views(v@);
    let mut out: Vec<PhoneNumber> = Vec::new();
    let mut i: usize = 0;
    while i < v.len()
        invariant
            i <= v@.len(),
            all == phone_views(v@),
            phone_views(out@) == without(all.subrange(0, i as int), x@),
        decreases v@.len() - i,
    {
        let ghost prev = out@;
        proof {
            assert(all.subrange(0, i + 1) =~= all.subrange(0, i as int).push(v@[i as int]@));
            all.subrange(0, i as int).lemma_filter_push(v@[i as int]@, differs_from(x@));
        }
        if !(v[i] == *x) {
            out.push(v[i].clone());
            assert(phone_views(out@) =~= phone_views(prev).push(v@[i as int]@));
        }
        i = i + 1;
    }
    assert(all.subrange(0, v@.len() as int) == all);
    out
}

fn phones_contain(v: &Vec<PhoneNumber>, x: &PhoneNumber) -> (r: bool)
    ensures
        r == phone_views(v@).contains(x@),
{
    let mut i: usize = 0;
    while i < v.len()
        invariant
            i <= v@.len(),
            forall|j: int| 0 <= j < i ==> #[trigger] v@[j]@ != x@,
        decreases v@.len() - i,
    {
        if v[i] == *x {
            assert(phone_views(v@)[i as int] == x@);
            return true;
        }
        i = i + 1;
    }
    proof {
        if phone_views(v@).contains(x@) {
            let j = choose|j: int| 0 <= j < phone_views(v@).len() && phone_views(v@)[j] == x@;
            assert(v@[j]@ == x@);
        }
    }
    false
}

fn emails_without(v: &Vec<Email>, x: &Email) -> (r: Vec<Email>)
    ensures
        email_views(r@) == without(email_views(v@), x@),
{
    let ghost all = email_views(v@);
    let mut out: Vec<Email> = Vec::new();
    let mut i: usize = 0;
    while i < v.len()
        invariant
            i <= v@.len(),
            all == email_views(v@),
            email_views(out@) == without(all.subrange(0, i as int), x@),
        decreases v@.len() - i,
    {
        let ghost prev = out@;
        proof {
            assert(all.subrange(0, i + 1) =~= all.subrange(0, i as int).push(v@[i as int]@));
            all.subrange(0, i as int).lemma_filter_push(v@[i as int]@, differs_from(x@));
        }
        if !(v[i] == *x) {
            out.push(v[i].clone());
            assert(email_views(out@) =~= email_views(prev).push(v@[i as int]@));
        }
        i = i + 1;
    }
    assert(all.subrange(0, v@.len() as int) == all);
    out
}

fn emails_contain(v: &Vec<Email>, x: &Email) -> (r: bool)
    ensures
        r == email_views(v@).contains(x@),
{
    let mut i: usize = 0;
    while i < v.len()
        invariant
            i <= v@.len(),
            forall|j: int| 0 <= j < i ==> #[trigger] v@[j]@ != x@,
        decreases v@.len() - i,
    {
        if v[i] == *x {
            assert(email_views(v@)[i as int] == x@);
            return true;
        }
        i = i + 1;
    }
    proof {
        if email_views(v@).contains(x@) {
            let j = choose|j: int| 0 <= j < email_views(v@).len() && email_views(v@)[j] == x@;
            assert(v@[j]@ == x@);
        }
    }
    false
}

fn strings_without(v: &Vec<String>, x: &String) -> (r: Vec<String>)
    ensures
        string_views(r@) == without(string_views(v@), x@),
{
    let ghost all = string_views(v@);
    let mut out: Vec<String> = Vec::new();
    let mut i: usize = 0;
    while i < v.len()
        invariant
            i <= v@.len(),
            all == string_views(v@),
            string_views(out@) == without(all.subrange(0, i as int), x@),
        decreases v@.len() - i,
    {
        let ghost prev = out@;
        proof {
            assert(all.subrange(0, i + 1) =~= all.subrange(0, i as int).push(v@[i as int]@));
            all.subrange(0, i as int).lemma_filter_push(v@[i as int]@, differs_from(x@));
        }
        if !(v[i] == *x) {
            out.push(v[i].clone());
            assert(string_views(out@) =~= string_views(prev).push(v@[i as int]@));
        }
        i = i + 1;
    }
    assert(all.subrange(0, v@.len() as int) == all);
    out
}

fn strings_contain(v: &Vec<String>, x: &String) -> (r: bool)
    ensures
        r == string_views(v@).contains(x@),
{
    let mut i: usize = 0;
    while i < v.len()
        invariant
            i <= v@.len(),
            forall|j: int| 0 <= j < i ==> #[trigger] v@[j]@ != x@,
        decreases v@.len() - i,
    {
        if v[i] == *x {
            assert(string_views(v@)[i as int] == x@);
            return true;
        }
        i = i + 1;
    }
    proof {
        if string_views(v@).contains(x@) {
            let j = choose|j: int| 0 <= j < string_views(v@).len() && string_views(v@)[j] == x@;
            assert(v@[j]@ == x@);
        }
    }
    false
}

impl Clone for Contact {
    fn clone(&self) -> (r: Self)
        ensures
            r@ == self@,
    {
        let notes = match &self.notes {
            Some(n) => Some(n.clone()),
            None => None,
        };
        Contact {
            id: self.id,
            first_name: self.first_name.clone(),
            last_name: self.last_name.clone(),
            phone_numbers: clone_phones(&self.phone_numbers),
            emails: clone_emails(&self.emails),
            notes,
            tags: clone_strings(self.tags.as_slice()),
            metadata: clone_pairs(self.metadata.as_slice()),
        }
    }
}


impl Contact {
    /// A new contact with a fresh random identifier and no notes, tags or metadata.
    pub fn new(
        first_name: String,
        last_name: String,
        phone_numbers: Vec<PhoneNumber>,
        emails: Vec<Email>,
    ) -> (r: Contact)
        ensures
            is_random_v4(r@.id),
            r@.first_name == first_name@,
            r@.last_name == last_name@,
            r@.phone_numbers == phone_views(phone_numbers@),
            r@.emails == email_views(emails@),
            r@.notes is None,
            r@.tags == Seq::<Seq<char>>::empty(),
            r@.metadata == Seq::<(Seq<char>, Seq<char>)>::empty(),
    {
        Self::with_id(ContactId::new(), first_name, last_name, phone_numbers, emails)
    }

    /// A contact with a known identifier (as when it is read back from storage),
    /// and no notes, tags or metadata.
    pub fn with_id(
        id: ContactId,
        first_name: String,
        last_name: String,
        phone_numbers: Vec<PhoneNumber>,
        emails: Vec<Email>,
    ) -> (r: Contact)
        ensures
            r@.id == id@,
            r@.first_name == first_name@,
            r@.last_name == last_name@,
            r@.phone_numbers == phone_views(phone_numbers@),
            r@.emails == email_views(emails@),
            r@.notes is None,
            r@.tags == Seq::<Seq<char>>::empty(),
            r@.metadata == Seq::<(Seq<char>, Seq<char>)>::empty(),
    {
        let r = Contact {
            id,
            first_name,
            last_name,
            phone_numbers,
            emails,
            notes: None,
            tags: Vec::new(),
            metadata: Vec::new(),
        };
        assert(r@.tags =~= Seq::<Seq<char>>::empty());
        assert(r@.metadata =~= Seq::<(Seq<char>, Seq<char>)>::empty());
        r
    }

    /// A contact with every field given.
    pub fn from_parts(
        id: ContactId,
        first_name: String,
        last_name: String,
        phone_numbers: Vec<PhoneNumber>,
        emails: Vec<Email>,
        notes: Option<String>,
        tags: Vec<String>,
        metadata: Vec<(String, String)>,
    ) -> (r: Contact)
        ensures
            r@ == (ContactView {
                id: id@,
                first_name: first_name@,
                last_name: last_name@,
                phone_numbers: phone_views(phone_numbers@),
                emails: email_views(emails@),
                notes: option_view(notes),
                tags: string_views(tags@),
                metadata: pair_views(metadata@),
            }),
    {
        Contact { id, first_name, last_name, phone_numbers, emails, notes, tags, metadata }
    }

    pub fn id(&self) -> (r: &ContactId)
        ensures
            r@ == self@.id,
    {
        &self.id
    }

    pub fn first_name(&self) -> (r: &str)
        ensures
            r@ == self@.first_name,
    {
        self.first_name.as_str()
    }

    pub fn last_name(&self) -> (r: &str)
        ensures
            r@ == self@.last_name,
    {
        self.last_name.as_str()
    }

    /// First name, a space, last name.
    pub fn full_name(&self) -> (r: String)
        ensures
            r@ == full_name_spec(self@),
    {
        let mut out = String::new();
        push_all(&mut out, self.first_name.as_str());
        push_char(&mut out, ' ');
        push_all(&mut out, self.last_name.as_str());
        out
    }

    pub fn phone_numbers(&self) -> (r: &[PhoneNumber])
        ensures
            phone_views(r@) == self@.phone_numbers,
    {
        self.phone_numbers.as_slice()
    }

    pub fn emails(&self) -> (r: &[Email])
        ensures
            email_views(r@) == self@.emails,
    {
        self.emails.as_slice()
    }

    pub fn notes(&self) -> (r: Option<&str>)
        ensures
            match r {
                Some(n) => self@.notes == Some(n@),
                None => self@.notes is None,
            },
    {
        match &self.notes {
            Some(n) => Some(n.as_str()),
            None => None,
        }
    }

    pub fn tags(&self) -> (r: &[String])
        ensures
            string_views(r@) == self@.tags,
    {
        self.tags.as_slice()
    }

    /// The metadata entries, one per key.
    pub fn metadata(&self) -> (r: &[(String, String)])
        ensures
            pair_views(r@) == self@.metadata,
    {
        self.metadata.as_slice()
    }

    pub fn set_first_name(&mut self, first_name: String)
        ensures
            final(self)@ == (ContactView { first_name: first_name@, ..old(self)@ }),
    {
        self.first_name = first_name;
    }

    pub fn set_last_name(&mut self, last_name: String)
        ensures
            final(self)@ == (ContactView { last_name: last_name@, ..old(self)@ }),
    {
        self.last_name = last_name;
    }

    pub fn set_notes(&mut self, notes: Option<String>)
        ensures
            final(self)@ == (ContactView { notes: option_view(notes), ..old(self)@ }),
    {
        self.notes = notes;
    }

    /// Adds a phone number unless the contact has it already.
    pub fn add_phone_number(&mut self, phone: PhoneNumber)
        ensures
            final(self)@ == (ContactView {
                phone_numbers: with_added(old(self)@.phone_numbers, phone@),
                ..old(self)@
            }),
    {
        if !phones_contain(&self.phone_numbers, &phone) {
            let ghost prev = self.phone_numbers@;
            self.phone_numbers.push(phone);
            assert(phone_views(self.phone_numbers@) =~= phone_views(prev).push(phone@));
        }
    }

    /// Removes every occurrence of a phone number.
    pub fn remove_phone_number(&mut self, phone: &PhoneNumber)
        ensures
            final(self)@ == (ContactView {
                phone_numbers: without(old(self)@.phone_numbers, phone@),
                ..old(self)@
            }),
    {
        self.phone_numbers = phones_without(&self.phone_numbers, phone);
    }

    /// Adds an e-mail address unless the contact has it already.
    pub fn add_email(&mut self, email: Email)
        ensures
            final(self)@ == (ContactView { emails: with_added(old(self)@.emails, email@), ..old(self)@ }),
    {
        if !emails_contain(&self.emails, &email) {
            let ghost prev = self.emails@;
            self.emails.push(email);
            assert(email_views(self.emails@) =~= email_views(prev).push(email@));
        }
    }

    /// Removes every occurrence of an e-mail address.
    pub fn remove_email(&mut self, email: &Email)
        ensures
            final(self)@ == (ContactView { emails: without(old(self)@.emails, email@), ..old(self)@ }),
    {
        self.emails = emails_without(&self.emails, email);
    }

    /// Adds a tag unless the contact has it already.
    pub fn add_tag(&mut self, tag: String)
        ensures
            final(self)@ == (ContactView { tags: with_added(old(self)@.tags, tag@), ..old(self)@ }),
    {
        if !strings_contain(&self.tags, &tag) {
            let ghost prev = self.tags@;
            self.tags.push(tag);
            assert(string_views(self.tags@) =~= string_views(prev).push(tag@));
        }
    }

    /// Removes a tag.
    pub fn remove_tag(&mut self, tag: &str)
        ensures
            final(self)@ == (ContactView { tags: without(old(self)@.tags, tag@), ..old(self)@ }),
    {
        let t = tag.to_owned();
        self.tags = strings_without(&self.tags, &t);
    }

    /// Sets the value of a metadata key, in place if the key is present.
    pub fn set_metadata(&mut self, key: String, value: String)
        ensures
            final(self)@ == (ContactView {
                metadata: metadata_set(old(self)@.metadata, key@, value@),
                ..old(self)@
            }),
    {
        let ghost m = pair_views(self.metadata@);
        let mut i: usize = 0;
        while i < self.metadata.len()
            invariant
                *self == *old(self),
                i <= self.metadata@.len(),
                m == pair_views(self.metadata@),
                key_position(m, key@, 0) == key_position(m, key@, i as int),
            decreases self.metadata@.len() - i,
        {
            if self.metadata[i].0 == key {
                assert(m[i as int].0 == key@);
                self.metadata.set(i, (key, value));
                assert(pair_views(self.metadata@) =~= m.update(i as int, (key@, value@)));
                return;
            }
            i = i + 1;
        }
        self.metadata.push((key, value));
        assert(pair_views(self.metadata@) =~= m.push((key@, value@)));
    }

    /// Removes a metadata key.
    pub fn remove_metadata(&mut self, key: &str)
        ensures
            final(self)@ == (ContactView {
                metadata: metadata_removed(old(self)@.metadata, key@),
                ..old(self)@
            }),
    {
        let ghost all = pair_views(self.metadata@);
        let mut out: Vec<(String, String)> = Vec::new();
        let mut i: usize = 0;
        while i < self.metadata.len()
            invariant
                i <= self.metadata@.len(),
                all == pair_views(self.metadata@),
                pair_views(out@) == all.subrange(0, i as int).filter(key_differs(key@)),
            decreases self.metadata@.len() - i,
        {
            let ghost prev = out@;
            let ghost kv = all[i as int];
            proof {
                assert(all.subrange(0, i + 1) =~= all.subrange(0, i as int).push(kv));
                all.subrange(0, i as int).lemma_filter_push(kv, key_differs(key@));
            }
            let (k, x) = &self.metadata[i];
            if !str_eq(k.as_str(), key) {
                out.push((k.clone(), x.clone()));
                assert(pair_views(out@) =~= pair_views(prev).push(kv));
            }
            i = i + 1;
        }
        assert(all.subrange(0, self.metadata@.len() as int) == all);
        self.metadata = out;
    }

    /// Whether the contact matches a query, ignoring case.
    pub fn matches_search(&self, query: &str) -> (r: bool)
        ensures
            r == search_matches(self@, query@),
    {
        let q = to_lower(query);
        let q = q.as_str();
        let first = to_lower(self.first_name.as_str());
        if contains_str(first.as_str(), q) {
            return true;
        }
        let last = to_lower(self.last_name.as_str());
        if contains_str(last.as_str(), q) {
            return true;
        }
        let mut i: usize = 0;
        while i < self.phone_numbers.len()
            invariant
                i <= self.phone_numbers@.len(),
                q@ == lower_of(query@),
                forall|j: int| 0 <= j < i ==> !seq_contains(#[trigger] self@.phone_numbers[j], q@),
            decreases self.phone_numbers@.len() - i,
        {
            if contains_str(self.phone_numbers[i].value(), q) {
                assert(self@.phone_numbers[i as int] == self.phone_numbers@[i as int]@);
                return true;
            }
            i = i + 1;
        }
        let mut i: usize = 0;
        while i < self.emails.len()
            invariant
                i <= self.emails@.len(),
                q@ == lower_of(query@),
                forall|j: int| 0 <= j < i ==> !seq_contains(#[trigger] self@.emails[j], q@),
            decreases self.emails@.len() - i,
        {
            if contains_str(self.emails[i].value(), q) {
                assert(self@.emails[i as int] == self.emails@[i as int]@);
                return true;
            }
            i = i + 1;
        }
        match &self.notes {
            Some(n) => {
                let nl = to_lower(n.as_str());
                if contains_str(nl.as_str(), q) {
                    return true;
                }
            },
            None => {},
        }
        let mut i: usize = 0;
        while i < self.tags.len()
            invariant
                i <= self.tags@.len(),
                q@ == lower_of(query@),
                forall|j: int| 0 <= j < i ==> !seq_contains(lower_of(#[trigger] self@.tags[j]), q@),
            decreases self.tags@.len() - i,
        {
            let t = to_lower(self.tags[i].as_str());
            if contains_str(t.as_str(), q) {
                assert(self@.tags[i as int] == self.tags@[i as int]@);
                return true;
            }
            i = i + 1;
        }
        false
    }
}

fn str_eq(a: &str, b: &str) -> (r: bool)
    ensures
        r == (a@ == b@),
{
    let x = a.to_owned();
    let y = b.to_owned();
    x == y
}

} // verus!
