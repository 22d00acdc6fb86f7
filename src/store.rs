//! The in-memory contact store: the authoritative copy of the contact set
//! while the program runs, kept in insertion order with unique identifiers.

use vstd::prelude::*;
use crate::contact::{Contact, ContactView};
use crate::contact_id::ContactId;
use crate::errors::RepositoryError;
use crate::repository::{
    contact_views, ids_unique, lemma_has_id_position, lemma_position_of,
    lemma_remove_keeps_ids_unique, lemma_save_keeps_ids_unique, lemma_update_keeps_ids_unique,
    matches_query, position_of, ContactRepositorySync,
};

verus! {

/// A set of contacts held in memory.
#[derive(Debug)]
pub struct ContactStore {
    contacts: Vec<Contact>,
}

impl ContactStore {
    /// No two stored contacts share an identifier.
    #[verifier::type_invariant]
    spec fn inv(&self) -> bool {
        ids_unique(contact_views(self.contacts@))
    }

    /// An empty store.
    pub fn new() -> (r: ContactStore)
        ensures
            r.contacts().len() == 0,
            ids_unique(r.contacts()),
    {
        ContactStore { contacts: Vec::new() }
    }

    /// Position of the first contact with an identifier, or the length.
    fn position(&self, id: &ContactId) -> (r: usize)
        ensures
            r == position_of(self.contacts(), id@, 0),
            r <= self.contacts().len(),
    {
        let ghost s = self.contacts();
        proof {
            lemma_position_of(s, id@, 0);
        }
        let mut i: usize = 0;
        while i < self.contacts.len()
            invariant
                i <= self.contacts@.len(),
                s == contact_views(self.contacts@),
                position_of(s, id@, 0) == position_of(s, id@, i as int),
            decreases self.contacts@.len() - i,
        {
            if self.contacts[i].id().as_uuid() == id.as_uuid() {
                assert(s[i as int].id == id@);
                return i;
            }
            assert(s[i as int].id != id@);
            i = i + 1;
        }
        i
    }
}

impl ContactRepositorySync for ContactStore {
    closed spec fn contacts(&self) -> Seq<ContactView> {
        contact_views(self.contacts@)
    }

    fn save(&mut self, contact: Contact) -> (r: Result<(), RepositoryError>) {
        let i = self.position(contact.id());
        proof {
            lemma_has_id_position(self.contacts(), contact@.id);
        }
        proof {
            use_type_invariant(&*self);
        }
        if i < self.contacts.len() {
            return Err(RepositoryError::ContactAlreadyExists(contact.id().to_string()));
        }
        let ghost prev = self.contacts@;
        let mut v: Vec<Contact> = Vec::new();
        std::mem::swap(&mut v, &mut self.contacts);
        let ghost cv = contact@;
        v.push(contact);
        proof {
            assert(contact_views(v@) =~= contact_views(prev).push(cv));
            lemma_save_keeps_ids_unique(contact_views(prev), cv);
        }
        self.contacts = v;
        Ok(())
    }

    fn find_by_id(&self, id: &ContactId) -> (r: Result<Option<Contact>, RepositoryError>) {
        let i = self.position(id);
        proof {
            lemma_has_id_position(self.contacts(), id@);
        }
        if i < self.contacts.len() {
            Ok(Some(self.contacts[i].clone()))
        } else {
            Ok(None)
        }
    }

    fn find_all(&self) -> (r: Result<Vec<Contact>, RepositoryError>) {
        proof {
            use_type_invariant(self);
        }
        let mut out: Vec<Contact> = Vec::new();
        let mut i: usize = 0;
        while i < self.contacts.len()
            invariant
                i <= self.contacts@.len(),
                out@.len() == i,
                forall|j: int| 0 <= j < i ==> #[trigger] out@[j]@ == self.contacts@[j]@,
            decreases self.contacts@.len() - i,
        {
            out.push(self.contacts[i].clone());
            i = i + 1;
        }
        assert(contact_views(out@) =~= contact_views(self.contacts@));
        Ok(out)
    }

    fn update(&mut self, contact: Contact) -> (r: Result<(), RepositoryError>) {
        let i = self.position(contact.id());
        proof {
            lemma_has_id_position(self.contacts(), contact@.id);
        }
        proof {
            use_type_invariant(&*self);
            lemma_position_of(self.contacts(), contact@.id, 0);
        }
        if i >= self.contacts.len() {
            return Err(RepositoryError::ContactNotFound(contact.id().to_string()));
        }
        let ghost prev = self.contacts@;
        let mut v: Vec<Contact> = Vec::new();
        std::mem::swap(&mut v, &mut self.contacts);
        let ghost cv = contact@;
        v.set(i, contact);
        proof {
            assert(contact_views(v@) =~= contact_views(prev).update(i as int, cv));
            lemma_update_keeps_ids_unique(contact_views(prev), i as int, cv);
        }
        self.contacts = v;
        Ok(())
    }

    fn delete(&mut self, id: &ContactId) -> (r: Result<(), RepositoryError>) {
        let i = self.position(id);
        proof {
            lemma_has_id_position(self.contacts(), id@);
        }
        proof {
            use_type_invariant(&*self);
            lemma_position_of(self.contacts(), id@, 0);
        }
        if i >= self.contacts.len() {
            return Err(RepositoryError::ContactNotFound(id.to_string()));
        }
        let ghost prev = self.contacts@;
        let mut v: Vec<Contact> = Vec::new();
        std::mem::swap(&mut v, &mut self.contacts);
        v.remove(i);
        proof {
            assert(contact_views(v@) =~= contact_views(prev).remove(i as int));
            lemma_remove_keeps_ids_unique(contact_views(prev), i as int);
        }
        self.contacts = v;
        Ok(())
    }

    fn search(&self, query: &str) -> (r: Result<Vec<Contact>, RepositoryError>) {
        let ghost all = self.contacts();
        let mut out: Vec<Contact> = Vec::new();
        let mut i: usize = 0;
        while i < self.contacts.len()
            invariant
                i <= self.contacts@.len(),
                all == contact_views(self.contacts@),
                contact_views(out@) == all.subrange(0, i as int).filter(matches_query(query@)),
            decreases self.contacts@.len() - i,
        {
            let ghost prev = out@;
            let ghost c = all[i as int];
            proof {
                assert(all.subrange(0, i + 1) =~= all.subrange(0, i as int).push(c));
                all.subrange(0, i as int).lemma_filter_push(c, matches_query(query@));
            }
            if self.contacts[i].matches_search(query) {
                out.push(self.contacts[i].clone());
                assert(contact_views(out@) =~= contact_views(prev).push(c));
            }
            i = i + 1;
        }
        assert(all.subrange(0, self.contacts@.len() as int) == all);
        Ok(out)
    }

    fn exists_by_id(&self, id: &ContactId) -> (r: Result<bool, RepositoryError>) {
        let i = self.position(id);
        proof {
            lemma_has_id_position(self.contacts(), id@);
        }
        Ok(i < self.contacts.len())
    }

    fn count(&self) -> (r: Result<usize, RepositoryError>) {
        proof {
            use_type_invariant(self);
        }
        Ok(self.contacts.len())
    }
}

} // verus!
