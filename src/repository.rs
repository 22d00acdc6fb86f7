//! The repository interface the use cases depend on, stated over the
//! sequence of contacts a repository holds.

use vstd::prelude::*;
use crate::contact::{search_matches, Contact, ContactView};
use crate::contact_id::{uuid_text, ContactId};
use crate::errors::RepositoryError;

verus! {

pub open spec fn contact_views(v: Seq<Contact>) -> Seq<ContactView> {
    v.map_values(|c: Contact| c@)
}

/// Some contact of `s` has identifier `id`.
pub open spec fn has_id(s: Seq<ContactView>, id: u128) -> bool {
    exists|i: int| 0 <= i < s.len() && #[trigger] s[i].id == id
}

/// The first position at or after `i` of a contact with identifier `id`, or
/// the length if there is none.
pub open spec fn position_of(s: Seq<ContactView>, id: u128, i: int) -> int
    decreases s.len() - i,
{
    if i < 0 || i >= s.len() {
        s.len() as int
    } else if s[i].id == id {
        i
    } else {
        position_of(s, id, i + 1)
    }
}

pub proof fn lemma_position_of(s: Seq<ContactView>, id: u128, i: int)
    requires
        0 <= i <= s.len(),
    ensures
        i <= position_of(s, id, i) <= s.len(),
        position_of(s, id, i) < s.len() ==> s[position_of(s, id, i)].id == id,
        forall|j: int| i <= j < position_of(s, id, i) ==> s[j].id != id,
    decreases s.len() - i,
{
    if i < s.len() && s[i].id != id {
        lemma_position_of(s, id, i + 1);
    }
}

/// `has_id` holds exactly when the first position is within the sequence.
pub proof fn lemma_has_id_position(s: Seq<ContactView>, id: u128)
    ensures
        has_id(s, id) <==> position_of(s, id, 0) < s.len(),
{
    lemma_position_of(s, id, 0);
    if has_id(s, id) {
        let j = choose|j: int| 0 <= j < s.len() && #[trigger] s[j].id == id;
        assert(position_of(s, id, 0) <= j);
    }
    if position_of(s, id, 0) < s.len() {
        assert(s[position_of(s, id, 0)].id == id);
    }
}

/// No two contacts of `s` share an identifier.
pub open spec fn ids_unique(s: Seq<ContactView>) -> bool {
    forall|i: int, j: int| 0 <= i < j < s.len() ==> #[trigger] s[i].id != #[trigger] s[j].id
}

/// Saving keeps identifiers distinct: a contact is added only when its
/// identifier is not yet stored, so a repository filled by `save` alone never
/// holds two contacts with one identifier.
pub proof fn lemma_save_keeps_ids_unique(s: Seq<ContactView>, c: ContactView)
    requires
        ids_unique(s),
        !has_id(s, c.id),
    ensures
        ids_unique(s.push(c)),
{
    let t = s.push(c);
    assert forall|i: int, j: int| 0 <= i < j < t.len() implies #[trigger] t[i].id != #[trigger] t[j].id by {
        if j == s.len() {
            assert(t[i] == s[i]);
        } else {
            assert(t[i] == s[i] && t[j] == s[j]);
        }
    }
}

/// Replacing a contact by one with the same identifier keeps identifiers distinct.
pub proof fn lemma_update_keeps_ids_unique(s: Seq<ContactView>, p: int, c: ContactView)
    requires
        ids_unique(s),
        0 <= p < s.len(),
        s[p].id == c.id,
    ensures
        ids_unique(s.update(p, c)),
{
    let t = s.update(p, c);
    assert forall|i: int, j: int| 0 <= i < j < t.len() implies #[trigger] t[i].id != #[trigger] t[j].id by {
        assert(t[i].id == s[i].id && t[j].id == s[j].id);
    }
}

/// Removing a contact keeps identifiers distinct, and its identifier is then gone.
pub proof fn lemma_remove_keeps_ids_unique(s: Seq<ContactView>, p: int)
    requires
        ids_unique(s),
        0 <= p < s.len(),
    ensures
        ids_unique(s.remove(p)),
        !has_id(s.remove(p), s[p].id),
{
    let t = s.remove(p);
    assert forall|i: int| 0 <= i < t.len() implies #[trigger] t[i] == if i < p { s[i] } else { s[i + 1] } by {}
    assert forall|i: int, j: int| 0 <= i < j < t.len() implies #[trigger] t[i].id != #[trigger] t[j].id by {
        let a = if i < p { i } else { i + 1 };
        let b = if j < p { j } else { j + 1 };
        assert(t[i] == s[a] && t[j] == s[b]);
    }
    if has_id(t, s[p].id) {
        let k = choose|k: int| 0 <= k < t.len() && #[trigger] t[k].id == s[p].id;
        let a = if k < p { k } else { k + 1 };
        assert(t[k] == s[a]);
        if a < p {
            assert(s[a].id != s[p].id);
        } else {
            assert(s[p].id != s[a].id);
        }
    }
}

pub open spec fn matches_query(query: Seq<char>) -> spec_fn(ContactView) -> bool {
    |c: ContactView| search_matches(c, query)
}

/// The contacts of `s` that match `query`, in order.
pub open spec fn search_spec(s: Seq<ContactView>, query: Seq<char>) -> Seq<ContactView> {
    s.filter(matches_query(query))
}

/// The not-found error for an identifier.
pub open spec fn is_not_found(e: RepositoryError, id: u128) -> bool {
    e matches RepositoryError::ContactNotFound(s) && s@ == uuid_text(id)
}

/// Storage of contacts, as the use cases see it. The state is the sequence
/// of stored contacts; identifiers are the lookup keys and stay distinct.
pub trait ContactRepositorySync {
    spec fn contacts(&self) -> Seq<ContactView>;

    /// Adds a contact whose identifier is not yet stored.
    fn save(&mut self, contact: Contact) -> (r: Result<(), RepositoryError>)
        ensures
            ids_unique(final(self).contacts()),
            match r {
                Ok(()) => !has_id(old(self).contacts(), contact@.id) && final(self).contacts()
                    == old(self).contacts().push(contact@),
                Err(e) => has_id(old(self).contacts(), contact@.id) && final(self).contacts()
                    == old(self).contacts() && (e matches RepositoryError::ContactAlreadyExists(s)
                    && s@ == uuid_text(contact@.id)),
            },
    ;

    /// The contact with an identifier, if any.
    fn find_by_id(&self, id: &ContactId) -> (r: Result<Option<Contact>, RepositoryError>)
        ensures
            match r {
                Ok(Some(c)) => has_id(self.contacts(), id@) && c@ == self.contacts()[position_of(
                    self.contacts(),
                    id@,
                    0,
                )],
                Ok(None) => !has_id(self.contacts(), id@),
                Err(_) => false,
            },
    ;

    /// Every stored contact.
    fn find_all(&self) -> (r: Result<Vec<Contact>, RepositoryError>)
        ensures
            ids_unique(self.contacts()),
            r matches Ok(v) && contact_views(v@) == self.contacts(),
    ;

    /// Replaces the stored contact that has the same identifier.
    fn update(&mut self, contact: Contact) -> (r: Result<(), RepositoryError>)
        ensures
            ids_unique(final(self).contacts()),
            match r {
                Ok(()) => has_id(old(self).contacts(), contact@.id) && final(self).contacts()
                    == old(self).contacts().update(
                    position_of(old(self).contacts(), contact@.id, 0),
                    contact@,
                ),
                Err(e) => !has_id(old(self).contacts(), contact@.id) && final(self).contacts()
                    == old(self).contacts() && is_not_found(e, contact@.id),
            },
    ;

    /// Removes the contact with an identifier.
    fn delete(&mut self, id: &ContactId) -> (r: Result<(), RepositoryError>)
        ensures
            ids_unique(final(self).contacts()),
            r is Ok ==> !has_id(final(self).contacts(), id@),
            match r {
                Ok(()) => has_id(old(self).contacts(), id@) && final(self).contacts() == old(
                    self,
                ).contacts().remove(position_of(old(self).contacts(), id@, 0)),
                Err(e) => !has_id(old(self).contacts(), id@) && final(self).contacts() == old(
                    self,
                ).contacts() && is_not_found(e, id@),
            },
    ;

    /// The stored contacts that match a query, in order.
    fn search(&self, query: &str) -> (r: Result<Vec<Contact>, RepositoryError>)
        ensures
            r matches Ok(v) && contact_views(v@) == search_spec(self.contacts(), query@),
    ;

    /// Whether a contact with an identifier is stored.
    fn exists_by_id(&self, id: &ContactId) -> (r: Result<bool, RepositoryError>)
        ensures
            r == Ok::<bool, RepositoryError>(has_id(self.contacts(), id@)),
    ;

    /// How many contacts are stored.
    fn count(&self) -> (r: Result<usize, RepositoryError>)
        ensures
            ids_unique(self.contacts()),
            r matches Ok(n) && n == self.contacts().len(),
    ;
}

} // verus!
