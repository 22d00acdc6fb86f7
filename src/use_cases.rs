//! The add, find, delete and search use cases: each checks its request,
//! calls the repository once or twice, and builds its response.

use vstd::prelude::*;
use crate::contact::{email_views, phone_views, Contact, ContactView};
use crate::contact_id::{is_random_v4, uuid_text, ContactId};
use crate::email::Email;
use crate::errors::RepositoryError;
use crate::phone_number::PhoneNumber;
use crate::repository::{
    contact_views, has_id, is_not_found, position_of, search_spec, ContactRepositorySync,
};
use crate::text::{is_blank, is_blank_str};
use crate::validation::{name_component_error, Validator};

verus! {

/// The repository error that carries a failed check.
pub open spec fn is_validation_error(e: RepositoryError, msg: Seq<char>) -> bool {
    e matches RepositoryError::ValidationError(s) && s@ == msg
}

/// Request to add a contact.
#[derive(Debug)]
pub struct AddContactRequest {
    pub first_name: String,
    pub last_name: String,
    pub phone_numbers: Vec<PhoneNumber>,
    pub emails: Vec<Email>,
}

/// Answer to an added contact.
#[derive(Debug)]
pub struct AddContactResponse {
    pub contact_id: ContactId,
    pub message: String,
}

/// Why an add request is refused before the repository is asked, as the
/// message of a `ValidationError`; `None` if it is not.
pub open spec fn add_request_error(request: AddContactRequest) -> Option<Seq<char>> {
    let first = name_component_error(request.first_name@, "First name"@);
    let last = name_component_error(request.last_name@, "Last name"@);
    match first {
        Some(m) => Some("Validation error: "@ + m),
        None => match last {
            Some(m) => Some("Validation error: "@ + m),
            None => if request.phone_numbers@.len() == 0 && request.emails@.len() == 0 {
                Some("Business rule violation: "@ + "At least one phone number or email address is required"@)
            } else {
                None
            },
        },
    }
}

/// The contact an add request creates under identifier `id`.
pub open spec fn added_contact(request: AddContactRequest, id: u128) -> ContactView {
    ContactView {
        id,
        first_name: request.first_name@,
        last_name: request.last_name@,
        phone_numbers: phone_views(request.phone_numbers@),
        emails: email_views(request.emails@),
        notes: None,
        tags: Seq::empty(),
        metadata: Seq::empty(),
    }
}

/// What adding a contact does: `before` and `after` are the stored
/// contacts, `r` the answer. A valid request fails only when the random
/// identifier drawn for it is already stored, so on an empty repository it
/// always succeeds.
pub open spec fn add_outcome(before: Seq<ContactView>, after: Seq<ContactView>, request: AddContactRequest, r: Result<AddContactResponse, RepositoryError>) -> bool {
    match r {
        Ok(resp) => add_request_error(request) is None && !has_id(before, resp.contact_id@)
            && is_random_v4(resp.contact_id@) && after == before.push(
            added_contact(request, resp.contact_id@),
        ) && resp.message@ == "Contact added successfully"@,
        Err(e) => after == before && match add_request_error(request) {
            Some(m) => is_validation_error(e, m),
            None => e matches RepositoryError::ContactAlreadyExists(s) && exists|v: u128|
                is_random_v4(v) && #[trigger] has_id(before, v) && s@ == uuid_text(v),
        },
    }
}

/// Adds a new contact.
pub struct AddContactUseCase;

impl AddContactUseCase {
    pub fn new() -> Self {
        AddContactUseCase
    }

    /// Checks the request, then stores a new contact under a fresh random
    /// identifier. It fails only on an invalid request, or if the drawn
    /// identifier is taken.
    pub fn execute<R: ContactRepositorySync>(&self, repository: &mut R, request: AddContactRequest) -> (r: Result<AddContactResponse, RepositoryError>)
        ensures
            add_outcome(old(repository).contacts(), final(repository).contacts(), request, r),
    {
        let id = ContactId::new();
        let r = self.execute_with_id(repository, request, id);
        proof {
            if r is Err && add_request_error(request) is None {
                assert(is_random_v4(id@) && has_id(old(repository).contacts(), id@));
            }
        }
        r
    }

    /// Checks the request, then stores a new contact under identifier `id`.
    pub fn execute_with_id<R: ContactRepositorySync>(
        &self,
        repository: &mut R,
        request: AddContactRequest,
        id: ContactId,
    ) -> (r: Result<AddContactResponse, RepositoryError>)
        ensures
            match r {
                Ok(resp) => add_request_error(request) is None && !has_id(old(repository).contacts(), id@)
                    && resp.contact_id@ == id@ && final(repository).contacts() == old(
                    repository,
                ).contacts().push(added_contact(request, id@))
                    && resp.message@ == "Contact added successfully"@,
                Err(e) => final(repository).contacts() == old(repository).contacts() && match add_request_error(request) {
                    Some(m) => is_validation_error(e, m),
                    None => has_id(old(repository).contacts(), id@) && (e matches RepositoryError::ContactAlreadyExists(s)
                        && s@ == uuid_text(id@)),
                },
            },
    {
        if let Err(e) = Validator::validate_name_component(request.first_name.as_str(), "First name") {
            return Err(RepositoryError::ValidationError(e.to_string()));
        }
        if let Err(e) = Validator::validate_name_component(request.last_name.as_str(), "Last name") {
            return Err(RepositoryError::ValidationError(e.to_string()));
        }
        if let Err(e) = Validator::validate_contact_methods(request.phone_numbers.as_slice(), request.emails.as_slice()) {
            return Err(RepositoryError::ValidationError(e.to_string()));
        }
        let ghost req = request;
        let contact = Contact::with_id(id, request.first_name, request.last_name, request.phone_numbers, request.emails);
        assert(contact@ == added_contact(req, id@));
        repository.save(contact)?;
        Ok(AddContactResponse { contact_id: id, message: "Contact added successfully".to_owned() })
    }
}

/// Request to look a contact up.
#[derive(Debug)]
pub struct FindContactRequest {
    pub contact_id: ContactId,
}

/// The contact found, if any.
#[derive(Debug)]
pub struct FindContactResponse {
    pub contact: Option<Contact>,
    pub found: bool,
}

/// What looking a contact up answers, over the stored contacts `s`.
pub open spec fn find_outcome(s: Seq<ContactView>, request: FindContactRequest, r: Result<FindContactResponse, RepositoryError>) -> bool {
    r matches Ok(resp) && resp.found == has_id(s, request.contact_id@)
        && match resp.contact {
        Some(c) => resp.found && c@ == s[position_of(
            s,
            request.contact_id@,
            0,
        )],
        None => !resp.found,
    }
}

/// Looks a contact up by identifier; absence is an answer, not an error.
pub struct FindContactUseCase;

impl FindContactUseCase {
    pub fn new() -> Self {
        FindContactUseCase
    }

    pub fn execute<R: ContactRepositorySync>(&self, repository: &R, request: FindContactRequest) -> (r: Result<FindContactResponse, RepositoryError>)
        ensures
            find_outcome(repository.contacts(), request, r),
    {
        let contact = repository.find_by_id(&request.contact_id)?;
        match contact {
            Some(contact) => Ok(FindContactResponse { contact: Some(contact), found: true }),
            None => Ok(FindContactResponse { contact: None, found: false }),
        }
    }
}

/// Request to delete a contact.
#[derive(Debug)]
pub struct DeleteContactRequest {
    pub contact_id: ContactId,
}

/// Answer to a deleted contact.
#[derive(Debug)]
pub struct DeleteContactResponse {
    pub contact_id: ContactId,
    pub message: String,
}

/// What deleting a contact does: `before` and `after` are the stored
/// contacts, `r` the answer.
pub open spec fn delete_outcome(before: Seq<ContactView>, after: Seq<ContactView>, request: DeleteContactRequest, r: Result<DeleteContactResponse, RepositoryError>) -> bool {
    match r {
        Ok(resp) => has_id(before, request.contact_id@) && after
            == before.remove(
            position_of(before, request.contact_id@, 0),
        ) && !has_id(after, request.contact_id@) && resp.contact_id@ == request.contact_id@ && resp.message@
            == "Contact deleted successfully"@,
        Err(e) => !has_id(before, request.contact_id@) && after
            == before && is_not_found(e, request.contact_id@),
    }
}

/// Deletes a contact that exists.
pub struct DeleteContactUseCase;

impl DeleteContactUseCase {
    pub fn new() -> Self {
        DeleteContactUseCase
    }

    /// Fails with not-found, changing nothing, when no contact has the identifier.
    pub fn execute<R: ContactRepositorySync>(&self, repository: &mut R, request: DeleteContactRequest) -> (r: Result<DeleteContactResponse, RepositoryError>)
        ensures
            delete_outcome(old(repository).contacts(), final(repository).contacts(), request, r),
    {
        if !repository.exists_by_id(&request.contact_id)? {
            return Err(RepositoryError::ContactNotFound(request.contact_id.to_string()));
        }
        repository.delete(&request.contact_id)?;
        Ok(DeleteContactResponse { contact_id: request.contact_id, message: "Contact deleted successfully".to_owned() })
    }
}

/// Request to search contacts.
#[derive(Debug)]
pub struct SearchContactsRequest {
    pub query: String,
}

/// The contacts that match a query.
#[derive(Debug)]
pub struct SearchContactsResponse {
    pub contacts: Vec<Contact>,
    pub query: String,
    pub count: usize,
}

/// What a search answers, over the stored contacts `s`.
pub open spec fn search_outcome(s: Seq<ContactView>, request: SearchContactsRequest, r: Result<SearchContactsResponse, RepositoryError>) -> bool {
    match r {
        Ok(resp) => !is_blank(request.query@) && contact_views(resp.contacts@) == search_spec(
            s,
            request.query@,
        ) && resp.query == request.query && resp.count == resp.contacts@.len(),
        Err(e) => is_blank(request.query@) && is_validation_error(e, "Search query cannot be empty"@),
    }
}

/// Searches contacts; a blank query is refused before the repository is asked.
pub struct SearchContactsUseCase;

impl SearchContactsUseCase {
    pub fn new() -> Self {
        SearchContactsUseCase
    }

    pub fn execute<R: ContactRepositorySync>(&self, repository: &R, request: SearchContactsRequest) -> (r: Result<SearchContactsResponse, RepositoryError>)
        ensures
            search_outcome(repository.contacts(), request, r),
    {
        if is_blank_str(request.query.as_str()) {
            return Err(RepositoryError::ValidationError("Search query cannot be empty".to_owned()));
        }
        let contacts = repository.search(request.query.as_str())?;
        let count = contacts.len();
        Ok(SearchContactsResponse { contacts, query: request.query, count })
    }
}

} // verus!
