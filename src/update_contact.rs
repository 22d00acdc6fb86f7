//! The update use case: changes applied to a stored contact as a whole,
//! written back only if the contact keeps a phone number or an e-mail address.

use vstd::prelude::*;
use crate::contact::{
    email_views, phone_views, string_views, with_added, without, Contact, ContactView,
};
use crate::contact_id::ContactId;
use crate::email::Email;
use crate::errors::RepositoryError;
use crate::phone_number::PhoneNumber;
use crate::repository::{
    has_id, is_not_found, lemma_has_id_position, lemma_position_of, position_of,
    ContactRepositorySync,
};
use crate::text::{is_blank, is_blank_str};
use crate::use_cases::is_validation_error;

verus! {

/// `s` after adding each of `adds` in turn.
pub open spec fn add_all(s: Seq<Seq<char>>, adds: Seq<Seq<char>>) -> Seq<Seq<char>>
    decreases adds.len(),
{
    if adds.len() == 0 {
        s
    } else {
        with_added(add_all(s, adds.drop_last()), adds.last())
    }
}

/// `s` after removing each of `removes` in turn.
pub open spec fn remove_all(s: Seq<Seq<char>>, removes: Seq<Seq<char>>) -> Seq<Seq<char>>
    decreases removes.len(),
{
    if removes.len() == 0 {
        s
    } else {
        without(remove_all(s, removes.drop_last()), removes.last())
    }
}

/// Request to change a contact; absent fields and empty lists change nothing.
#[derive(Debug)]
pub struct UpdateContactRequest {
    pub contact_id: ContactId,
    pub first_name: Option<String>,
    pub last_name: Option<String>,
    pub notes: Option<String>,
    pub add_phone_numbers: Vec<PhoneNumber>,
    pub remove_phone_numbers: Vec<PhoneNumber>,
    pub add_emails: Vec<Email>,
    pub remove_emails: Vec<Email>,
    pub add_tags: Vec<String>,
    pub remove_tags: Vec<String>,
}

/// The updated contact.
#[derive(Debug)]
pub struct UpdateContactResponse {
    pub contact: Contact,
    pub message: String,
}

/// The contact `c` after the changes of `req`: given names replace the old
/// ones; given notes replace them, blank notes clear them; phone numbers,
/// e-mail addresses and tags are added, then removed.
pub open spec fn updated_contact(c: ContactView, req: UpdateContactRequest) -> ContactView {
    ContactView {
        id: c.id,
        first_name: match req.first_name {
            Some(f) => f@,
            None => c.first_name,
        },
        last_name: match req.last_name {
            Some(l) => l@,
            None => c.last_name,
        },
        notes: match req.notes {
            Some(n) => if is_blank(n@) {
                None
            } else {
                Some(n@)
            },
            None => c.notes,
        },
        phone_numbers: remove_all(
            add_all(c.phone_numbers, phone_views(req.add_phone_numbers@)),
            phone_views(req.remove_phone_numbers@),
        ),
        emails: remove_all(
            add_all(c.emails, email_views(req.add_emails@)),
            email_views(req.remove_emails@),
        ),
        tags: remove_all(add_all(c.tags, string_views(req.add_tags@)), string_views(req.remove_tags@)),
        metadata: c.metadata,
    }
}

/// Why an update of a stored contact is refused, as the message of a
/// `ValidationError`; `None` if it is not.
pub open spec fn update_error(c: ContactView, req: UpdateContactRequest) -> Option<Seq<char>> {
    let u = updated_contact(c, req);
    if req.first_name matches Some(f) && is_blank(f@) {
        Some("First name cannot be empty"@)
    } else if req.last_name matches Some(l) && is_blank(l@) {
        Some("Last name cannot be empty"@)
    } else if u.phone_numbers.len() == 0 && u.emails.len() == 0 {
        Some("Contact must have at least one phone number or email"@)
    } else {
        None
    }
}

/// What an update does: `before` and `after` are the stored contacts, `r`
/// the answer.
pub open spec fn update_outcome(before: Seq<ContactView>, after: Seq<ContactView>, request: UpdateContactRequest, r: Result<UpdateContactResponse, RepositoryError>) -> bool {
    let id = request.contact_id@;
    let i = position_of(before, id, 0);
    match r {
        Ok(resp) => has_id(before, id) && update_error(before[i], request) is None
            && resp.contact@ == updated_contact(before[i], request) && after == before.update(
            i,
            resp.contact@,
        ) && (resp.contact@.phone_numbers.len() > 0 || resp.contact@.emails.len() > 0)
            && resp.message@ == "Contact updated successfully"@,
        Err(e) => after == before && if !has_id(before, id) {
            is_not_found(e, id)
        } else {
            update_error(before[i], request) matches Some(m) && is_validation_error(e, m)
        },
    }
}

/// Changes a stored contact.
pub struct UpdateContactUseCase;

impl UpdateContactUseCase {
    pub fn new() -> Self {
        UpdateContactUseCase
    }

    /// Applies the request to the stored contact and writes it back. Fails
    /// with not-found if there is no such contact, and with a validation error
    /// on a blank name or when the contact would be left with neither a phone
    /// number nor an e-mail address; a failed update changes nothing.
    pub fn execute<R: ContactRepositorySync>(&self, repository: &mut R, request: UpdateContactRequest) -> (r: Result<UpdateContactResponse, RepositoryError>)
        ensures
            update_outcome(old(repository).contacts(), final(repository).contacts(), request, r),
    {
        let ghost req = request;
        let found = repository.find_by_id(&request.contact_id)?;
        let mut contact = match found {
            Some(c) => c,
            None => {
                return Err(RepositoryError::ContactNotFound(request.contact_id.to_string()));
            },
        };
        let ghost c0 = contact@;
        proof {
            lemma_has_id_position(repository.contacts(), request.contact_id@);
            lemma_position_of(repository.contacts(), request.contact_id@, 0);
        }
        if let Some(first_name) = request.first_name {
            if is_blank_str(first_name.as_str()) {
                return Err(RepositoryError::ValidationError("First name cannot be empty".to_owned()));
            }
            contact.set_first_name(first_name);
        }
        if let Some(last_name) = request.last_name {
            if is_blank_str(last_name.as_str()) {
                return Err(RepositoryError::ValidationError("Last name cannot be empty".to_owned()));
            }
            contact.set_last_name(last_name);
        }
        if let Some(notes) = request.notes {
            if is_blank_str(notes.as_str()) {
                contact.set_notes(None);
            } else {
                contact.set_notes(Some(notes));
            }
        }
        let ghost c1 = contact@;
        let mut i: usize = 0;
        while i < request.add_phone_numbers.len()
            invariant
                i <= request.add_phone_numbers@.len(),
                contact@ == (ContactView {
                    phone_numbers: add_all(c1.phone_numbers, phone_views(request.add_phone_numbers@).subrange(0, i as int)),
                    ..c1
                }),
            decreases request.add_phone_numbers@.len() - i,
        {
            contact.add_phone_number(request.add_phone_numbers[i].clone());
            assert(phone_views(request.add_phone_numbers@).subrange(0, i + 1).drop_last()
                == phone_views(request.add_phone_numbers@).subrange(0, i as int));
            i = i + 1;
        }
        assert(phone_views(request.add_phone_numbers@).subrange(0, i as int) == phone_views(request.add_phone_numbers@));
        let ghost c2 = contact@;
        let mut i: usize = 0;
        while i < request.remove_phone_numbers.len()
            invariant
                i <= request.remove_phone_numbers@.len(),
                contact@ == (ContactView {
                    phone_numbers: remove_all(c2.phone_numbers, phone_views(request.remove_phone_numbers@).subrange(0, i as int)),
                    ..c2
                }),
            decreases request.remove_phone_numbers@.len() - i,
        {
            contact.remove_phone_number(&request.remove_phone_numbers[i]);
            assert(phone_views(request.remove_phone_numbers@).subrange(0, i + 1).drop_last()
                == phone_views(request.remove_phone_numbers@).subrange(0, i as int));
            i = i + 1;
        }
        assert(phone_views(request.remove_phone_numbers@).subrange(0, i as int) == phone_views(request.remove_phone_numbers@));
        let ghost c3 = contact@;
        let mut i: usize = 0;
        while i < request.add_emails.len()
            invariant
                i <= request.add_emails@.len(),
                contact@ == (ContactView {
                    emails: add_all(c3.emails, email_views(request.add_emails@).subrange(0, i as int)),
                    ..c3
                }),
            decreases request.add_emails@.len() - i,
        {
            contact.add_email(request.add_emails[i].clone());
            assert(email_views(request.add_emails@).subrange(0, i + 1).drop_last()
                == email_views(request.add_emails@).subrange(0, i as int));
            i = i + 1;
        }
        assert(email_views(request.add_emails@).subrange(0, i as int) == email_views(request.add_emails@));
        let ghost c4 = contact@;
        let mut i: usize = 0;
        while i < request.remove_emails.len()
            invariant
                i <= request.remove_emails@.len(),
                contact@ == (ContactView {
                    emails: remove_all(c4.emails, email_views(request.remove_emails@).subrange(0, i as int)),
                    ..c4
                }),
            decreases request.remove_emails@.len() - i,
        {
            contact.remove_email(&request.remove_emails[i]);
            assert(email_views(request.remove_emails@).subrange(0, i + 1).drop_last()
                == email_views(request.remove_emails@).subrange(0, i as int));
            i = i + 1;
        }
        assert(email_views(request.remove_emails@).subrange(0, i as int) == email_views(request.remove_emails@));
        let ghost c5 = contact@;
        let mut i: usize = 0;
        while i < request.add_tags.len()
            invariant
                i <= request.add_tags@.len(),
                contact@ == (ContactView {
                    tags: add_all(c5.tags, string_views(request.add_tags@).subrange(0, i as int)),
                    ..c5
                }),
            decreases request.add_tags@.len() - i,
        {
            contact.add_tag(request.add_tags[i].clone());
            assert(string_views(request.add_tags@).subrange(0, i + 1).drop_last()
                == string_views(request.add_tags@).subrange(0, i as int));
            i = i + 1;
        }
        assert(string_views(request.add_tags@).subrange(0, i as int) == string_views(request.add_tags@));
        let ghost c6 = contact@;
        let mut i: usize = 0;
        while i < request.remove_tags.len()
            invariant
                i <= request.remove_tags@.len(),
                contact@ == (ContactView {
                    tags: remove_all(c6.tags, string_views(request.remove_tags@).subrange(0, i as int)),
                    ..c6
                }),
            decreases request.remove_tags@.len() - i,
        {
            contact.remove_tag(request.remove_tags[i].as_str());
            assert(string_views(request.remove_tags@).subrange(0, i + 1).drop_last()
                == string_views(request.remove_tags@).subrange(0, i as int));
            i = i + 1;
        }
        assert(string_views(request.remove_tags@).subrange(0, i as int) == string_views(request.remove_tags@));
        assert(contact@ == updated_contact(c0, req));
        if contact.phone_numbers().len() == 0 && contact.emails().len() == 0 {
            return Err(RepositoryError::ValidationError("Contact must have at least one phone number or email".to_owned()));
        }
        repository.update(contact.clone())?;
        Ok(UpdateContactResponse { contact, message: "Contact updated successfully".to_owned() })
    }
}

} // verus!
