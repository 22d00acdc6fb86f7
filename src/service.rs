//! One handle on all the use cases over a single repository.

use vstd::prelude::*;
use crate::contact::ContactView;
use crate::errors::RepositoryError;
use crate::list_contacts::{list_outcome, ListContactsRequest, ListContactsResponse, ListContactsUseCase};
use crate::repository::ContactRepositorySync;
use crate::update_contact::{update_outcome, UpdateContactRequest, UpdateContactResponse, UpdateContactUseCase};
use crate::use_cases::{
    add_outcome, delete_outcome, find_outcome, search_outcome, AddContactRequest,
    AddContactResponse, AddContactUseCase, DeleteContactRequest, DeleteContactResponse,
    DeleteContactUseCase, FindContactRequest, FindContactResponse, FindContactUseCase,
    SearchContactsRequest, SearchContactsResponse, SearchContactsUseCase,
};

verus! {

/// The use cases, each working on the repository the service owns.
pub struct ContactService<R> {
    repository: R,
    add_contact_use_case: AddContactUseCase,
    find_contact_use_case: FindContactUseCase,
    update_contact_use_case: UpdateContactUseCase,
    delete_contact_use_case: DeleteContactUseCase,
    list_contacts_use_case: ListContactsUseCase,
    search_contacts_use_case: SearchContactsUseCase,
}

impl<R: ContactRepositorySync> ContactService<R> {
    /// The contacts of the repository.
    pub closed spec fn contacts(&self) -> Seq<ContactView> {
        self.repository.contacts()
    }

    pub fn new(repository: R) -> (r: Self)
        ensures
            r.contacts() == repository.contacts(),
    {
        ContactService {
            repository,
            add_contact_use_case: AddContactUseCase::new(),
            find_contact_use_case: FindContactUseCase::new(),
            update_contact_use_case: UpdateContactUseCase::new(),
            delete_contact_use_case: DeleteContactUseCase::new(),
            list_contacts_use_case: ListContactsUseCase::new(),
            search_contacts_use_case: SearchContactsUseCase::new(),
        }
    }

    /// The repository, for reading.
    pub fn repository(&self) -> (r: &R)
        ensures
            r.contacts() == self.contacts(),
    {
        &self.repository
    }

    pub fn add_contact(&mut self, request: AddContactRequest) -> (r: Result<AddContactResponse, RepositoryError>)
        ensures
            add_outcome(old(self).contacts(), final(self).contacts(), request, r),
    {
        self.add_contact_use_case.execute(&mut self.repository, request)
    }

    pub fn find_contact(&self, request: FindContactRequest) -> (r: Result<FindContactResponse, RepositoryError>)
        ensures
            find_outcome(self.contacts(), request, r),
    {
        self.find_contact_use_case.execute(&self.repository, request)
    }

    pub fn update_contact(&mut self, request: UpdateContactRequest) -> (r: Result<UpdateContactResponse, RepositoryError>)
        ensures
            update_outcome(old(self).contacts(), final(self).contacts(), request, r),
    {
        self.update_contact_use_case.execute(&mut self.repository, request)
    }

    pub fn delete_contact(&mut self, request: DeleteContactRequest) -> (r: Result<DeleteContactResponse, RepositoryError>)
        ensures
            delete_outcome(old(self).contacts(), final(self).contacts(), request, r),
    {
        self.delete_contact_use_case.execute(&mut self.repository, request)
    }

    pub fn list_contacts(&self, request: ListContactsRequest) -> (r: Result<ListContactsResponse, RepositoryError>)
        ensures
            list_outcome(self.contacts(), request, r),
    {
        self.list_contacts_use_case.execute(&self.repository, request)
    }

    pub fn search_contacts(&self, request: SearchContactsRequest) -> (r: Result<SearchContactsResponse, RepositoryError>)
        ensures
            search_outcome(self.contacts(), request, r),
    {
        self.search_contacts_use_case.execute(&self.repository, request)
    }
}

} // verus!
