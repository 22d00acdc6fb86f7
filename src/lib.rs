//! A local address book: validated contact values, the contact entity, an
//! in-memory contact store behind a repository interface, and the use cases
//! that add, find, update, delete, list and search contacts.

pub mod text;
pub mod phone_number;
pub mod email;
pub mod contact_id;
pub mod errors;
pub mod contact;
pub mod repository;
pub mod store;
pub mod validation;
pub mod use_cases;
pub mod update_contact;
pub mod list_contacts;
pub mod service;
pub mod file_storage;
pub mod formatters;
pub mod commands;

pub use commands::SortField;
pub use contact::Contact;
pub use contact_id::ContactId;
pub use email::{Email, EmailError};
pub use errors::{
    ApplicationError, DomainError, InfrastructureError, PhonebookError, PresentationError,
    RepositoryError,
};
pub use file_storage::{decode_contacts, encode_contacts, ContactRecord, FileStorage};
pub use formatters::ContactFormatter;
pub use list_contacts::{ListContactsRequest, ListContactsResponse, ListContactsUseCase, SortBy};
pub use phone_number::{PhoneNumber, PhoneNumberError};
pub use repository::ContactRepositorySync;
pub use service::ContactService;
pub use store::ContactStore;
pub use update_contact::{UpdateContactRequest, UpdateContactResponse, UpdateContactUseCase};
pub use use_cases::{
    AddContactRequest, AddContactResponse, AddContactUseCase, DeleteContactRequest,
    DeleteContactResponse, DeleteContactUseCase, FindContactRequest, FindContactResponse,
    FindContactUseCase, SearchContactsRequest, SearchContactsResponse, SearchContactsUseCase,
};
pub use validation::Validator;
