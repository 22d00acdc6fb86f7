//! The errors of each layer. Each can describe itself as text.

use vstd::prelude::*;
use crate::text::concat;

verus! {

/// Errors of the domain rules.
#[derive(Debug, Clone, PartialEq, Eq)]
pub enum DomainError {
    Validation(String),
    BusinessRule(String),
    EntityNotFound(String),
    DuplicateEntity(String),
}

/// Errors of the application layer.
#[derive(Debug, Clone, PartialEq, Eq)]
pub enum ApplicationError {
    Domain(DomainError),
    Repository(RepositoryError),
    UseCase(String),
    Service(String),
}

/// Errors of the environment the library runs in.
#[derive(Debug, Clone, PartialEq, Eq)]
pub enum InfrastructureError {
    FileSystem(String),
    Network(String),
    Database(String),
    Configuration(String),
}

/// Errors met while talking to the user.
#[derive(Debug, Clone, PartialEq, Eq)]
pub enum PresentationError {
    Cli(String),
    InputValidation(String),
    OutputFormatting(String),
    Application(ApplicationError),
}

/// Any error of the program.
#[derive(Debug, Clone, PartialEq, Eq)]
pub enum PhonebookError {
    Presentation(PresentationError),
    Application(ApplicationError),
    Infrastructure(InfrastructureError),
    Domain(DomainError),
    System(String),
}

/// Errors of the contact repository.
#[derive(Debug, Clone, PartialEq, Eq)]
pub enum RepositoryError {
    ContactNotFound(String),
    ContactAlreadyExists(String),
    StorageError(String),
    SerializationError(String),
    IoError(String),
    ValidationError(String),
}

pub open spec fn domain_error_text(e: DomainError) -> Seq<char> {
    match e {
        DomainError::Validation(s) => "Validation error: "@ + s@,
        DomainError::BusinessRule(s) => "Business rule violation: "@ + s@,
        DomainError::EntityNotFound(s) => "Entity not found: "@ + s@,
        DomainError::DuplicateEntity(s) => "Duplicate entity: "@ + s@,
    }
}

pub open spec fn repository_error_text(e: RepositoryError) -> Seq<char> {
    match e {
        RepositoryError::ContactNotFound(s) => "Contact not found with ID: "@ + s@,
        RepositoryError::ContactAlreadyExists(s) => "Contact already exists with ID: "@ + s@,
        RepositoryError::StorageError(s) => "Storage error: "@ + s@,
        RepositoryError::SerializationError(s) => "Serialization error: "@ + s@,
        RepositoryError::IoError(s) => "IO error: "@ + s@,
        RepositoryError::ValidationError(s) => "Validation error: "@ + s@,
    }
}

impl DomainError {
    /// The error as a sentence.
    pub fn to_string(&self) -> (r: String)
        ensures
            r@ == domain_error_text(*self),
    {
        match self {
            DomainError::Validation(s) => concat("Validation error: ", s.as_str()),
            DomainError::BusinessRule(s) => concat("Business rule violation: ", s.as_str()),
            DomainError::EntityNotFound(s) => concat("Entity not found: ", s.as_str()),
            DomainError::DuplicateEntity(s) => concat("Duplicate entity: ", s.as_str()),
        }
    }
}

impl RepositoryError {
    /// The error as a sentence.
    pub fn to_string(&self) -> (r: String)
        ensures
            r@ == repository_error_text(*self),
    {
        match self {
            RepositoryError::ContactNotFound(s) => concat("Contact not found with ID: ", s.as_str()),
            RepositoryError::ContactAlreadyExists(s) => concat(
                "Contact already exists with ID: ",
                s.as_str(),
            ),
            RepositoryError::StorageError(s) => concat("Storage error: ", s.as_str()),
            RepositoryError::SerializationError(s) => concat("Serialization error: ", s.as_str()),
            RepositoryError::IoError(s) => concat("IO error: ", s.as_str()),
            RepositoryError::ValidationError(s) => concat("Validation error: ", s.as_str()),
        }
    }
}

} // verus!
