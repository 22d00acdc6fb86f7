//! Input checks of the application layer: names, search queries, paging,
//! and lists of phone numbers and e-mail addresses.

use vstd::prelude::*;
use vstd::string::StrSliceExecFns;
use crate::contact::{email_views, phone_views, string_views};
use crate::email::{email_grammar, normalized, Email};
use crate::errors::DomainError;
use crate::phone_number::{clean_spec, phone_shape, PhoneNumber};
use crate::text::{
    concat, concat3, decimal_text, is_blank, is_blank_str, push_all,
    trim_str, trim_ws, usize_text,
};

verus! {

/// The result of a check that fails with `Validation(msg)` when `msg` is given.
pub open spec fn checked(r: Result<(), DomainError>, msg: Option<Seq<char>>) -> bool {
    match msg {
        None => r is Ok,
        Some(m) => r matches Err(DomainError::Validation(s)) && s@ == m,
    }
}

pub open spec fn non_empty_error(value: Seq<char>, field: Seq<char>) -> Option<Seq<char>> {
    if is_blank(value) {
        Some(field + " cannot be empty"@)
    } else {
        None
    }
}

pub open spec fn min_length_error(value: Seq<char>, min: usize, field: Seq<char>) -> Option<Seq<char>> {
    if trim_ws(value).len() < min {
        Some(field + " must be at least "@ + decimal_text(min as nat) + " characters long"@)
    } else {
        None
    }
}

pub open spec fn max_length_error(value: Seq<char>, max: usize, field: Seq<char>) -> Option<Seq<char>> {
    if value.len() > max {
        Some(field + " cannot exceed "@ + decimal_text(max as nat) + " characters"@)
    } else {
        None
    }
}

/// A control character (Unicode category Cc) other than the horizontal tab.
pub open spec fn is_forbidden_control(c: char) -> bool {
    let n = c as u32;
    (n <= 0x1f || (0x7f <= n <= 0x9f)) && n != 9
}

pub open spec fn has_forbidden_control(s: Seq<char>) -> bool {
    exists|i: int| 0 <= i < s.len() && is_forbidden_control(#[trigger] s[i])
}

/// The first failing check of a name component, if any.
pub open spec fn name_component_error(name: Seq<char>, field: Seq<char>) -> Option<Seq<char>> {
    if non_empty_error(name, field) is Some {
        non_empty_error(name, field)
    } else if min_length_error(name, 1, field) is Some {
        min_length_error(name, 1, field)
    } else if max_length_error(name, 100, field) is Some {
        max_length_error(name, 100, field)
    } else if has_forbidden_control(name) {
        Some(field + " contains invalid characters"@)
    } else {
        None
    }
}

/// The first failing check of a search query, if any.
pub open spec fn search_query_error(query: Seq<char>) -> Option<Seq<char>> {
    let field = "Search query"@;
    if non_empty_error(query, field) is Some {
        non_empty_error(query, field)
    } else if min_length_error(query, 1, field) is Some {
        min_length_error(query, 1, field)
    } else {
        max_length_error(query, 200, field)
    }
}

pub open spec fn pagination_error(page_size: usize) -> Option<Seq<char>> {
    if page_size == 0 {
        Some("Page size must be greater than 0"@)
    } else if page_size > 100 {
        Some("Page size cannot exceed 100"@)
    } else {
        None
    }
}

/// A text that makes a phone number.
pub open spec fn phone_accepted(s: Seq<char>) -> bool {
    phone_shape(clean_spec(s))
}

pub open spec fn phone_error_text(s: Seq<char>) -> Seq<char> {
    if clean_spec(s).len() == 0 {
        "Phone number cannot be empty"@
    } else {
        "Invalid phone number format: "@ + s
    }
}

/// A text that makes an e-mail address.
pub open spec fn email_accepted(s: Seq<char>) -> bool {
    normalized(s).len() > 0 && email_grammar(normalized(s))
}

pub open spec fn email_error_text(s: Seq<char>) -> Seq<char> {
    if normalized(s).len() == 0 {
        "Email cannot be empty"@
    } else {
        "Invalid email format: "@ + s
    }
}

/// The first position at or after `i` whose text `ok` rejects, or the length.
pub open spec fn first_rejected(ss: Seq<Seq<char>>, ok: spec_fn(Seq<char>) -> bool, i: int) -> int
    decreases ss.len() - i,
{
    if i < 0 || i >= ss.len() {
        ss.len() as int
    } else if !ok(ss[i]) {
        i
    } else {
        first_rejected(ss, ok, i + 1)
    }
}

pub open spec fn phone_acceptor() -> spec_fn(Seq<char>) -> bool {
    |s: Seq<char>| phone_accepted(s)
}

pub open spec fn email_acceptor() -> spec_fn(Seq<char>) -> bool {
    |s: Seq<char>| email_accepted(s)
}

/// The message for a rejected phone number.
pub open spec fn phone_list_error(s: Seq<char>) -> Seq<char> {
    "Invalid phone number '"@ + s + "': "@ + phone_error_text(s)
}

/// The message for a rejected e-mail address.
pub open spec fn email_list_error(s: Seq<char>) -> Seq<char> {
    "Invalid email '"@ + s + "': "@ + email_error_text(s)
}

/// Checks of request values.
pub struct Validator;

impl Validator {
    /// Fails when the value is blank.
    pub fn validate_non_empty_string(value: &str, field_name: &str) -> (r: Result<(), DomainError>)
        ensures
            checked(r, non_empty_error(value@, field_name@)),
    {
        if is_blank_str(value) {
            return Err(DomainError::Validation(concat(field_name, " cannot be empty")));
        }
        Ok(())
    }

    /// Fails when the trimmed value has fewer than `min_length` characters.
    pub fn validate_min_length(value: &str, min_length: usize, field_name: &str) -> (r: Result<(), DomainError>)
        ensures
            checked(r, min_length_error(value@, min_length, field_name@)),
    {
        if trim_str(value).unicode_len() < min_length {
            let mut m = concat3(field_name, " must be at least ", usize_text(min_length).as_str());
            push_all(&mut m, " characters long");
            return Err(DomainError::Validation(m));
        }
        Ok(())
    }

    /// Fails when the value has more than `max_length` characters.
    pub fn validate_max_length(value: &str, max_length: usize, field_name: &str) -> (r: Result<(), DomainError>)
        ensures
            checked(r, max_length_error(value@, max_length, field_name@)),
    {
        if value.unicode_len() > max_length {
            let mut m = concat3(field_name, " cannot exceed ", usize_text(max_length).as_str());
            push_all(&mut m, " characters");
            return Err(DomainError::Validation(m));
        }
        Ok(())
    }

    /// Makes a phone number of each text, or fails on the first that is not one.
    pub fn validate_phone_numbers(phone_strings: &[String]) -> (r: Result<Vec<PhoneNumber>, DomainError>)
        ensures
            ({
                let ss = string_views(phone_strings@);
                let k = first_rejected(ss, phone_acceptor(), 0);
                match r {
                    Ok(v) => k == ss.len() && phone_views(v@) == ss.map_values(|s: Seq<char>| clean_spec(s)),
                    Err(e) => k < ss.len() && (e matches DomainError::Validation(m) && m@
                        == phone_list_error(ss[k])),
                }
            }),
    {
        let ghost ss = string_views(phone_strings@);
        let mut out: Vec<PhoneNumber> = Vec::new();
        let mut i: usize = 0;
        while i < phone_strings.len()
            invariant
                ss == string_views(phone_strings@),
                i <= ss.len(),
                out@.len() == i,
                forall|j: int| 0 <= j < i ==> #[trigger] out@[j]@ == clean_spec(ss[j]),
                first_rejected(ss, phone_acceptor(), 0) == first_rejected(ss, phone_acceptor(), i as int),
            decreases ss.len() - i,
        {
            let s = &phone_strings[i];
            match PhoneNumber::new(s.clone()) {
                Ok(p) => {
                    out.push(p);
                },
                Err(e) => {
                    let mut m = concat3("Invalid phone number '", s.as_str(), "': ");
                    push_all(&mut m, e.to_string().as_str());
                    return Err(DomainError::Validation(m));
                },
            }
            i = i + 1;
        }
        assert(phone_views(out@) =~= ss.map_values(|s: Seq<char>| clean_spec(s)));
        Ok(out)
    }

    /// Makes an e-mail address of each text, or fails on the first that is not one.
    pub fn validate_emails(email_strings: &[String]) -> (r: Result<Vec<Email>, DomainError>)
        ensures
            ({
                let ss = string_views(email_strings@);
                let k = first_rejected(ss, email_acceptor(), 0);
                match r {
                    Ok(v) => k == ss.len() && email_views(v@) == ss.map_values(|s: Seq<char>| normalized(s)),
                    Err(e) => k < ss.len() && (e matches DomainError::Validation(m) && m@
                        == email_list_error(ss[k])),
                }
            }),
    {
        let ghost ss = string_views(email_strings@);
        let mut out: Vec<Email> = Vec::new();
        let mut i: usize = 0;
        while i < email_strings.len()
            invariant
                ss == string_views(email_strings@),
                i <= ss.len(),
                out@.len() == i,
                forall|j: int| 0 <= j < i ==> #[trigger] out@[j]@ == normalized(ss[j]),
                first_rejected(ss, email_acceptor(), 0) == first_rejected(ss, email_acceptor(), i as int),
            decreases ss.len() - i,
        {
            let s = &email_strings[i];
            match Email::new(s.clone()) {
                Ok(p) => {
                    out.push(p);
                },
                Err(e) => {
                    let mut m = concat3("Invalid email '", s.as_str(), "': ");
                    push_all(&mut m, e.to_string().as_str());
                    return Err(DomainError::Validation(m));
                },
            }
            i = i + 1;
        }
        assert(email_views(out@) =~= ss.map_values(|s: Seq<char>| normalized(s)));
        Ok(out)
    }

    /// Fails, as a business rule, when there is neither a phone number nor an e-mail address.
    pub fn validate_contact_methods(phone_numbers: &[PhoneNumber], emails: &[Email]) -> (r: Result<(), DomainError>)
        ensures
            match r {
                Ok(()) => phone_numbers@.len() > 0 || emails@.len() > 0,
                Err(e) => phone_numbers@.len() == 0 && emails@.len() == 0 && (e matches DomainError::BusinessRule(m)
                    && m@ == "At least one phone number or email address is required"@),
            },
    {
        if phone_numbers.len() == 0 && emails.len() == 0 {
            return Err(DomainError::BusinessRule("At least one phone number or email address is required".to_owned()));
        }
        Ok(())
    }

    /// Checks a first or last name: not blank, at most 100 characters, and no
    /// control character but the tab.
    pub fn validate_name_component(name: &str, component_name: &str) -> (r: Result<(), DomainError>)
        ensures
            checked(r, name_component_error(name@, component_name@)),
    {
        Self::validate_non_empty_string(name, component_name)?;
        Self::validate_min_length(name, 1, component_name)?;
        Self::validate_max_length(name, 100, component_name)?;
        let v = crate::text::chars_of(name);
        let mut i: usize = 0;
        while i < v.len()
            invariant
                v@ == name@,
                i <= v@.len(),
                non_empty_error(name@, component_name@) is None,
                min_length_error(name@, 1, component_name@) is None,
                max_length_error(name@, 100, component_name@) is None,
                forall|j: int| 0 <= j < i ==> !is_forbidden_control(#[trigger] v@[j]),
            decreases v@.len() - i,
        {
            let n = v[i] as u32;
            if (n <= 0x1f || (0x7f <= n && n <= 0x9f)) && n != 9 {
                assert(is_forbidden_control(name@[i as int]));
                return Err(DomainError::Validation(concat(component_name, " contains invalid characters")));
            }
            i = i + 1;
        }
        Ok(())
    }

    /// Checks a search query: not blank and at most 200 characters.
    pub fn validate_search_query(query: &str) -> (r: Result<(), DomainError>)
        ensures
            checked(r, search_query_error(query@)),
    {
        Self::validate_non_empty_string(query, "Search query")?;
        Self::validate_min_length(query, 1, "Search query")?;
        Self::validate_max_length(query, 200, "Search query")?;
        Ok(())
    }

    /// Checks a page size: between 1 and 100.
    pub fn validate_pagination(_page: usize, page_size: usize) -> (r: Result<(), DomainError>)
        ensures
            checked(r, pagination_error(page_size)),
    {
        if page_size == 0 {
            return Err(DomainError::Validation("Page size must be greater than 0".to_owned()));
        }
        if page_size > 100 {
            return Err(DomainError::Validation("Page size cannot exceed 100".to_owned()));
        }
        Ok(())
    }
}

} // verus!
