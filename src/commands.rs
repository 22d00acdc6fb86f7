//! Values of the command line that carry rules of their own.

use vstd::prelude::*;
use crate::list_contacts::SortBy;
use crate::text::{concat, lower_of, to_lower};

verus! {

/// The field a listing is sorted by, as named on the command line.
#[derive(Debug, Clone, Copy, PartialEq, Eq, Structural)]
pub enum SortField {
    FirstName,
    LastName,
    FullName,
}

/// The field a name stands for, ignoring case: `first-name` or `firstname`,
/// `last-name` or `lastname`, `full-name` or `fullname`.
pub open spec fn sort_field_of(s: Seq<char>) -> Option<SortField> {
    let l = lower_of(s);
    if l == "first-name"@ || l == "firstname"@ {
        Some(SortField::FirstName)
    } else if l == "last-name"@ || l == "lastname"@ {
        Some(SortField::LastName)
    } else if l == "full-name"@ || l == "fullname"@ {
        Some(SortField::FullName)
    } else {
        None
    }
}

fn text_is(s: &String, lit: &str) -> (r: bool)
    ensures
        r == (s@ == lit@),
{
    let t = lit.to_owned();
    *s == t
}

impl SortField {
    /// Reads a field name; an unknown name is refused with a message.
    pub fn parse(s: &str) -> (r: Result<SortField, String>)
        ensures
            match r {
                Ok(f) => sort_field_of(s@) == Some(f),
                Err(m) => sort_field_of(s@) is None && m@ == "Invalid sort field: "@ + s@,
            },
    {
        let l = to_lower(s);
        if text_is(&l, "first-name") || text_is(&l, "firstname") {
            Ok(SortField::FirstName)
        } else if text_is(&l, "last-name") || text_is(&l, "lastname") {
            Ok(SortField::LastName)
        } else if text_is(&l, "full-name") || text_is(&l, "fullname") {
            Ok(SortField::FullName)
        } else {
            Err(concat("Invalid sort field: ", s))
        }
    }

    /// The canonical name of the field.
    pub fn to_string(&self) -> (r: String)
        ensures
            r@ == match *self {
                SortField::FirstName => "first-name"@,
                SortField::LastName => "last-name"@,
                SortField::FullName => "full-name"@,
            },
    {
        match self {
            SortField::FirstName => "first-name".to_owned(),
            SortField::LastName => "last-name".to_owned(),
            SortField::FullName => "full-name".to_owned(),
        }
    }

    /// The sort order of the listing use case.
    pub fn sort_by(&self) -> (r: SortBy)
        ensures
            r == match *self {
                SortField::FirstName => SortBy::FirstName,
                SortField::LastName => SortBy::LastName,
                SortField::FullName => SortBy::FullName,
            },
    {
        match self {
            SortField::FirstName => SortBy::FirstName,
            SortField::LastName => SortBy::LastName,
            SortField::FullName => SortBy::FullName,
        }
    }
}

impl std::str::FromStr for SortField {
    type Err = String;

    fn from_str(s: &str) -> Result<SortField, String> {
        SortField::parse(s)
    }
}

} // verus!
