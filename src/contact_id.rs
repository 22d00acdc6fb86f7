//! Contact identifiers: 128-bit values, generated at random and written in
//! the hyphenated lower-case hexadecimal form of a UUID.

use vstd::prelude::*;

verus! {

pub open spec fn hex_chars() -> Seq<char> {
    seq!['0', '1', '2', '3', '4', '5', '6', '7', '8', '9', 'a', 'b', 'c', 'd', 'e', 'f']
}

/// The last `n` hexadecimal digits of `v`, most significant first.
pub open spec fn hex_of(v: nat, n: nat) -> Seq<char>
    decreases n,
{
    if n == 0 {
        Seq::empty()
    } else {
        hex_of(v / 16, (n - 1) as nat).push(hex_chars()[(v % 16) as int])
    }
}

/// The hyphenated form: 32 lower-case hexadecimal digits in groups of
/// 8, 4, 4, 4 and 12, joined by `-`.
pub open spec fn uuid_text(v: u128) -> Seq<char> {
    let h = hex_of(v as nat, 32);
    h.subrange(0, 8) + seq!['-'] + h.subrange(8, 12) + seq!['-'] + h.subrange(12, 16) + seq!['-']
        + h.subrange(16, 20) + seq!['-'] + h.subrange(20, 32)
}

/// The version bits of a random (version 4, RFC 4122 variant) identifier.
pub open spec fn is_random_v4(v: u128) -> bool {
    (v >> 76u128) & 0xfu128 == 4 && (v >> 62u128) & 0x3u128 == 2
}

/// What `uuid::Uuid::parse_str` yields for a text, as a 128-bit value.
pub uninterp spec fn uuid_parse_result(s: Seq<char>) -> Option<u128>;

/// Relies on `uuid::Uuid::new_v4`: random bits with the version and variant set.
#[verifier::external_body]
fn random_v4() -> (r: u128)
    ensures
        is_random_v4(r),
{
    uuid::Uuid::new_v4().as_u128()
}

/// Relies on the `Display` of `uuid::Uuid` (through `Uuid::from_u128`): the
/// hyphenated lower-case form.
#[verifier::external_body]
fn uuid_to_text(v: u128) -> (r: String)
    ensures
        r@ == uuid_text(v),
{
    uuid::Uuid::from_u128(v).to_string()
}

/// Relies on `uuid::Uuid::parse_str`, which reads the hyphenated form back.
#[verifier::external_body]
fn parse_uuid(s: &str) -> (r: Option<u128>)
    ensures
        r == uuid_parse_result(s@),
        forall|v: u128| #[trigger] uuid_text(v) == s@ ==> r == Some(v),
{
    uuid::Uuid::parse_str(s).ok().map(|u| u.as_u128())
}

/// The identity of a contact.
#[derive(Debug, Clone, Copy, PartialEq, Eq, Hash, Structural)]
pub struct ContactId {
    value: u128,
}

impl View for ContactId {
    type V = u128;

    closed spec fn view(&self) -> u128 {
        self.value
    }
}

impl ContactId {
    /// A fresh random identifier.
    pub fn new() -> (r: ContactId)
        ensures
            is_random_v4(r@),
    {
        ContactId { value: random_v4() }
    }

    /// The identifier with the given 128-bit value.
    pub fn from_uuid(uuid: u128) -> (r: ContactId)
        ensures
            r@ == uuid,
    {
        ContactId { value: uuid }
    }

    /// The 128-bit value.
    pub fn as_uuid(&self) -> (r: u128)
        ensures
            r == self@,
    {
        self.value
    }

    /// The hyphenated text form.
    pub fn to_string(&self) -> (r: String)
        ensures
            r@ == uuid_text(self@),
    {
        uuid_to_text(self.value)
    }

    /// Reads an identifier from text; the hyphenated form of any identifier
    /// reads back as that identifier.
    pub fn parse(s: &str) -> (r: Option<ContactId>)
        ensures
            match r {
                Some(id) => uuid_parse_result(s@) == Some(id@),
                None => uuid_parse_result(s@) is None,
            },
            forall|v: u128| #[trigger] uuid_text(v) == s@ ==> (r matches Some(id) && id@ == v),
    {
        match parse_uuid(s) {
            Some(v) => Some(ContactId { value: v }),
            None => None,
        }
    }
}

} // verus!
