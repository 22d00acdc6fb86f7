//! Phone numbers: cleaned to digits and an optional leading `+`, then held to
//! the shape `(+ and 1 to 3 digits)? then 10 to 15 digits`.

use vstd::prelude::*;
use vstd::string::StrSliceExecFns;
use crate::text::{concat, is_ascii_digit, push_all, push_char, push_range};

verus! {

/// A digit or a `+`.
pub open spec fn is_phone_char(c: char) -> bool {
    is_ascii_digit(c) || c == '+'
}

pub open spec fn keeps_digit() -> spec_fn(char) -> bool {
    |c: char| is_ascii_digit(c)
}

/// The ASCII digits of `s`, in order.
pub open spec fn digits_of(s: Seq<char>) -> Seq<char> {
    s.filter(keeps_digit())
}

/// The first digit or `+` of `s` is a `+`.
pub open spec fn has_leading_plus(s: Seq<char>) -> bool {
    exists|i: int|
        0 <= i < s.len() && #[trigger] s[i] == '+' && forall|j: int| 0 <= j < i ==> !is_phone_char(#[trigger] s[j])
}

/// The input cleaned: its ASCII digits, after a `+` if a `+` comes before
/// every digit; every other character is dropped.
pub open spec fn clean_spec(s: Seq<char>) -> Seq<char> {
    if has_leading_plus(s) {
        seq!['+'] + digits_of(s)
    } else {
        digits_of(s)
    }
}

pub open spec fn all_digits(s: Seq<char>) -> bool {
    forall|i: int| 0 <= i < s.len() ==> is_ascii_digit(#[trigger] s[i])
}

/// The accepted shape of a cleaned number: 10 to 15 digits, or `+` followed by
/// a country code of 1 to 3 digits and 10 to 15 more, that is 11 to 18 digits.
pub open spec fn phone_shape(s: Seq<char>) -> bool {
    if s.len() > 0 && s[0] == '+' {
        all_digits(s.drop_first()) && 11 <= s.len() - 1 <= 18
    } else {
        all_digits(s) && 10 <= s.len() <= 15
    }
}

} // verus!

verus! {

/// Why a text is not a phone number.
#[derive(Debug, Clone, PartialEq, Eq)]
pub enum PhoneNumberError {
    /// Something is left after cleaning, but not in the accepted shape; holds the input.
    InvalidFormat(String),
    /// The input is blank.
    Empty,
}

impl PhoneNumberError {
    /// The error as a sentence.
    pub fn to_string(&self) -> (r: String)
        ensures
            r@ == match *self {
                PhoneNumberError::InvalidFormat(s) => "Invalid phone number format: "@ + s@,
                PhoneNumberError::Empty => "Phone number cannot be empty"@,
            },
    {
        match self {
            PhoneNumberError::InvalidFormat(s) => concat("Invalid phone number format: ", s.as_str()),
            PhoneNumberError::Empty => "Phone number cannot be empty".to_owned(),
        }
    }
}

/// A phone number in its cleaned form.
#[derive(Debug, Eq, Hash)]
pub struct PhoneNumber {
    value: String,
}

impl View for PhoneNumber {
    type V = Seq<char>;

    closed spec fn view(&self) -> Seq<char> {
        self.value@
    }
}

/// How a cleaned number is shown: ten digits as `(AAA) BBB-CCCC`, anything
/// else (an international number in particular) unchanged.
pub open spec fn formatted_spec(s: Seq<char>) -> Seq<char> {
    if s.len() > 0 && s[0] == '+' {
        s
    } else if s.len() == 10 {
        seq!['('] + s.subrange(0, 3) + seq![')', ' '] + s.subrange(3, 6) + seq!['-'] + s.subrange(6, 10)
    } else {
        s
    }
}

impl PartialEq for PhoneNumber {
    fn eq(&self, other: &Self) -> (r: bool) {
        self.value == other.value
    }
}

impl vstd::std_specs::cmp::PartialEqSpecImpl for PhoneNumber {
    open spec fn obeys_eq_spec() -> bool {
        true
    }

    open spec fn eq_spec(&self, other: &Self) -> bool {
        self@ == other@
    }
}

impl Clone for PhoneNumber {
    fn clone(&self) -> (r: Self)
        ensures
            r@ == self@,
    {
        PhoneNumber { value: self.value.clone() }
    }
}

impl PhoneNumber {
    /// The invariant of every phone number: its value is in the accepted shape.
    pub open spec fn valid(&self) -> bool {
        phone_shape(self@)
    }

    /// Cleans and validates a phone number: if nothing is left after cleaning
    /// it is `Empty`; otherwise the cleaned text must have the accepted shape,
    /// else `InvalidFormat` with the input.
    pub fn new(value: String) -> (r: Result<PhoneNumber, PhoneNumberError>)
        ensures
            match r {
                Ok(p) => phone_shape(clean_spec(value@)) && p@ == clean_spec(value@),
                Err(PhoneNumberError::Empty) => clean_spec(value@).len() == 0,
                Err(PhoneNumberError::InvalidFormat(s)) => clean_spec(value@).len() > 0 && !phone_shape(
                    clean_spec(value@),
                ) && s@ == value@,
            },
            r matches Ok(p) ==> p.valid(),
    {
        let cleaned = Self::clean_phone_number(value.as_str());
        if cleaned.as_str().is_empty() {
            return Err(PhoneNumberError::Empty);
        }
        if !Self::is_valid_format(cleaned.as_str()) {
            return Err(PhoneNumberError::InvalidFormat(value));
        }
        Ok(PhoneNumber { value: cleaned })
    }

    /// A phone number from text that is already in cleaned form, as when it
    /// is read back from storage; anything outside the shape is `InvalidFormat`.
    pub fn from_cleaned(value: String) -> (r: Result<PhoneNumber, PhoneNumberError>)
        ensures
            match r {
                Ok(p) => phone_shape(value@) && p@ == value@,
                Err(PhoneNumberError::InvalidFormat(s)) => !phone_shape(value@) && s@ == value@,
                Err(PhoneNumberError::Empty) => false,
            },
    {
        if !Self::is_valid_format(value.as_str()) {
            return Err(PhoneNumberError::InvalidFormat(value));
        }
        Ok(PhoneNumber { value })
    }

    /// The cleaned value.
    pub fn value(&self) -> (r: &str)
        ensures
            r@ == self@,
    {
        self.value.as_str()
    }

    /// Keeps the ASCII digits, and a `+` in front of them if a `+` comes
    /// before every digit; drops everything else.
    pub fn clean_phone_number(phone: &str) -> (r: String)
        ensures
            r@ == clean_spec(phone@),
    {
        let mut digits = String::new();
        let mut seen = false;
        let mut plus = false;
        let ghost s = phone@;
        for c in it: phone.chars()
            invariant
                it.seq() == s,
                digits@ == s.subrange(0, it.index() as int).filter(keeps_digit()),
                seen == (exists|j: int| 0 <= j < it.index() && is_phone_char(#[trigger] s[j])),
                plus == (exists|i: int|
                    0 <= i < it.index() && #[trigger] s[i] == '+' && forall|j: int|
                        0 <= j < i ==> !is_phone_char(#[trigger] s[j])),
        {
            let ghost i = it.index();
            assert(c == s[i]);
            assert(s.subrange(0, i + 1) == s.subrange(0, i).push(c));
            proof {
                s.subrange(0, i).lemma_filter_push(c, keeps_digit());
            }
            let digit = '0' <= c && c <= '9';
            if digit {
                push_char(&mut digits, c);
            }
            proof {
                if !seen && c == '+' {
                    assert(s[i] == '+' && forall|j: int| 0 <= j < i ==> !is_phone_char(#[trigger] s[j]));
                }
                if seen {
                    let j0 = choose|j: int| 0 <= j < i && is_phone_char(#[trigger] s[j]);
                    assert(is_phone_char(s[j0]));
                }
                if digit || c == '+' {
                    assert(is_phone_char(s[i]));
                }
            }
            if !seen && c == '+' {
                plus = true;
            }
            if digit || c == '+' {
                seen = true;
            }
        }
        assert(s.subrange(0, s.len() as int) == s);
        let mut out = String::new();
        if plus {
            push_char(&mut out, '+');
        }
        push_all(&mut out, digits.as_str());
        assert(out@ =~= clean_spec(s));
        out
    }

    /// Whether a cleaned text has the accepted shape.
    pub fn is_valid_format(phone: &str) -> (r: bool)
        ensures
            r == phone_shape(phone@),
    {
        let ghost s = phone@;
        let mut n: u8 = 0;
        let mut plus = false;
        let mut ok = true;
        for c in it: phone.chars()
            invariant
                it.seq() == s,
                n as int == if it.index() < 20 { it.index() as int } else { 20 },
                plus == (it.index() > 0 && s[0] == '+'),
                ok == (forall|j: int| (if plus { 1int } else { 0 }) <= j < it.index() ==> is_ascii_digit(#[trigger] s[j])),
        {
            if n == 0 && c == '+' {
                plus = true;
            } else if !('0' <= c && c <= '9') {
                ok = false;
            }
            if n < 20 {
                n = n + 1;
            }
        }
        if plus {
            assert(ok == all_digits(s.drop_first())) by {
                if ok {
                    assert forall|j: int| 0 <= j < s.drop_first().len() implies is_ascii_digit(#[trigger] s.drop_first()[j]) by {
                        assert(s.drop_first()[j] == s[j + 1]);
                    }
                }
                if all_digits(s.drop_first()) {
                    assert forall|j: int| 1 <= j < s.len() implies is_ascii_digit(#[trigger] s[j]) by {
                        assert(s.drop_first()[j - 1] == s[j]);
                    }
                }
            }
            ok && 12 <= n && n <= 19
        } else {
            ok && 10 <= n && n <= 15
        }
    }

    /// The number for display: ten digits as `(AAA) BBB-CCCC`, anything else as it is.
    pub fn formatted(&self) -> (r: String)
        ensures
            r@ == formatted_spec(self@),
    {
        let s = self.value.as_str();
        let n = s.unicode_len();
        if n > 0 && s.get_char(0) == '+' {
            return self.value.clone();
        }
        if n != 10 {
            return self.value.clone();
        }
        let mut out = String::new();
        push_char(&mut out, '(');
        push_range(&mut out, s, 0, 3);
        push_char(&mut out, ')');
        push_char(&mut out, ' ');
        push_range(&mut out, s, 3, 6);
        push_char(&mut out, '-');
        push_range(&mut out, s, 6, 10);
        assert(out@ =~= formatted_spec(self@));
        out
    }
}

} // verus!
