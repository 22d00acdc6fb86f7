//! E-mail addresses: trimmed, lower-cased, and held to a conservative grammar.

use vstd::prelude::*;
use vstd::string::StrSliceExecFns;
use crate::text::{concat, 
    chars_of, find_char_from, find_from, is_ascii_alnum, lemma_find_from_bounds, lower_of,
    to_lower, trim_str, trim_ws,
};

verus! {

/// A character allowed in the part before the `@`.
pub open spec fn is_local_char(c: char) -> bool {
    is_ascii_alnum(c) || c == '.' || c == '!' || c == '#' || c == '$' || c == '%' || c == '&'
        || c == '\'' || c == '*' || c == '+' || c == '/' || c == '=' || c == '?' || c == '^'
        || c == '_' || c == '`' || c == '{' || c == '|' || c == '}' || c == '~' || c == '-'
}

pub open spec fn is_domain_char(c: char) -> bool {
    is_ascii_alnum(c) || c == '-' || c == '.'
}

/// A domain: one or more labels joined by `.`; each label is 1 to 63 letters,
/// digits or hyphens, and begins and ends with a letter or digit.
pub open spec fn valid_domain(d: Seq<char>) -> bool {
    &&& d.len() > 0
    &&& is_ascii_alnum(d[0])
    &&& is_ascii_alnum(d.last())
    &&& forall|i: int| 0 <= i < d.len() ==> is_domain_char(#[trigger] d[i])
    &&& forall|i: int|
        0 < i < d.len() - 1 && #[trigger] d[i] == '.' ==> is_ascii_alnum(d[i - 1]) && is_ascii_alnum(
            d[i + 1],
        )
    &&& forall|w: int| 0 <= w && w + 64 <= d.len() ==> #[trigger] dot_within(d, w)
}

/// Among the 64 characters from position `w` on there is a `.` (so no label
/// runs over 63 characters).
pub open spec fn dot_within(d: Seq<char>, w: int) -> bool {
    exists|m: int| w <= m < w + 64 && #[trigger] d[m] == '.'
}

/// The e-mail grammar: a non-empty local part of allowed characters, `@`,
/// and a valid domain.
pub open spec fn email_grammar(s: Seq<char>) -> bool {
    exists|k: int|
        0 < k < s.len() && #[trigger] s[k] == '@' && (forall|j: int|
            0 <= j < k ==> is_local_char(#[trigger] s[j])) && valid_domain(
            s.subrange(k + 1, s.len() as int),
        )
}

/// What an input becomes before it is checked: trimmed, then lower-cased.
pub open spec fn normalized(input: Seq<char>) -> Seq<char> {
    lower_of(trim_ws(input))
}

/// The text before the first `@` (all of it if there is none).
pub open spec fn local_part_spec(s: Seq<char>) -> Seq<char> {
    s.subrange(0, find_from(s, '@', 0))
}

/// The text between the first `@` and the next one or the end; empty if
/// there is no `@`.
pub open spec fn domain_spec(s: Seq<char>) -> Seq<char> {
    let k = find_from(s, '@', 0);
    if k < s.len() {
        s.subrange(k + 1, find_from(s, '@', k + 1))
    } else {
        Seq::empty()
    }
}

/// Why a text is not an e-mail address.
#[derive(Debug, Clone, PartialEq, Eq)]
pub enum EmailError {
    /// Not in the grammar once normalized; holds the input as given.
    InvalidFormat(String),
    /// Nothing is left once the input is trimmed and lower-cased.
    Empty,
}

impl EmailError {
    /// The error as a sentence.
    pub fn to_string(&self) -> (r: String)
        ensures
            r@ == match *self {
                EmailError::InvalidFormat(s) => "Invalid email format: "@ + s@,
                EmailError::Empty => "Email cannot be empty"@,
            },
    {
        match self {
            EmailError::InvalidFormat(s) => concat("Invalid email format: ", s.as_str()),
            EmailError::Empty => "Email cannot be empty".to_owned(),
        }
    }
}

/// An e-mail address in canonical (lower-cased) form.
#[derive(Debug, Eq, Hash)]
pub struct Email {
    value: String,
}

impl View for Email {
    type V = Seq<char>;

    closed spec fn view(&self) -> Seq<char> {
        self.value@
    }
}

impl PartialEq for Email {
    fn eq(&self, other: &Self) -> (r: bool) {
        self.value == other.value
    }
}

impl vstd::std_specs::cmp::PartialEqSpecImpl for Email {
    open spec fn obeys_eq_spec() -> bool {
        true
    }

    open spec fn eq_spec(&self, other: &Self) -> bool {
        self@ == other@
    }
}

impl Clone for Email {
    fn clone(&self) -> (r: Self)
        ensures
            r@ == self@,
    {
        Email { value: self.value.clone() }
    }
}

fn domain_is_valid(d: &Vec<char>) -> (r: bool)
    ensures
        r == valid_domain(d@),
{
    let n = d.len();
    if n == 0 || !is_alnum(d[0]) || !is_alnum(d[n - 1]) {
        return false;
    }
    let mut i: usize = 0;
    while i < n
        invariant
            n == d@.len(),
            i <= n,
            forall|j: int| 0 <= j < i ==> is_domain_char(#[trigger] d@[j]),
        decreases n - i,
    {
        if !(is_alnum(d[i]) || d[i] == '-' || d[i] == '.') {
            return false;
        }
        i = i + 1;
    }
    i = 1;
    while i < n - 1
        invariant
            n == d@.len(),
            n > 0,
            1 <= i <= n,
            forall|j: int| 0 < j < i && j < n - 1 && #[trigger] d@[j] == '.' ==> is_ascii_alnum(d@[j - 1])
                && is_ascii_alnum(d@[j + 1]),
        decreases n - i,
    {
        if d[i] == '.' && !(is_alnum(d[i - 1]) && is_alnum(d[i + 1])) {
            return false;
        }
        i = i + 1;
    }
    let mut run: usize = 0;
    i = 0;
    while i < n
        invariant
            n == d@.len(),
            i <= n,
            run <= i,
            run < 64,
            forall|j: int| i - run <= j < i ==> d@[j] != '.',
            run < i ==> d@[i - run - 1] == '.',
            forall|w: int| 0 <= w && w + 64 <= i ==> #[trigger] dot_within(d@, w),
        decreases n - i,
    {
        if d[i] == '.' {
            run = 0;
            proof {
                assert forall|w: int| 0 <= w && w + 64 <= i + 1 implies #[trigger] dot_within(d@, w) by {
                    if w + 64 > i {
                        assert(d@[i as int] == '.');
                    }
                }
            }
        } else {
            if run == 63 {
                proof {
                    let w = i - 63;
                    assert forall|m: int| w <= m < w + 64 implies #[trigger] d@[m] != '.' by {}
                    assert(!dot_within(d@, w));
                }
                return false;
            }
            proof {
                assert forall|w: int| 0 <= w && w + 64 <= i + 1 implies #[trigger] dot_within(d@, w) by {
                    if w + 64 > i {
                        assert(d@[i - run - 1] == '.');
                    }
                }
            }
            run = run + 1;
        }
        i = i + 1;
    }
    true
}

fn is_alnum(c: char) -> (r: bool)
    ensures
        r == is_ascii_alnum(c),
{
    ('0' <= c && c <= '9') || ('a' <= c && c <= 'z') || ('A' <= c && c <= 'Z')
}

fn is_local(c: char) -> (r: bool)
    ensures
        r == is_local_char(c),
{
    is_alnum(c) || c == '.' || c == '!' || c == '#' || c == '$' || c == '%' || c == '&' || c
        == '\'' || c == '*' || c == '+' || c == '/' || c == '=' || c == '?' || c == '^' || c == '_'
        || c == '`' || c == '{' || c == '|' || c == '}' || c == '~' || c == '-'
}

impl Email {
    /// Validates an e-mail address: the input is trimmed and lower-cased; if
    /// nothing is left it is `Empty`, if the result is outside the grammar it is
    /// `InvalidFormat` with the input, else the result is the address.
    pub fn new(value: String) -> (r: Result<Email, EmailError>)
        ensures
            match r {
                Ok(e) => normalized(value@).len() > 0 && email_grammar(normalized(value@)) && e@
                    == normalized(value@),
                Err(EmailError::Empty) => normalized(value@).len() == 0,
                Err(EmailError::InvalidFormat(s)) => normalized(value@).len() > 0 && !email_grammar(
                    normalized(value@),
                ) && s == value,
            },
            (r matches Err(EmailError::Empty)) <==> trim_ws(value@).len() == 0,
    {
        let trimmed = trim_str(value.as_str());
        let lowered = to_lower(trimmed);
        Self::from_normalized(lowered, value)
    }

    /// The checks that follow normalization: `norm` is the trimmed and
    /// lower-cased form of `input`.
    pub fn from_normalized(norm: String, input: String) -> (r: Result<Email, EmailError>)
        ensures
            match r {
                Ok(e) => norm@.len() > 0 && email_grammar(norm@) && e@ == norm@,
                Err(EmailError::Empty) => norm@.len() == 0,
                Err(EmailError::InvalidFormat(s)) => norm@.len() > 0 && !email_grammar(norm@) && s == input,
            },
    {
        if norm.as_str().is_empty() {
            return Err(EmailError::Empty);
        }
        if !Self::is_valid_format(norm.as_str()) {
            return Err(EmailError::InvalidFormat(input));
        }
        Ok(Email { value: norm })
    }

    /// The canonical address.
    pub fn value(&self) -> (r: &str)
        ensures
            r@ == self@,
    {
        self.value.as_str()
    }

    /// Whether a text is in the e-mail grammar.
    pub fn is_valid_format(email: &str) -> (r: bool)
        ensures
            r == email_grammar(email@),
    {
        let v = chars_of(email);
        let n = v.len();
        let k = find_char_from(&v, '@', 0);
        proof {
            lemma_find_from_bounds(v@, '@', 0);
        }
        if k == 0 || k >= n {
            proof {
                if email_grammar(v@) {
                    let k2 = choose|k2: int|
                        0 < k2 < v@.len() && #[trigger] v@[k2] == '@' && (forall|j: int|
                            0 <= j < k2 ==> is_local_char(#[trigger] v@[j])) && valid_domain(
                            v@.subrange(k2 + 1, v@.len() as int),
                        );
                    if k == 0 {
                        assert(v@[0] == '@');
                        assert(is_local_char(v@[0]));
                    } else {
                        assert(v@[k2] != '@');
                    }
                }
            }
            return false;
        }
        let mut j: usize = 0;
        while j < k
            invariant
                v@ == email@,
                k < n == v@.len(),
                j <= k,
                v@[k as int] == '@',
                forall|i: int| 0 <= i < k ==> #[trigger] v@[i] != '@',
                forall|i: int| 0 <= i < j ==> is_local_char(#[trigger] v@[i]),
            decreases k - j,
        {
            if !is_local(v[j]) {
                proof {
                    if email_grammar(v@) {
                        let k2 = choose|k2: int|
                            0 < k2 < v@.len() && #[trigger] v@[k2] == '@' && (forall|i: int|
                                0 <= i < k2 ==> is_local_char(#[trigger] v@[i])) && valid_domain(
                                v@.subrange(k2 + 1, v@.len() as int),
                            );
                        if k2 < k {
                            assert(v@[k2] != '@');
                        }
                        if k < k2 {
                            assert(is_local_char(v@[k as int]));
                        }
                        if k2 == k {
                            assert(is_local_char(v@[j as int]));
                        }
                    }
                }
                return false;
            }
            j = j + 1;
        }
        let mut d: Vec<char> = Vec::new();
        let mut i = k + 1;
        while i < n
            invariant
                v@ == email@,
                k < n == v@.len(),
                k + 1 <= i <= n,
                v@[k as int] == '@',
                forall|i: int| 0 <= i < k ==> #[trigger] v@[i] != '@',
                forall|i: int| 0 <= i < k ==> is_local_char(#[trigger] v@[i]),
                d@ == v@.subrange(k + 1, i as int),
            decreases n - i,
        {
            d.push(v[i]);
            assert(d@ == v@.subrange(k + 1, i + 1));
            i = i + 1;
        }
        let ok = domain_is_valid(&d);
        proof {
            if email_grammar(v@) {
                let k2 = choose|k2: int|
                    0 < k2 < v@.len() && #[trigger] v@[k2] == '@' && (forall|i: int|
                        0 <= i < k2 ==> is_local_char(#[trigger] v@[i])) && valid_domain(
                        v@.subrange(k2 + 1, v@.len() as int),
                    );
                if k2 < k {
                    assert(v@[k2] != '@');
                }
                if k < k2 {
                    assert(is_local_char(v@[k as int]));
                }
            }
            if ok {
                assert(v@[k as int] == '@');
            }
        }
        ok
    }

    /// The part after the first `@`, up to the next `@` if any.
    pub fn domain(&self) -> (r: &str)
        ensures
            r@ == domain_spec(self@),
    {
        let v = chars_of(self.value.as_str());
        let k = find_char_from(&v, '@', 0);
        proof {
            lemma_find_from_bounds(v@, '@', 0);
        }
        if k >= v.len() {
            return self.value.as_str().substring_char(0, 0);
        }
        let e = find_char_from(&v, '@', k + 1);
        proof {
            lemma_find_from_bounds(v@, '@', k + 1);
        }
        self.value.as_str().substring_char(k + 1, e)
    }

    /// The part before the first `@`.
    pub fn local_part(&self) -> (r: &str)
        ensures
            r@ == local_part_spec(self@),
    {
        let v = chars_of(self.value.as_str());
        let k = find_char_from(&v, '@', 0);
        proof {
            lemma_find_from_bounds(v@, '@', 0);
        }
        self.value.as_str().substring_char(0, k)
    }
}

} // verus!
