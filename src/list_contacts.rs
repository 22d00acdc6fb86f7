//! The list use case: all contacts, stably sorted by a name, optionally
//! reversed, one page at a time.

use vstd::prelude::*;
use crate::contact::{full_name_spec, Contact, ContactView};
use crate::errors::RepositoryError;
use crate::repository::{contact_views, ContactRepositorySync};
use crate::text::chars_of;

verus! {

/// The name contacts are sorted by.
#[derive(Debug, Clone, Copy, PartialEq, Eq, Structural)]
pub enum SortBy {
    FirstName,
    LastName,
    FullName,
}

/// The text a contact is sorted by.
pub open spec fn sort_key(c: ContactView, by: SortBy) -> Seq<char> {
    match by {
        SortBy::FirstName => c.first_name,
        SortBy::LastName => c.last_name,
        SortBy::FullName => full_name_spec(c),
    }
}

/// Lexicographic order of texts by code point, which is the order of `String`.
pub open spec fn text_le(a: Seq<char>, b: Seq<char>) -> bool
    decreases a.len(),
{
    if a.len() == 0 {
        true
    } else if b.len() == 0 {
        false
    } else if a[0] != b[0] {
        (a[0] as u32) < (b[0] as u32)
    } else {
        text_le(a.drop_first(), b.drop_first())
    }
}

/// `sorted` with `x` placed after every element whose key is not greater
/// than its own, and before the rest.
pub open spec fn insert_sorted(sorted: Seq<ContactView>, x: ContactView, by: SortBy) -> Seq<ContactView>
    decreases sorted.len(),
{
    if sorted.len() == 0 {
        seq![x]
    } else if text_le(sort_key(sorted.last(), by), sort_key(x, by)) {
        sorted.push(x)
    } else {
        insert_sorted(sorted.drop_last(), x, by).push(sorted.last())
    }
}

/// The stable sort of `s` by key: contacts with equal keys keep their order.
pub open spec fn sorted_by(s: Seq<ContactView>, by: SortBy) -> Seq<ContactView>
    decreases s.len(),
{
    if s.len() == 0 {
        s
    } else {
        insert_sorted(sorted_by(s.drop_last(), by), s.last(), by)
    }
}

/// The order of a listing: sorted, then reversed if asked.
pub open spec fn listing_order(s: Seq<ContactView>, by: SortBy, reverse: bool) -> Seq<ContactView> {
    if reverse {
        sorted_by(s, by).reverse()
    } else {
        sorted_by(s, by)
    }
}

/// Where a page ends: `page_size` after its start, or at the total.
pub open spec fn page_end(page: usize, page_size: usize, total: int) -> int {
    let start = page * page_size;
    if start + page_size < total {
        start + page_size
    } else {
        total
    }
}

/// The contacts of one page; a page past the end is empty.
pub open spec fn page_of(s: Seq<ContactView>, page: usize, page_size: usize) -> Seq<ContactView> {
    let start = page * page_size;
    if start < s.len() {
        s.subrange(start, page_end(page, page_size, s.len() as int))
    } else {
        Seq::empty()
    }
}

/// A page that starts at or past the last contact is empty, and nothing
/// follows it.
pub proof fn lemma_page_past_end(s: Seq<ContactView>, page: usize, page_size: usize)
    requires
        page * page_size >= s.len(),
    ensures
        page_of(s, page, page_size).len() == 0,
        !(page_end(page, page_size, s.len() as int) < s.len()),
{
}

/// Request for a page of contacts.
#[derive(Debug)]
pub struct ListContactsRequest {
    pub page: usize,
    pub page_size: usize,
    pub sort_by: SortBy,
    pub reverse: bool,
}

impl Default for ListContactsRequest {
    /// The first page of ten, by last name.
    fn default() -> (r: Self)
        ensures
            r.page == 0 && r.page_size == 10 && r.sort_by == SortBy::LastName && !r.reverse,
    {
        ListContactsRequest { page: 0, page_size: 10, sort_by: SortBy::LastName, reverse: false }
    }
}

/// A page of contacts.
#[derive(Debug)]
pub struct ListContactsResponse {
    pub contacts: Vec<Contact>,
    pub total_count: usize,
    pub page: usize,
    pub page_size: usize,
    pub has_more: bool,
}

/// Whether `a <= b` in the order of texts.
fn text_le_exec(a: &Vec<char>, b: &Vec<char>) -> (r: bool)
    ensures
        r == text_le(a@, b@),
{
    let mut i: usize = 0;
    assert(a@.subrange(0, a@.len() as int) == a@);
    assert(b@.subrange(0, b@.len() as int) == b@);
    while i < a.len() && i < b.len() && a[i] == b[i]
        invariant
            i <= a@.len(),
            i <= b@.len(),
            text_le(a@, b@) == text_le(a@.subrange(i as int, a@.len() as int), b@.subrange(i as int, b@.len() as int)),
        decreases a@.len() - i,
    {
        assert(a@.subrange(i as int, a@.len() as int).drop_first() == a@.subrange(i + 1, a@.len() as int));
        assert(b@.subrange(i as int, b@.len() as int).drop_first() == b@.subrange(i + 1, b@.len() as int));
        i = i + 1;
    }
    if i == a.len() {
        true
    } else if i == b.len() {
        false
    } else {
        (a[i] as u32) < (b[i] as u32)
    }
}

proof fn lemma_sorted_len(s: Seq<ContactView>, by: SortBy)
    ensures
        sorted_by(s, by).len() == s.len(),
    decreases s.len(),
{
    if s.len() > 0 {
        lemma_sorted_len(s.drop_last(), by);
        lemma_insert_len(sorted_by(s.drop_last(), by), s.last(), by);
    }
}

proof fn lemma_insert_len(sorted: Seq<ContactView>, x: ContactView, by: SortBy)
    ensures
        insert_sorted(sorted, x, by).len() == sorted.len() + 1,
    decreases sorted.len(),
{
    if sorted.len() > 0 && !text_le(sort_key(sorted.last(), by), sort_key(x, by)) {
        lemma_insert_len(sorted.drop_last(), x, by);
    }
}

/// Inserting at a position after every key not greater than the new key, and
/// before every greater one, is `insert_sorted`.
proof fn lemma_insert_sorted_at(sorted: Seq<ContactView>, x: ContactView, by: SortBy, j: int)
    requires
        0 <= j <= sorted.len(),
        j > 0 ==> text_le(sort_key(sorted[j - 1], by), sort_key(x, by)),
        forall|k: int| j <= k < sorted.len() ==> !text_le(sort_key(#[trigger] sorted[k], by), sort_key(x, by)),
    ensures
        insert_sorted(sorted, x, by) == sorted.insert(j, x),
    decreases sorted.len() - j,
{
    if sorted.len() == 0 {
        assert(sorted.insert(j, x) =~= seq![x]);
    } else if j == sorted.len() {
        assert(sorted.insert(j, x) =~= sorted.push(x));
    } else {
        let d = sorted.drop_last();
        assert(!text_le(sort_key(sorted[sorted.len() - 1], by), sort_key(x, by)));
        assert forall|k: int| j <= k < d.len() implies !text_le(sort_key(#[trigger] d[k], by), sort_key(x, by)) by {
            assert(d[k] == sorted[k]);
        }
        if j > 0 {
            assert(d[j - 1] == sorted[j - 1]);
        }
        lemma_insert_sorted_at(d, x, by, j);
        assert(d.insert(j, x).push(sorted.last()) =~= sorted.insert(j, x));
    }
}

/// The key of a contact, as characters.
fn sort_key_exec(c: &Contact, by: SortBy) -> (r: Vec<char>)
    ensures
        r@ == sort_key(c@, by),
{
    match by {
        SortBy::FirstName => chars_of(c.first_name()),
        SortBy::LastName => chars_of(c.last_name()),
        SortBy::FullName => chars_of(c.full_name().as_str()),
    }
}

/// The stable sort of `contacts` by key.
fn sort_contacts(contacts: &Vec<Contact>, by: SortBy) -> (r: Vec<Contact>)
    ensures
        contact_views(r@) == sorted_by(contact_views(contacts@), by),
{
    let ghost all = contact_views(contacts@);
    let mut sorted: Vec<Contact> = Vec::new();
    let mut keys: Vec<Vec<char>> = Vec::new();
    let mut i: usize = 0;
    while i < contacts.len()
        invariant
            i <= contacts@.len(),
            all == contact_views(contacts@),
            keys@.len() == sorted@.len(),
            forall|k: int| 0 <= k < keys@.len() ==> #[trigger] keys@[k]@ == sort_key(sorted@[k]@, by),
            contact_views(sorted@) == sorted_by(all.subrange(0, i as int), by),
        decreases contacts@.len() - i,
    {
        let c = contacts[i].clone();
        let key = sort_key_exec(&c, by);
        let ghost sv = contact_views(sorted@);
        let mut j = sorted.len();
        while j > 0 && !text_le_exec(&keys[j - 1], &key)
            invariant
                j <= sorted@.len(),
                keys@.len() == sorted@.len(),
                forall|k: int| 0 <= k < keys@.len() ==> #[trigger] keys@[k]@ == sort_key(sorted@[k]@, by),
                sv == contact_views(sorted@),
                key@ == sort_key(c@, by),
                forall|k: int| j <= k < sv.len() ==> !text_le(sort_key(#[trigger] sv[k], by), sort_key(c@, by)),
            decreases j,
        {
            assert(sv[j - 1] == sorted@[j - 1]@);
            j = j - 1;
        }
        proof {
            if j > 0 {
                assert(sv[j - 1] == sorted@[j - 1]@);
            }
            lemma_insert_sorted_at(sv, c@, by, j as int);
            assert(all.subrange(0, i + 1).drop_last() =~= all.subrange(0, i as int));
            assert(all.subrange(0, i + 1).last() == c@);
        }
        let ghost cv = c@;
        sorted.insert(j, c);
        keys.insert(j, key);
        assert(contact_views(sorted@) =~= sv.insert(j as int, cv));
        i = i + 1;
    }
    assert(all.subrange(0, contacts@.len() as int) == all);
    sorted
}

/// `v` in reverse order.
fn reversed(v: Vec<Contact>) -> (r: Vec<Contact>)
    ensures
        contact_views(r@) == contact_views(v@).reverse(),
{
    let ghost all = contact_views(v@);
    let mut v = v;
    let mut out: Vec<Contact> = Vec::new();
    while v.len() > 0
        invariant
            all.len() == out@.len() + v@.len(),
            contact_views(v@) == all.subrange(0, v@.len() as int),
            forall|k: int| 0 <= k < out@.len() ==> #[trigger] out@[k]@ == all[all.len() - 1 - k],
        decreases v@.len(),
    {
        let ghost n = v@.len();
        let ghost prev = v@;
        let c = v.pop().unwrap();
        assert(all[n - 1] == contact_views(prev)[n - 1]);
        assert(c@ == all[n - 1]);
        out.push(c);
        assert(contact_views(v@) =~= all.subrange(0, v@.len() as int));
    }
    assert(contact_views(out@) =~= all.reverse());
    out
}

/// What listing answers, over the stored contacts `s`.
pub open spec fn list_outcome(s: Seq<ContactView>, request: ListContactsRequest, r: Result<ListContactsResponse, RepositoryError>) -> bool {
    r matches Ok(resp) && ({
        let ordered = listing_order(s, request.sort_by, request.reverse);
        let total = s.len();
        &&& contact_views(resp.contacts@) == page_of(ordered, request.page, request.page_size)
        &&& resp.total_count == total
        &&& resp.page == request.page
        &&& resp.page_size == request.page_size
        &&& resp.has_more == (page_end(request.page, request.page_size, total as int) < total)
    })
}

/// Lists contacts a page at a time.
pub struct ListContactsUseCase;

impl ListContactsUseCase {
    pub fn new() -> Self {
        ListContactsUseCase
    }

    /// Sorts every contact by the chosen name (stably), reverses the order if
    /// asked, and returns the requested page with the total and whether more
    /// pages follow. A page past the end is empty.
    pub fn execute<R: ContactRepositorySync>(&self, repository: &R, request: ListContactsRequest) -> (r: Result<ListContactsResponse, RepositoryError>)
        ensures
            list_outcome(repository.contacts(), request, r),
    {
        let all = repository.find_all()?;
        let sorted = sort_contacts(&all, request.sort_by);
        let ordered = if request.reverse {
            reversed(sorted)
        } else {
            sorted
        };
        let total = ordered.len();
        proof {
            assert(contact_views(all@).len() == all@.len());
            assert(contact_views(ordered@).len() == ordered@.len());
            assert(contact_views(ordered@) == listing_order(repository.contacts(), request.sort_by, request.reverse));
            lemma_sorted_len(repository.contacts(), request.sort_by);
            assert(request.page as int <= 0xffff_ffff_ffff_ffffint);
            assert(request.page_size as int <= 0xffff_ffff_ffff_ffffint);
            assert((request.page as int) * (request.page_size as int) <= 0xffff_ffff_ffff_ffffint * 0xffff_ffff_ffff_ffffint)
                by (nonlinear_arith)
                requires
                    request.page <= 0xffff_ffff_ffff_ffffint,
                    request.page_size <= 0xffff_ffff_ffff_ffffint,
            ;
        }
        assert(total == repository.contacts().len());
        let start: u128 = (request.page as u128) * (request.page_size as u128);
        let end: u128 = if start + (request.page_size as u128) < (total as u128) {
            start + (request.page_size as u128)
        } else {
            total as u128
        };
        let mut page: Vec<Contact> = Vec::new();
        if start < total as u128 {
            let s = start as usize;
            let e = end as usize;
            let mut k = s;
            while k < e
                invariant
                    s <= k <= e <= ordered@.len(),
                    page@.len() == k - s,
                    forall|m: int| 0 <= m < page@.len() ==> #[trigger] page@[m]@ == ordered@[s + m]@,
                decreases e - k,
            {
                page.push(ordered[k].clone());
                k = k + 1;
            }
            assert(contact_views(page@) =~= contact_views(ordered@).subrange(s as int, e as int));
        } else {
            assert(contact_views(page@) =~= Seq::<ContactView>::empty());
        }
        Ok(ListContactsResponse {
            contacts: page,
            total_count: total,
            page: request.page,
            page_size: request.page_size,
            has_more: end < total as u128,
        })
    }
}

} // verus!
