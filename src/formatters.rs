//! Text shown to the user for contacts, lists, searches and totals.

use vstd::prelude::*;
use vstd::string::StrSliceExecFns;
use crate::contact::{full_name_spec, Contact, ContactView};
use crate::contact_id::uuid_text;
use crate::phone_number::formatted_spec;
use crate::text::{decimal_text, push_all, push_char, usize_text};

verus! {

/// `s` followed by spaces up to `width` characters, as `{:<width}` pads.
pub open spec fn pad_right(s: Seq<char>, width: nat) -> Seq<char> {
    if s.len() < width {
        s + Seq::new((width - s.len()) as nat, |i: int| ' ')
    } else {
        s
    }
}

/// One `  - item` line per item.
pub open spec fn item_lines(items: Seq<Seq<char>>) -> Seq<char>
    decreases items.len(),
{
    if items.len() == 0 {
        Seq::empty()
    } else {
        item_lines(items.drop_last()) + "  - "@ + items.last() + "\n"@
    }
}

/// The items separated by `, `.
pub open spec fn joined(items: Seq<Seq<char>>) -> Seq<char>
    decreases items.len(),
{
    if items.len() == 0 {
        Seq::empty()
    } else if items.len() == 1 {
        items[0]
    } else {
        joined(items.drop_last()) + ", "@ + items.last()
    }
}

pub open spec fn formatted_phones(ps: Seq<Seq<char>>) -> Seq<Seq<char>> {
    ps.map_values(|p: Seq<char>| formatted_spec(p))
}

/// The full description of a contact, one field per line.
pub open spec fn contact_text(c: ContactView) -> Seq<char> {
    "ID: "@ + uuid_text(c.id) + "\n"@ + "Name: "@ + full_name_spec(c) + "\n"@
        + (if c.phone_numbers.len() > 0 {
        "Phone Numbers:\n"@ + item_lines(formatted_phones(c.phone_numbers))
    } else {
        Seq::empty()
    }) + (if c.emails.len() > 0 {
        "Emails:\n"@ + item_lines(c.emails)
    } else {
        Seq::empty()
    }) + (match c.notes {
        Some(n) => "Notes: "@ + n + "\n"@,
        None => Seq::empty(),
    }) + (if c.tags.len() > 0 {
        "Tags: "@ + joined(c.tags) + "\n"@
    } else {
        Seq::empty()
    })
}

/// One line for a contact in a list: the start of its identifier, its name,
/// its first phone number and first e-mail address, in columns.
pub open spec fn compact_text(c: ContactView) -> Seq<char> {
    let phone = if c.phone_numbers.len() > 0 {
        formatted_spec(c.phone_numbers[0])
    } else {
        "No phone"@
    };
    let email = if c.emails.len() > 0 {
        c.emails[0]
    } else {
        "No email"@
    };
    pad_right(uuid_text(c.id).subrange(0, 8), 8) + " "@ + pad_right(full_name_spec(c), 25) + " "@
        + pad_right(phone, 15) + " "@ + email
}

pub open spec fn header_text() -> Seq<char> {
    pad_right("ID"@, 8) + " "@ + pad_right("Name"@, 25) + " "@ + pad_right("Phone"@, 15) + " "@ + "Email"@
}

pub open spec fn pagination_text(page: nat, page_size: nat, total: nat, has_more: bool) -> Seq<char> {
    let start = page * page_size + 1;
    let end = if (page + 1) * page_size < total {
        (page + 1) * page_size
    } else {
        total
    };
    "Showing "@ + decimal_text(start) + " - "@ + decimal_text(end as nat) + " of "@ + decimal_text(total)
        + " contacts"@ + if has_more {
        " (Page "@ + decimal_text(page + 1) + ")"@
    } else {
        Seq::empty()
    }
}

/// Appends `s` padded with spaces to `width` characters.
fn push_padded(out: &mut String, s: &str, width: usize)
    ensures
        final(out)@ == old(out)@ + pad_right(s@, width as nat),
{
    push_all(out, s);
    let n = s.unicode_len();
    let ghost mid = out@;
    let mut k = n;
    while k < width
        invariant
            n == s@.len(),
            n <= k <= width || (width < n && k == n),
            out@ == mid + Seq::new((k - n) as nat, |i: int| ' '),
        decreases width - k,
    {
        push_char(out, ' ');
        k = k + 1;
        assert(out@ =~= mid + Seq::new((k - n) as nat, |i: int| ' '));
    }
    if n < width {
        assert(out@ =~= old(out)@ + pad_right(s@, width as nat));
    } else {
        assert(out@ =~= old(out)@ + s@);
    }
}

/// Text for display.
pub struct ContactFormatter;

impl ContactFormatter {
    /// The full description of a contact.
    pub fn format_contact(contact: &Contact) -> (r: String)
        ensures
            r@ == contact_text(contact@),
    {
        let c = contact;
        let ghost v = c@;
        let mut out = String::new();
        push_all(&mut out, "ID: ");
        push_all(&mut out, c.id().to_string().as_str());
        push_all(&mut out, "\n");
        push_all(&mut out, "Name: ");
        push_all(&mut out, c.full_name().as_str());
        push_all(&mut out, "\n");
        let ghost head = out@;
        let phones = c.phone_numbers();
        let mut phone_part = String::new();
        if phones.len() > 0 {
            push_all(&mut phone_part, "Phone Numbers:\n");
            let mut i: usize = 0;
            while i < phones.len()
                invariant
                    i <= phones@.len(),
                    v.phone_numbers == crate::contact::phone_views(phones@),
                    phone_part@ == "Phone Numbers:\n"@ + item_lines(formatted_phones(v.phone_numbers).subrange(0, i as int)),
                decreases phones@.len() - i,
            {
                let ghost before = phone_part@;
                push_all(&mut phone_part, "  - ");
                push_all(&mut phone_part, phones[i].formatted().as_str());
                push_all(&mut phone_part, "\n");
                proof {
                    let fp = formatted_phones(v.phone_numbers);
                    assert(fp.subrange(0, i + 1).drop_last() =~= fp.subrange(0, i as int));
                    assert(fp[i as int] == formatted_spec(phones@[i as int]@));
                }
                assert(phone_part@ =~= "Phone Numbers:\n"@ + item_lines(formatted_phones(v.phone_numbers).subrange(0, i + 1)));
                i = i + 1;
            }
            assert(formatted_phones(v.phone_numbers).subrange(0, i as int) =~= formatted_phones(v.phone_numbers));
        }
        let emails = c.emails();
        let mut email_part = String::new();
        if emails.len() > 0 {
            push_all(&mut email_part, "Emails:\n");
            let mut i: usize = 0;
            while i < emails.len()
                invariant
                    i <= emails@.len(),
                    v.emails == crate::contact::email_views(emails@),
                    email_part@ == "Emails:\n"@ + item_lines(v.emails.subrange(0, i as int)),
                decreases emails@.len() - i,
            {
                push_all(&mut email_part, "  - ");
                push_all(&mut email_part, emails[i].value());
                push_all(&mut email_part, "\n");
                assert(v.emails.subrange(0, i + 1).drop_last() =~= v.emails.subrange(0, i as int));
                assert(email_part@ =~= "Emails:\n"@ + item_lines(v.emails.subrange(0, i + 1)));
                i = i + 1;
            }
            assert(v.emails.subrange(0, i as int) =~= v.emails);
        }
        let mut notes_part = String::new();
        match c.notes() {
            Some(n) => {
                push_all(&mut notes_part, "Notes: ");
                push_all(&mut notes_part, n);
                push_all(&mut notes_part, "\n");
            },
            None => {},
        }
        let tags = c.tags();
        let mut tag_part = String::new();
        if tags.len() > 0 {
            let mut joined_tags = String::new();
            push_all(&mut joined_tags, tags[0].as_str());
            let mut i: usize = 1;
            assert(v.tags.subrange(0, 1) =~= seq![v.tags[0]]);
            while i < tags.len()
                invariant
                    1 <= i <= tags@.len(),
                    v.tags == crate::contact::string_views(tags@),
                    joined_tags@ == joined(v.tags.subrange(0, i as int)),
                decreases tags@.len() - i,
            {
                push_all(&mut joined_tags, ", ");
                push_all(&mut joined_tags, tags[i].as_str());
                assert(v.tags.subrange(0, i + 1).drop_last() =~= v.tags.subrange(0, i as int));
                assert(joined_tags@ =~= joined(v.tags.subrange(0, i + 1)));
                i = i + 1;
            }
            assert(v.tags.subrange(0, i as int) =~= v.tags);
            push_all(&mut tag_part, "Tags: ");
            push_all(&mut tag_part, joined_tags.as_str());
            push_all(&mut tag_part, "\n");
        }
        push_all(&mut out, phone_part.as_str());
        push_all(&mut out, email_part.as_str());
        push_all(&mut out, notes_part.as_str());
        push_all(&mut out, tag_part.as_str());
        assert(out@ =~= contact_text(v));
        out
    }

    /// One line for a contact in a list.
    pub fn format_contact_compact(contact: &Contact) -> (r: String)
        ensures
            r@ == compact_text(contact@),
    {
        let phones = contact.phone_numbers();
        let phone = if phones.len() > 0 {
            phones[0].formatted()
        } else {
            "No phone".to_owned()
        };
        let emails = contact.emails();
        let email = if emails.len() > 0 {
            emails[0].value().to_owned()
        } else {
            "No email".to_owned()
        };
        let id_text = contact.id().to_string();
        proof {
            assert(uuid_text(contact@.id).len() == 36) by {
                lemma_hex_len(contact@.id as nat, 32);
            }
        }
        let id_short = id_text.as_str().substring_char(0, 8);
        let mut out = String::new();
        push_padded(&mut out, id_short, 8);
        push_all(&mut out, " ");
        push_padded(&mut out, contact.full_name().as_str(), 25);
        push_all(&mut out, " ");
        push_padded(&mut out, phone.as_str(), 15);
        push_all(&mut out, " ");
        push_all(&mut out, email.as_str());
        out
    }

    /// The column titles of a list.
    pub fn format_list_header() -> (r: String)
        ensures
            r@ == header_text(),
    {
        let mut out = String::new();
        push_padded(&mut out, "ID", 8);
        push_all(&mut out, " ");
        push_padded(&mut out, "Name", 25);
        push_all(&mut out, " ");
        push_padded(&mut out, "Phone", 15);
        push_all(&mut out, " ");
        push_all(&mut out, "Email");
        out
    }

    /// A line of 80 dashes.
    pub fn format_separator() -> (r: String)
        ensures
            r@ == Seq::new(80, |i: int| '-'),
    {
        let mut out = String::new();
        let mut k: usize = 0;
        while k < 80
            invariant
                k <= 80,
                out@ == Seq::new(k as nat, |i: int| '-'),
            decreases 80 - k,
        {
            push_char(&mut out, '-');
            k = k + 1;
            assert(out@ =~= Seq::new(k as nat, |i: int| '-'));
        }
        out
    }

    /// How many contacts a search found.
    pub fn format_search_summary(query: &str, count: usize) -> (r: String)
        ensures
            r@ == "Found "@ + decimal_text(count as nat) + " contact(s) matching '"@ + query@ + "'\n"@,
    {
        let mut out = String::new();
        push_all(&mut out, "Found ");
        push_all(&mut out, usize_text(count).as_str());
        push_all(&mut out, " contact(s) matching '");
        push_all(&mut out, query);
        push_all(&mut out, "'\n");
        out
    }

    /// Which contacts a page shows, of how many.
    pub fn format_pagination_info(page: usize, page_size: usize, total: usize, has_more: bool) -> (r: String)
        requires
            page < usize::MAX,
            (page + 1) * page_size <= usize::MAX,
        ensures
            r@ == pagination_text(page as nat, page_size as nat, total as nat, has_more),
    {
        proof {
            assert(page * page_size + page_size == (page + 1) * page_size) by (nonlinear_arith);
            assert(page * page_size <= (page + 1) * page_size) by (nonlinear_arith);
            if page_size == 0 {
                assert(page * page_size == 0) by (nonlinear_arith)
                    requires
                        page_size == 0,
                ;
            }
        }
        let next = page + 1;
        let start = page * page_size + 1;
        let upper = next * page_size;
        let end = if upper < total {
            upper
        } else {
            total
        };
        let mut out = String::new();
        push_all(&mut out, "Showing ");
        push_all(&mut out, usize_text(start).as_str());
        push_all(&mut out, " - ");
        push_all(&mut out, usize_text(end).as_str());
        push_all(&mut out, " of ");
        push_all(&mut out, usize_text(total).as_str());
        push_all(&mut out, " contacts");
        if has_more {
            push_all(&mut out, " (Page ");
            push_all(&mut out, usize_text(next).as_str());
            push_all(&mut out, ")");
        }
        assert(out@ =~= pagination_text(page as nat, page_size as nat, total as nat, has_more));
        out
    }

    /// The number of contacts.
    pub fn format_stats(total_contacts: usize) -> (r: String)
        ensures
            r@ == "Total contacts: "@ + decimal_text(total_contacts as nat),
    {
        let mut out = String::new();
        push_all(&mut out, "Total contacts: ");
        push_all(&mut out, usize_text(total_contacts).as_str());
        out
    }
}

proof fn lemma_hex_len(v: nat, n: nat)
    ensures
        crate::contact_id::hex_of(v, n).len() == n,
    decreases n,
{
    if n > 0 {
        lemma_hex_len(v / 16, (n - 1) as nat);
    }
}

} // verus!
