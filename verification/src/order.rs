//! The order on customers used by the listing: lexicographic comparison
//! of the chosen string field by code point, or numeric comparison of the
//! creation time, in either direction.

use vstd::prelude::*;
use vstd::string::StrSliceExecFns;

use crate::data::Customer;
use crate::data::CustomerSortField;
use crate::data::CustomerView;
use crate::data::SortDirection;

verus! {

/// Lexicographic order on character sequences, by code point; a prefix
/// comes before every extension of it.
pub open spec fn lex_le(a: Seq<char>, b: Seq<char>) -> bool
    decreases a.len(),
{
    if a.len() == 0 {
        true
    } else if b.len() == 0 {
        false
    } else if (a[0] as u32) < (b[0] as u32) {
        true
    } else if (b[0] as u32) < (a[0] as u32) {
        false
    } else {
        lex_le(a.drop_first(), b.drop_first())
    }
}

/// The lexicographic order is total.
pub proof fn lemma_lex_le_total(a: Seq<char>, b: Seq<char>)
    ensures
        lex_le(a, b) || lex_le(b, a),
    decreases a.len(),
{
    if a.len() == 0 {
    } else if b.len() == 0 {
    } else if (a[0] as u32) < (b[0] as u32) {
    } else if (b[0] as u32) < (a[0] as u32) {
    } else {
        lemma_lex_le_total(a.drop_first(), b.drop_first());
    }
}

/// The lexicographic order is transitive.
pub proof fn lemma_lex_le_trans(a: Seq<char>, b: Seq<char>, c: Seq<char>)
    requires
        lex_le(a, b),
        lex_le(b, c),
    ensures
        lex_le(a, c),
    decreases a.len(),
{
    if a.len() == 0 {
    } else {
        if (a[0] as u32) == (b[0] as u32) && (b[0] as u32) == (c[0] as u32) {
            lemma_lex_le_trans(a.drop_first(), b.drop_first(), c.drop_first());
        }
    }
}

/// Compares two strings in the lexicographic order.
pub fn str_le(a: &str, b: &str) -> (r: bool)
    ensures
        r == lex_le(a@, b@),
{
    let alen = a.unicode_len();
    let blen = b.unicode_len();
    let mut i: usize = 0;
    proof {
        assert(a@.skip(0) =~= a@);
        assert(b@.skip(0) =~= b@);
    }
    while i < alen && i < blen
        invariant
            i <= alen,
            i <= blen,
            alen == a@.len(),
            blen == b@.len(),
            lex_le(a@, b@) == lex_le(a@.skip(i as int), b@.skip(i as int)),
        decreases alen - i,
    {
        let ca = a.get_char(i);
        let cb = b.get_char(i);
        if (ca as u32) < (cb as u32) {
            return true;
        }
        if (cb as u32) < (ca as u32) {
            return false;
        }
        proof {
            assert(a@.skip(i as int).drop_first() =~= a@.skip(i as int + 1));
            assert(b@.skip(i as int).drop_first() =~= b@.skip(i as int + 1));
        }
        i += 1;
    }
    i == alen
}

/// Order on the chosen field of two customers: lexicographic for the
/// string fields, numeric for the creation time.
pub open spec fn customer_key_le(a: CustomerView, b: CustomerView, field: CustomerSortField) -> bool {
    match field {
        CustomerSortField::Name => lex_le(a.name, b.name),
        CustomerSortField::Email => lex_le(a.email, b.email),
        CustomerSortField::Status => lex_le(a.status, b.status),
        CustomerSortField::Created => a.created <= b.created,
    }
}

/// The order a listing presents its customers in: the field order, or
/// its reverse for a descending listing.
pub open spec fn customer_le(
    a: CustomerView,
    b: CustomerView,
    field: CustomerSortField,
    direction: SortDirection,
) -> bool {
    match direction {
        SortDirection::Asc => customer_key_le(a, b, field),
        SortDirection::Desc => customer_key_le(b, a, field),
    }
}

/// The listing order is total.
pub proof fn lemma_customer_le_total(
    a: CustomerView,
    b: CustomerView,
    field: CustomerSortField,
    direction: SortDirection,
)
    ensures
        customer_le(a, b, field, direction) || customer_le(b, a, field, direction),
{
    match field {
        CustomerSortField::Name => lemma_lex_le_total(a.name, b.name),
        CustomerSortField::Email => lemma_lex_le_total(a.email, b.email),
        CustomerSortField::Status => lemma_lex_le_total(a.status, b.status),
        CustomerSortField::Created => (),
    }
}

/// The listing order is transitive.
pub proof fn lemma_customer_le_trans(
    a: CustomerView,
    b: CustomerView,
    c: CustomerView,
    field: CustomerSortField,
    direction: SortDirection,
)
    requires
        customer_le(a, b, field, direction),
        customer_le(b, c, field, direction),
    ensures
        customer_le(a, c, field, direction),
{
    match direction {
        SortDirection::Asc => match field {
            CustomerSortField::Name => lemma_lex_le_trans(a.name, b.name, c.name),
            CustomerSortField::Email => lemma_lex_le_trans(a.email, b.email, c.email),
            CustomerSortField::Status => lemma_lex_le_trans(a.status, b.status, c.status),
            CustomerSortField::Created => (),
        },
        SortDirection::Desc => match field {
            CustomerSortField::Name => lemma_lex_le_trans(c.name, b.name, a.name),
            CustomerSortField::Email => lemma_lex_le_trans(c.email, b.email, a.email),
            CustomerSortField::Status => lemma_lex_le_trans(c.status, b.status, a.status),
            CustomerSortField::Created => (),
        },
    }
}

/// Compares two customers in the listing order.
pub fn customer_le_exec(
    a: &Customer,
    b: &Customer,
    field: CustomerSortField,
    direction: SortDirection,
) -> (r: bool)
    ensures
        r == customer_le(a@, b@, field, direction),
{
    match direction {
        SortDirection::Asc => customer_key_le_exec(a, b, field),
        SortDirection::Desc => customer_key_le_exec(b, a, field),
    }
}

fn customer_key_le_exec(a: &Customer, b: &Customer, field: CustomerSortField) -> (r: bool)
    ensures
        r == customer_key_le(a@, b@, field),
{
    match field {
        CustomerSortField::Name => str_le(a.name.as_str(), b.name.as_str()),
        CustomerSortField::Email => str_le(a.email.as_str(), b.email.as_str()),
        CustomerSortField::Status => str_le(a.status.as_str(), b.status.as_str()),
        CustomerSortField::Created => a.created <= b.created,
    }
}

} // verus!
