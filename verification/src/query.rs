//! Construction of the templated customer-listing query. Only labels of
//! the closed sort-field and direction enumerations and decimal renderings
//! of the pagination integers are ever interpolated into the text.

use vstd::prelude::*;
use vstd::string::StrSliceExecFns;
use vstd::string::StringExecFns;

use crate::data::CustomersQueryParams;

verus! {

/// The decimal character of a single digit.
pub open spec fn digit_char(d: int) -> char {
    if d == 0 {
        '0'
    } else if d == 1 {
        '1'
    } else if d == 2 {
        '2'
    } else if d == 3 {
        '3'
    } else if d == 4 {
        '4'
    } else if d == 5 {
        '5'
    } else if d == 6 {
        '6'
    } else if d == 7 {
        '7'
    } else if d == 8 {
        '8'
    } else {
        '9'
    }
}

/// The decimal rendering of a number, most significant digit first.
pub open spec fn dec_digits(n: nat) -> Seq<char>
    decreases n,
{
    if n < 10 {
        seq![digit_char(n as int)]
    } else {
        dec_digits(n / 10).push(digit_char((n % 10) as int))
    }
}

fn digit_str(d: usize) -> (r: &'static str)
    requires
        d < 10,
    ensures
        r@ == seq![digit_char(d as int)],
{
    let r = if d == 0 {
        "0"
    } else if d == 1 {
        "1"
    } else if d == 2 {
        "2"
    } else if d == 3 {
        "3"
    } else if d == 4 {
        "4"
    } else if d == 5 {
        "5"
    } else if d == 6 {
        "6"
    } else if d == 7 {
        "7"
    } else if d == 8 {
        "8"
    } else {
        "9"
    };
    proof {
        reveal_strlit("0");
        reveal_strlit("1");
        reveal_strlit("2");
        reveal_strlit("3");
        reveal_strlit("4");
        reveal_strlit("5");
        reveal_strlit("6");
        reveal_strlit("7");
        reveal_strlit("8");
        reveal_strlit("9");
        assert(r@ =~= seq![digit_char(d as int)]);
    }
    r
}

/// Renders a number in decimal.
pub fn usize_to_string(n: usize) -> (r: String)
    ensures
        r@ == dec_digits(n as nat),
    decreases n,
{
    if n < 10 {
        digit_str(n).to_owned()
    } else {
        let mut prefix = usize_to_string(n / 10);
        prefix.append(digit_str(n % 10));
        proof {
            assert(prefix@ =~= dec_digits(n as nat));
        }
        prefix
    }
}

/// The fixed head of the customer listing query.
pub const CUSTOMERS_SELECT: &'static str = "select <json>Customer {
            id,
            name,
            email,
            status,
            created
        } order by Customer.";

/// The full text of the customer listing query for the given pagination
/// parameters: the fixed template with the sort field's label, the
/// direction's label and the decimal offset and limit interpolated.
pub open spec fn customers_query_text(p: CustomersQueryParams) -> Seq<char> {
    CUSTOMERS_SELECT@ + p.sort.label() + " "@ + p.direction.label() + " offset "@ + dec_digits(
        p.offset as nat,
    ) + " limit "@ + dec_digits(p.limit as nat)
}

/// Builds the customer listing query. Its free positions are filled only
/// from the closed enumerations and the two integers, never from free-form
/// strings.
pub fn customers_query(p: &CustomersQueryParams) -> (r: String)
    ensures
        r@ == customers_query_text(*p),
{
    let mut q = CUSTOMERS_SELECT.to_owned();
    q.append(p.sort.as_str());
    q.append(" ");
    q.append(p.direction.as_str());
    q.append(" offset ");
    q.append(usize_to_string(p.offset).as_str());
    q.append(" limit ");
    q.append(usize_to_string(p.limit).as_str());
    proof {
        assert(q@ =~= customers_query_text(*p));
    }
    q
}

} // verus!
