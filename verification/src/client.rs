//! The computations of the front-end data client and its components:
//! the URLs the client calls, the base URL chosen from the window's
//! origin, and the small decisions the views make.

use vstd::prelude::*;
use vstd::string::StrSliceExecFns;
use vstd::string::StringExecFns;

use crate::data::CustomerSortField;
use crate::data::CustomersQueryParams;
use crate::data::Id;
use crate::data::Opportunity;
use crate::data::OpportunityStatus;
use crate::data::SortDirection;
use crate::query::dec_digits;
use crate::query::usize_to_string;

verus! {

/// The lowercase hexadecimal character of a value below sixteen.
pub open spec fn hex_digit(d: int) -> char {
    if d == 0 {
        '0'
    } else if d == 1 {
        '1'
    } else if d == 2 {
        '2'
    } else if d == 3 {
        '3'
    } else if d == 4 {
        '4'
    } else if d == 5 {
        '5'
    } else if d == 6 {
        '6'
    } else if d == 7 {
        '7'
    } else if d == 8 {
        '8'
    } else if d == 9 {
        '9'
    } else if d == 10 {
        'a'
    } else if d == 11 {
        'b'
    } else if d == 12 {
        'c'
    } else if d == 13 {
        'd'
    } else if d == 14 {
        'e'
    } else {
        'f'
    }
}

/// The last `k` hexadecimal digits of a number, most significant first,
/// padded with zeroes.
pub open spec fn hex_k(n: nat, k: nat) -> Seq<char>
    decreases k,
{
    if k == 0 {
        Seq::empty()
    } else {
        hex_k(n / 16, (k - 1) as nat).push(hex_digit((n % 16) as int))
    }
}

/// The sixteen hexadecimal digits of a 64-bit value.
pub open spec fn u64_hex(x: u64) -> Seq<char> {
    hex_k(x as nat, 16)
}

/// The hyphenated rendering of an id: its 32 hexadecimal digits in five
/// groups of 8, 4, 4, 4 and 12, lowercase, most significant first.
pub open spec fn uuid_hyphenated(id: Id) -> Seq<char> {
    let h = u64_hex(id.hi);
    let l = u64_hex(id.lo);
    h.subrange(0, 8) + seq!['-'] + h.subrange(8, 12) + seq!['-'] + h.subrange(12, 16) + seq!['-']
        + l.subrange(0, 4) + seq!['-'] + l.subrange(4, 16)
}

/// Relies on the uuid crate's `Display`: a UUID prints as its hyphenated
/// lowercase hexadecimal form, with `from_u64_pair` taking the most
/// significant half first.
#[verifier::external_body]
fn uuid_to_string(id: &Id) -> (r: String)
    ensures
        r@ == uuid_hyphenated(*id),
{
    uuid::Uuid::from_u64_pair(id.hi, id.lo).to_string()
}

/// The path of a single customer.
pub open spec fn customer_path_text(id: Id) -> Seq<char> {
    "/customer/"@ + uuid_hyphenated(id)
}

pub fn customer_path(id: &Id) -> (r: String)
    ensures
        r@ == customer_path_text(*id),
{
    let mut s = "/customer/".to_owned();
    s.append(uuid_to_string(id).as_str());
    s
}

/// The path of a customer's opportunity collection.
pub open spec fn customer_opportunities_path_text(id: Id) -> Seq<char> {
    "/customer/"@ + uuid_hyphenated(id) + "/opportunities"@
}

pub fn customer_opportunities_path(id: &Id) -> (r: String)
    ensures
        r@ == customer_opportunities_path_text(*id),
{
    let mut s = "/customer/".to_owned();
    s.append(uuid_to_string(id).as_str());
    s.append("/opportunities");
    s
}

/// The path of one opportunity, scoped by its owning customer.
pub open spec fn customer_opportunity_path_text(id: Id, oid: Id) -> Seq<char> {
    "/customer/"@ + uuid_hyphenated(id) + "/opportunity/"@ + uuid_hyphenated(oid)
}

pub fn customer_opportunity_path(id: &Id, oid: &Id) -> (r: String)
    ensures
        r@ == customer_opportunity_path_text(*id, *oid),
{
    let mut s = "/customer/".to_owned();
    s.append(uuid_to_string(id).as_str());
    s.append("/opportunity/");
    s.append(uuid_to_string(oid).as_str());
    s
}

/// The path of the customer listing with its pagination query string.
pub open spec fn customers_path_text(p: CustomersQueryParams) -> Seq<char> {
    "/customers?sort="@ + p.sort.label() + "&direction="@ + p.direction.label() + "&offset="@
        + dec_digits(p.offset as nat) + "&limit="@ + dec_digits(p.limit as nat)
}

pub fn customers_path(p: &CustomersQueryParams) -> (r: String)
    ensures
        r@ == customers_path_text(*p),
{
    let mut s = "/customers?sort=".to_owned();
    s.append(p.sort.as_str());
    s.append("&direction=");
    s.append(p.direction.as_str());
    s.append("&offset=");
    s.append(usize_to_string(p.offset).as_str());
    s.append("&limit=");
    s.append(usize_to_string(p.limit).as_str());
    proof {
        assert(s@ =~= customers_path_text(*p));
    }
    s
}

/// Whether the text holds the digits `127` anywhere.
pub open spec fn spec_contains_127(s: Seq<char>) -> bool {
    exists|i: int| 0 <= i && i + 3 <= s.len() && #[trigger] s.subrange(i, i + 3) == "127"@
}

pub fn contains_127(s: &str) -> (r: bool)
    ensures
        r == spec_contains_127(s@),
{
    let n = s.unicode_len();
    proof {
        reveal_strlit("127");
    }
    if n < 3 {
        return false;
    }
    let mut i: usize = 0;
    while i <= n - 3
        invariant
            3 <= n == s@.len(),
            i <= n,
            forall|j: int| 0 <= j < i ==> #[trigger] s@.subrange(j, j + 3) != "127"@,
        decreases n - i,
    {
        let c0 = s.get_char(i);
        let c1 = s.get_char(i + 1);
        let c2 = s.get_char(i + 2);
        proof {
            reveal_strlit("127");
        }
        if c0 == '1' && c1 == '2' && c2 == '7' {
            proof {
                assert(s@.subrange(i as int, i as int + 3) =~= "127"@);
            }
            return true;
        }
        proof {
            assert(s@.subrange(i as int, i as int + 3)[0] == c0);
            assert(s@.subrange(i as int, i as int + 3)[1] == c1);
            assert(s@.subrange(i as int, i as int + 3)[2] == c2);
            assert(s@.subrange(i as int, i as int + 3) != "127"@);
        }
        i += 1;
    }
    proof {
        assert forall|j: int| 0 <= j && j + 3 <= s@.len() implies #[trigger] s@.subrange(j, j + 3)
            != "127"@ by {
            assert(j < i);
        }
    }
    false
}

/// The fallback base URL used when the window has no usable origin.
pub open spec fn fallback_api_url() -> Seq<char> {
    "http://127.0.0.1:8080/api"@
}

/// The base URL of the API: the window's origin with `/api` appended,
/// or the local fallback when there is no origin or the origin points at
/// the loopback address.
pub fn get_base_url(origin: &Option<String>) -> (r: String)
    ensures
        origin is None ==> r@ == fallback_api_url(),
        match origin {
            Some(o) => if spec_contains_127(o@) {
                r@ == fallback_api_url()
            } else {
                r@ == o@ + "/api"@
            },
            None => true,
        },
{
    match origin {
        Some(o) => {
            if contains_127(o.as_str()) {
                "http://127.0.0.1:8080/api".to_owned()
            } else {
                let mut s = o.clone();
                s.append("/api");
                s
            }
        },
        None => "http://127.0.0.1:8080/api".to_owned(),
    }
}

/// The pagination state after a click on a column header: sorting moves
/// to that column, the direction flips, and the listing starts over at
/// the first page.
pub fn toggle_sort(current: &CustomersQueryParams, sort_by: CustomerSortField) -> (r:
    CustomersQueryParams)
    ensures
        r.sort == sort_by,
        r.direction == (if current.direction == SortDirection::Asc {
            SortDirection::Desc
        } else {
            SortDirection::Asc
        }),
        r.offset == 0,
        r.limit == current.limit,
{
    CustomersQueryParams {
        sort: sort_by,
        direction: if current.direction == SortDirection::Asc {
            SortDirection::Desc
        } else {
            SortDirection::Asc
        },
        offset: 0,
        limit: current.limit,
    }
}

/// The arrow shown beside a column header: the current direction on the
/// sorted column, nothing elsewhere.
pub fn sort_direction(pagination: &CustomersQueryParams, field: CustomerSortField) -> (r: Option<
    SortDirection,
>)
    ensures
        pagination.sort == field ==> r == Some(pagination.direction),
        pagination.sort != field ==> r is None,
{
    if pagination.sort == field {
        Some(pagination.direction)
    } else {
        None
    }
}

/// The title of the opportunity form: a nil id is a record not yet
/// created.
pub fn modal_label(id: &Id) -> (r: String)
    ensures
        id.spec_is_nil() ==> r@ == "Create"@,
        !id.spec_is_nil() ==> r@ == "Edit"@,
{
    if id.is_nil() {
        "Create".to_owned()
    } else {
        "Edit".to_owned()
    }
}

/// The CSS class that opens the modal: present exactly when it is open.
pub fn modal_visible(open: bool) -> (r: Option<String>)
    ensures
        match r {
            Some(s) => open && s@ == "is-active"@,
            None => !open,
        },
{
    if open {
        Some("is-active".to_owned())
    } else {
        None
    }
}

/// Whether the form's status dropdown shows this entry as selected.
pub fn selected_option(status: OpportunityStatus, current: &String) -> (r: bool)
    ensures
        r == (current@ == status.label()),
{
    *current == status.as_str().to_owned()
}

/// How a saved opportunity reaches the API.
#[derive(Clone, Copy, PartialEq, Eq, Structural, Debug)]
pub enum SaveAction {
    Create,
    Update,
}

/// The request that saves an opportunity: a draft (nil id) is created
/// under the customer's collection, anything else is updated in place.
pub fn save_request(customer_id: &Id, op: &Opportunity) -> (r: (SaveAction, String))
    ensures
        op.id.spec_is_nil() ==> r.0 == SaveAction::Create && r.1@
            == customer_opportunities_path_text(*customer_id),
        !op.id.spec_is_nil() ==> r.0 == SaveAction::Update && r.1@
            == customer_opportunity_path_text(*customer_id, op.id),
{
    if op.id.is_nil() {
        (SaveAction::Create, customer_opportunities_path(customer_id))
    } else {
        (SaveAction::Update, customer_opportunity_path(customer_id, &op.id))
    }
}

} // verus!
