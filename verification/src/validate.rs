//! Validation of opportunity payloads: the name must be 3 to 300
//! characters long and the status must be one of the enumerated values.
//! Also the message computation the front-end shows beside each field.

use vstd::prelude::*;
use vstd::string::StrSliceExecFns;
use vstd::string::StringExecFns;

use crate::data::Opportunity;
use crate::data::OpportunityView;

verus! {

/// Shortest accepted opportunity or customer name, in characters.
pub const NAME_MIN: usize = 3;

/// Longest accepted opportunity or customer name, in characters.
pub const NAME_MAX: usize = 300;

/// A name is valid when its length in characters lies within the bounds.
pub open spec fn spec_name_valid(name: Seq<char>) -> bool {
    NAME_MIN <= name.len() <= NAME_MAX
}

/// A status is valid when it is the label of one of the enumerated
/// opportunity statuses.
pub open spec fn spec_status_valid(status: Seq<char>) -> bool {
    status == "New"@ || status == "ClosedWon"@ || status == "ClosedLost"@
}

/// An opportunity payload is valid when both its name and status are.
pub open spec fn spec_opportunity_valid(o: OpportunityView) -> bool {
    spec_name_valid(o.name) && spec_status_valid(o.status)
}

pub fn name_length_valid(name: &String) -> (r: bool)
    ensures
        r == spec_name_valid(name@),
{
    let n = name.as_str().unicode_len();
    NAME_MIN <= n && n <= NAME_MAX
}

pub fn valid_opportunity_status(status: &String) -> (r: bool)
    ensures
        r == spec_status_valid(status@),
{
    *status == "New".to_owned() || *status == "ClosedWon".to_owned() || *status
        == "ClosedLost".to_owned()
}

pub fn validate_opportunity(o: &Opportunity) -> (r: bool)
    ensures
        r == spec_opportunity_valid(o@),
{
    name_length_valid(&o.name) && valid_opportunity_status(&o.status)
}

/// The message shown beside an invalid name field.
pub open spec fn name_message() -> Seq<char> {
    "Must be longer than 3 characters"@
}

/// The message shown beside an invalid status field.
pub open spec fn status_message() -> Seq<char> {
    "Please enter a valid status"@
}

/// The validation message for one field of an opportunity form: the
/// field's message exactly when that field is invalid, nothing for a
/// field the form does not validate.
pub fn validation_message(field: &str, state: &Opportunity) -> (r: Option<String>)
    ensures
        field@ == "name"@ ==> (match r {
            Some(m) => !spec_name_valid(state@.name) && m@ == name_message(),
            None => spec_name_valid(state@.name),
        }),
        field@ != "name"@ && field@ == "status"@ ==> (match r {
            Some(m) => !spec_status_valid(state@.status) && m@ == status_message(),
            None => spec_status_valid(state@.status),
        }),
        field@ != "name"@ && field@ != "status"@ ==> r is None,
{
    if field.to_owned() == "name".to_owned() {
        if name_length_valid(&state.name) {
            None
        } else {
            Some("Must be longer than 3 characters".to_owned())
        }
    } else if field.to_owned() == "status".to_owned() {
        if valid_opportunity_status(&state.status) {
            None
        } else {
            Some("Please enter a valid status".to_owned())
        }
    } else {
        None
    }
}

/// The CSS class marking an invalid field: present exactly when the
/// field has a validation message.
pub fn is_valid(field: &str, state: &Opportunity) -> (r: Option<String>)
    ensures
        field@ == "name"@ ==> (r is Some <==> !spec_name_valid(state@.name)),
        field@ != "name"@ && field@ == "status"@ ==> (r is Some <==> !spec_status_valid(
            state@.status,
        )),
        field@ != "name"@ && field@ != "status"@ ==> r is None,
        r is Some ==> r.unwrap()@ == "is-danger"@,
{
    match validation_message(field, state) {
        Some(_) => Some("is-danger".to_owned()),
        None => None,
    }
}

/// The save button of the opportunity form is disabled exactly when the
/// payload would be rejected.
pub fn submit_disabled(state: &Opportunity) -> (r: bool)
    ensures
        r == !spec_opportunity_valid(state@),
{
    !validate_opportunity(state)
}

} // verus!
