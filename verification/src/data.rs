//! Core data types of the library: record identifiers, sort parameters,
//! the `Customer` and `Opportunity` records, and the error kinds.

use vstd::prelude::*;

verus! {

/// Identifier of a stored record: a UUID held as two 64-bit halves,
/// `hi` being the most significant. The all-zero (nil) id is the
/// client-side sentinel for "not yet created".
#[derive(Clone, Copy, PartialEq, Eq, Structural, Debug, Hash)]
pub struct Id {
    pub hi: u64,
    pub lo: u64,
}

pub type CustomerId = Id;

pub type OpportunityId = Id;

impl Id {
    /// The nil id denotes a record that has not been persisted yet.
    pub open spec fn spec_is_nil(self) -> bool {
        self.hi == 0 && self.lo == 0
    }

    pub fn nil() -> (r: Id)
        ensures
            r.spec_is_nil(),
    {
        Id { hi: 0, lo: 0 }
    }

    pub fn is_nil(&self) -> (r: bool)
        ensures
            r == self.spec_is_nil(),
    {
        self.hi == 0 && self.lo == 0
    }
}

/// Direction of a customer listing: ascending or descending.
#[derive(Clone, Copy, PartialEq, Eq, Structural, Debug)]
pub enum SortDirection {
    Asc,
    Desc,
}

impl SortDirection {
    /// The label interpolated into query and URL text.
    pub open spec fn label(self) -> Seq<char> {
        match self {
            SortDirection::Asc => "asc"@,
            SortDirection::Desc => "desc"@,
        }
    }

    pub fn as_str(self) -> (r: &'static str)
        ensures
            r@ == self.label(),
    {
        match self {
            SortDirection::Asc => "asc",
            SortDirection::Desc => "desc",
        }
    }
}

/// The closed set of fields a customer listing may be sorted by.
/// Only these labels ever reach the query text.
#[derive(Clone, Copy, PartialEq, Eq, Structural, Debug)]
pub enum CustomerSortField {
    Name,
    Email,
    Status,
    Created,
}

impl CustomerSortField {
    /// The label interpolated into query and URL text.
    pub open spec fn label(self) -> Seq<char> {
        match self {
            CustomerSortField::Name => "name"@,
            CustomerSortField::Email => "email"@,
            CustomerSortField::Status => "status"@,
            CustomerSortField::Created => "created"@,
        }
    }

    pub fn as_str(self) -> (r: &'static str)
        ensures
            r@ == self.label(),
    {
        match self {
            CustomerSortField::Name => "name",
            CustomerSortField::Email => "email",
            CustomerSortField::Status => "status",
            CustomerSortField::Created => "created",
        }
    }
}

/// The enumerated statuses an opportunity may carry.
#[derive(Clone, Copy, PartialEq, Eq, Structural, Debug)]
pub enum OpportunityStatus {
    New,
    ClosedWon,
    ClosedLost,
}

impl OpportunityStatus {
    /// The string form stored in an opportunity's `status` field.
    pub open spec fn label(self) -> Seq<char> {
        match self {
            OpportunityStatus::New => "New"@,
            OpportunityStatus::ClosedWon => "ClosedWon"@,
            OpportunityStatus::ClosedLost => "ClosedLost"@,
        }
    }

    pub fn as_str(self) -> (r: &'static str)
        ensures
            r@ == self.label(),
    {
        match self {
            OpportunityStatus::New => "New",
            OpportunityStatus::ClosedWon => "ClosedWon",
            OpportunityStatus::ClosedLost => "ClosedLost",
        }
    }
}

/// Pagination parameters of a customer listing.
#[derive(Clone, Copy, PartialEq, Eq, Structural, Debug)]
pub struct CustomersQueryParams {
    pub sort: CustomerSortField,
    pub direction: SortDirection,
    pub offset: usize,
    pub limit: usize,
}

/// A top-level CRM entity representing a client account.
#[derive(Debug)]
pub struct Customer {
    pub id: CustomerId,
    pub name: String,
    pub email: String,
    pub status: String,
    pub created: u64,
}

/// Mathematical model of a customer: the string fields as character
/// sequences.
#[verifier::ext_equal]
pub struct CustomerView {
    pub id: CustomerId,
    pub name: Seq<char>,
    pub email: Seq<char>,
    pub status: Seq<char>,
    pub created: u64,
}

impl View for Customer {
    type V = CustomerView;

    open spec fn view(&self) -> CustomerView {
        CustomerView {
            id: self.id,
            name: self.name@,
            email: self.email@,
            status: self.status@,
            created: self.created,
        }
    }
}

impl DeepView for Customer {
    type V = CustomerView;

    open spec fn deep_view(&self) -> CustomerView {
        self@
    }
}

impl Customer {
    /// A copy of the record with the same model.
    pub fn duplicate(&self) -> (r: Customer)
        ensures
            r@ == self@,
    {
        Customer {
            id: self.id,
            name: self.name.clone(),
            email: self.email.clone(),
            status: self.status.clone(),
            created: self.created,
        }
    }
}

/// A sales lead owned by exactly one customer.
#[derive(Debug)]
pub struct Opportunity {
    pub id: OpportunityId,
    pub name: String,
    pub status: String,
    pub created: u64,
}

/// Mathematical model of an opportunity.
#[verifier::ext_equal]
pub struct OpportunityView {
    pub id: OpportunityId,
    pub name: Seq<char>,
    pub status: Seq<char>,
    pub created: u64,
}

impl View for Opportunity {
    type V = OpportunityView;

    open spec fn view(&self) -> OpportunityView {
        OpportunityView { id: self.id, name: self.name@, status: self.status@, created: self.created }
    }
}

impl DeepView for Opportunity {
    type V = OpportunityView;

    open spec fn deep_view(&self) -> OpportunityView {
        self@
    }
}

impl Opportunity {
    /// A copy of the record with the same model.
    pub fn duplicate(&self) -> (r: Opportunity)
        ensures
            r@ == self@,
    {
        Opportunity {
            id: self.id,
            name: self.name.clone(),
            status: self.status.clone(),
            created: self.created,
        }
    }
}

/// Errors of the API layer: a rejected input, a missing record, or a
/// failure of the underlying query engine (the last is raised only by
/// the unverified layer around the library).
#[derive(Clone, Copy, PartialEq, Eq, Structural, Debug)]
pub enum ApiError {
    ValidationError,
    NotFoundError,
    QueryExecutionError,
}

/// Errors of the front-end data client: a failed request or a response
/// that could not be decoded.
#[derive(Clone, Copy, PartialEq, Eq, Structural, Debug)]
pub enum MultiError {
    RequestError,
    DeserializeError,
}

} // verus!
