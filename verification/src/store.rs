//! The verified model of the stored CRM data: customers owning
//! opportunities, with the operations behind each endpoint. Identifiers
//! and creation timestamps are assigned at insertion and never change.

use vstd::prelude::*;

use crate::data::ApiError;
use crate::data::Customer;
use crate::data::CustomerId;
use crate::data::CustomerView;
use crate::data::Id;
use crate::data::Opportunity;
use crate::data::OpportunityId;
use crate::data::OpportunityView;
use crate::data::CustomerSortField;
use crate::data::CustomersQueryParams;
use crate::data::SortDirection;
use crate::order::customer_le;
use crate::order::customer_le_exec;
use crate::order::lemma_customer_le_total;
use crate::order::lemma_customer_le_trans;
use crate::validate::spec_opportunity_valid;
use crate::validate::validate_opportunity;
use vstd::seq_lib::to_multiset_build;
use vstd::seq_lib::to_multiset_insert;

verus! {

/// An opportunity as stored: the record together with the id of the one
/// customer that owns it.
#[derive(Debug)]
pub struct OwnedOpportunity {
    pub customer_id: CustomerId,
    pub item: Opportunity,
}

/// Mathematical model of a stored opportunity.
#[verifier::ext_equal]
pub struct OwnedOpportunityView {
    pub customer_id: CustomerId,
    pub item: OpportunityView,
}

impl View for OwnedOpportunity {
    type V = OwnedOpportunityView;

    open spec fn view(&self) -> OwnedOpportunityView {
        OwnedOpportunityView { customer_id: self.customer_id, item: self.item@ }
    }
}

impl DeepView for OwnedOpportunity {
    type V = OwnedOpportunityView;

    open spec fn deep_view(&self) -> OwnedOpportunityView {
        self@
    }
}

impl OwnedOpportunity {
    /// A copy of the record with the same model.
    pub fn duplicate(&self) -> (r: OwnedOpportunity)
        ensures
            r@ == self@,
    {
        OwnedOpportunity { customer_id: self.customer_id, item: self.item.duplicate() }
    }
}

/// An element of a filtered sequence is an element of the sequence.
proof fn lemma_filter_elem_of<A>(s: Seq<A>, p: spec_fn(A) -> bool, i: int)
    requires
        0 <= i < s.filter(p).len(),
    ensures
        exists|m: int| 0 <= m < s.len() && #[trigger] s[m] == s.filter(p)[i],
    decreases s.len(),
{
    reveal(Seq::filter);
    if s.len() == 0 {
    } else {
        let t = s.drop_last();
        if p(s.last()) && i == s.filter(p).len() - 1 {
            assert(s[s.len() - 1] == s.filter(p)[i]);
        } else {
            lemma_filter_elem_of(t, p, i);
            let m = choose|m: int| 0 <= m < t.len() && #[trigger] t[m] == t.filter(p)[i];
            assert(s[m] == s.filter(p)[i]);
        }
    }
}

/// Filtering keeps any property that held of every element.
proof fn lemma_filter_pointwise<A>(s: Seq<A>, p: spec_fn(A) -> bool, q: spec_fn(A) -> bool)
    requires
        forall|i: int| 0 <= i < s.len() ==> q(#[trigger] s[i]),
    ensures
        forall|i: int| 0 <= i < s.filter(p).len() ==> q(#[trigger] s.filter(p)[i]),
{
    assert forall|i: int| 0 <= i < s.filter(p).len() implies q(#[trigger] s.filter(p)[i]) by {
        lemma_filter_elem_of(s, p, i);
        let m = choose|m: int| 0 <= m < s.len() && #[trigger] s[m] == s.filter(p)[i];
        assert(q(s[m]));
    }
}

/// Filtering keeps any relation that held of every ordered pair.
proof fn lemma_filter_pairwise<A>(s: Seq<A>, p: spec_fn(A) -> bool, r: spec_fn(A, A) -> bool)
    requires
        forall|i: int, j: int| #![trigger s[i], s[j]] 0 <= i < j < s.len() ==> r(s[i], s[j]),
    ensures
        forall|i: int, j: int|
            #![trigger s.filter(p)[i], s.filter(p)[j]]
            0 <= i < j < s.filter(p).len() ==> r(s.filter(p)[i], s.filter(p)[j]),
    decreases s.len(),
{
    reveal(Seq::filter);
    if s.len() == 0 {
    } else {
        let t = s.drop_last();
        assert forall|i: int, j: int|
            #![trigger t[i], t[j]]
            0 <= i < j < t.len() implies r(t[i], t[j]) by {
            assert(r(s[i], s[j]));
        }
        lemma_filter_pairwise(t, p, r);
        let f = s.filter(p);
        let ft = t.filter(p);
        assert forall|i: int, j: int|
            #![trigger f[i], f[j]]
            0 <= i < j < f.len() implies r(f[i], f[j]) by {
            if p(s.last()) && j == f.len() - 1 {
                assert(f[i] == ft[i]);
                lemma_filter_elem_of(t, p, i);
                let m = choose|m: int| 0 <= m < t.len() && #[trigger] t[m] == ft[i];
                assert(r(s[m], s[s.len() - 1]));
            } else {
                assert(r(ft[i], ft[j]));
            }
        }
    }
}

/// Filtering with a predicate that holds of every element keeps the
/// sequence as it is.
proof fn lemma_filter_all<A>(s: Seq<A>, p: spec_fn(A) -> bool)
    requires
        forall|i: int| 0 <= i < s.len() ==> p(#[trigger] s[i]),
    ensures
        s.filter(p) == s,
    decreases s.len(),
{
    reveal(Seq::filter);
    if s.len() == 0 {
        assert(s.filter(p) =~= s);
    } else {
        let t = s.drop_last();
        assert forall|i: int| 0 <= i < t.len() implies p(#[trigger] t[i]) by {
            assert(p(s[i]));
        }
        lemma_filter_all(t, p);
        assert(s.filter(p) =~= s);
    }
}

/// A sequence of customers ordered as the listing asks.
pub open spec fn spec_customers_sorted(
    s: Seq<CustomerView>,
    field: CustomerSortField,
    direction: SortDirection,
) -> bool {
    forall|x: int, y: int|
        #![trigger s[x], s[y]]
        0 <= x < y < s.len() ==> customer_le(s[x], s[y], field, direction)
}

/// A full ordering of the given customers: the same records, arranged
/// in the listing order.
pub open spec fn spec_sorted_of(
    full: Seq<CustomerView>,
    source: Seq<CustomerView>,
    field: CustomerSortField,
    direction: SortDirection,
) -> bool {
    full.to_multiset() == source.to_multiset() && spec_customers_sorted(full, field, direction)
}

/// Some customer in the sequence carries the id.
pub open spec fn spec_customer_exists(cs: Seq<CustomerView>, id: CustomerId) -> bool {
    exists|i: int| 0 <= i < cs.len() && #[trigger] cs[i].id == id
}

/// Some stored opportunity is owned by the customer and carries the id.
pub open spec fn spec_has_opportunity(
    os: Seq<OwnedOpportunityView>,
    cid: CustomerId,
    oid: OpportunityId,
) -> bool {
    exists|i: int| 0 <= i < os.len() && #[trigger] os[i].customer_id == cid && os[i].item.id == oid
}

/// The invariant of the stored records: ids are unique, opportunities
/// were appended in order of strictly increasing creation time, every
/// opportunity belongs to an existing customer, and every stored
/// opportunity passed validation.
pub open spec fn records_invariant(
    cs: Seq<CustomerView>,
    os: Seq<OwnedOpportunityView>,
) -> bool {
    &&& forall|i: int, j: int|
        #![trigger cs[i], cs[j]]
        0 <= i < j < cs.len() ==> cs[i].id != cs[j].id
    &&& forall|i: int, j: int|
        #![trigger os[i], os[j]]
        0 <= i < j < os.len() ==> os[i].item.id != os[j].item.id
    &&& forall|i: int, j: int|
        #![trigger os[i], os[j]]
        0 <= i < j < os.len() ==> os[i].item.created < os[j].item.created
    &&& forall|i: int|
        0 <= i < os.len() ==> spec_customer_exists(cs, #[trigger] os[i].customer_id)
    &&& forall|i: int| 0 <= i < os.len() ==> spec_opportunity_valid(#[trigger] os[i].item)
}

/// The opportunities owned by the given customer, in order of
/// decreasing creation time: the stored sequence is walked from its
/// youngest record to its oldest.
pub open spec fn opps_desc(os: Seq<OwnedOpportunityView>, cid: CustomerId) -> Seq<OpportunityView>
    decreases os.len(),
{
    if os.len() == 0 {
        Seq::empty()
    } else {
        let rest = opps_desc(os.drop_last(), cid);
        if os.last().customer_id == cid {
            seq![os.last().item] + rest
        } else {
            rest
        }
    }
}

/// Each entry of a listing is the record of some stored opportunity
/// owned by the listed customer.
pub proof fn lemma_opps_desc_element(os: Seq<OwnedOpportunityView>, cid: CustomerId, k: int)
    requires
        0 <= k < opps_desc(os, cid).len(),
    ensures
        exists|m: int|
            0 <= m < os.len() && (#[trigger] os[m]).customer_id == cid && os[m].item == opps_desc(
                os,
                cid,
            )[k],
    decreases os.len(),
{
    if os.len() == 0 {
        assert(opps_desc(os, cid).len() == 0);
    } else {
        let t = os.drop_last();
        let ft = opps_desc(t, cid);
        if os.last().customer_id == cid {
            if k == 0 {
                let m = os.len() - 1;
                assert(os[m].customer_id == cid && os[m].item == opps_desc(os, cid)[k]);
            } else {
                lemma_opps_desc_element(t, cid, k - 1);
                let m = choose|m: int|
                    0 <= m < t.len() && (#[trigger] t[m]).customer_id == cid && t[m].item == ft[k
                        - 1];
                assert(os[m].customer_id == cid && os[m].item == opps_desc(os, cid)[k]);
            }
        } else {
            lemma_opps_desc_element(t, cid, k);
            let m = choose|m: int|
                0 <= m < t.len() && (#[trigger] t[m]).customer_id == cid && t[m].item == ft[k];
            assert(os[m].customer_id == cid && os[m].item == opps_desc(os, cid)[k]);
        }
    }
}

/// A listing is ordered by decreasing creation time whenever the store
/// appended its records in order of increasing creation time.
pub proof fn lemma_opps_desc_sorted(os: Seq<OwnedOpportunityView>, cid: CustomerId)
    requires
        forall|i: int, j: int|
            #![trigger os[i], os[j]]
            0 <= i < j < os.len() ==> os[i].item.created < os[j].item.created,
    ensures
        forall|i: int, j: int|
            0 <= i < j < opps_desc(os, cid).len() ==> (#[trigger] opps_desc(os, cid)[i]).created
                > (#[trigger] opps_desc(os, cid)[j]).created,
    decreases os.len(),
{
    if os.len() == 0 {
    } else {
        let t = os.drop_last();
        assert forall|i: int, j: int|
            #![trigger t[i], t[j]]
            0 <= i < j < t.len() implies t[i].item.created < t[j].item.created by {
            assert(os[i].item.created < os[j].item.created);
        }
        lemma_opps_desc_sorted(t, cid);
        let ft = opps_desc(t, cid);
        assert forall|i: int, j: int|
            0 <= i < j < opps_desc(os, cid).len() implies (#[trigger] opps_desc(os, cid)[i]).created
            > (#[trigger] opps_desc(os, cid)[j]).created by {
            if os.last().customer_id == cid {
                if i == 0 {
                    lemma_opps_desc_element(t, cid, j - 1);
                    let m = choose|m: int|
                        0 <= m < t.len() && (#[trigger] t[m]).customer_id == cid && t[m].item
                            == ft[j - 1];
                    assert(os[m].item.created < os[os.len() - 1].item.created);
                } else {
                    assert(ft[i - 1].created > ft[j - 1].created);
                }
            } else {
                assert(ft[i].created > ft[j].created);
            }
        }
    }
}

/// The store of CRM records. Plays the part of the query engine: it
/// assigns identifiers and creation times at insertion.
pub struct CrmStore {
    customers: Vec<Customer>,
    opportunities: Vec<OwnedOpportunity>,
    counter: u64,
}

impl CrmStore {
    /// The stored customers, in insertion order.
    pub closed spec fn customers_view(&self) -> Seq<CustomerView> {
        self.customers.deep_view()
    }

    /// The stored opportunities, in insertion order.
    pub closed spec fn opportunities_view(&self) -> Seq<OwnedOpportunityView> {
        self.opportunities.deep_view()
    }

    /// The number of insertions the store has performed; each consumes
    /// one fresh id.
    pub closed spec fn insertions(&self) -> u64 {
        self.counter
    }

    /// The machine limit on insertions: the id counter has room left.
    pub open spec fn fresh_ids_available(&self) -> bool {
        self.insertions() < u64::MAX
    }

    spec fn ids_bounded(&self) -> bool {
        &&& forall|i: int|
            0 <= i < self.customers_view().len() ==> {
                let id = (#[trigger] self.customers_view()[i]).id;
                id.hi == 0 && 1 <= id.lo <= self.counter
            }
        &&& forall|i: int|
            0 <= i < self.opportunities_view().len() ==> {
                let id = (#[trigger] self.opportunities_view()[i]).item.id;
                id.hi == 0 && 1 <= id.lo <= self.counter
            }
        &&& forall|i: int|
            0 <= i < self.customers_view().len() ==> (#[trigger] self.customers_view()[i]).created
                < self.counter
        &&& forall|i: int|
            0 <= i < self.opportunities_view().len() ==> (
            #[trigger] self.opportunities_view()[i]).item.created < self.counter
    }

    /// Well-formedness of the store.
    pub closed spec fn wf(&self) -> bool {
        records_invariant(self.customers_view(), self.opportunities_view()) && self.ids_bounded()
    }

    /// A well-formed store satisfies the record invariant.
    pub proof fn lemma_wf(&self)
        requires
            self.wf(),
        ensures
            records_invariant(self.customers_view(), self.opportunities_view()),
    {
    }

    /// An empty store.
    pub fn new() -> (s: CrmStore)
        ensures
            s.wf(),
            s.insertions() == 0,
            s.customers_view() == Seq::<CustomerView>::empty(),
            s.opportunities_view() == Seq::<OwnedOpportunityView>::empty(),
    {
        let s = CrmStore { customers: Vec::new(), opportunities: Vec::new(), counter: 0 };
        proof {
            assert(s.customers_view() =~= Seq::<CustomerView>::empty());
            assert(s.opportunities_view() =~= Seq::<OwnedOpportunityView>::empty());
        }
        s
    }

    fn find_customer(&self, id: CustomerId) -> (r: Option<usize>)
        ensures
            match r {
                Some(i) => i < self.customers_view().len() && self.customers_view()[i as int].id
                    == id,
                None => !spec_customer_exists(self.customers_view(), id),
            },
    {
        let mut i: usize = 0;
        while i < self.customers.len()
            invariant
                i <= self.customers.len(),
                forall|j: int| 0 <= j < i ==> (#[trigger] self.customers.deep_view()[j]).id != id,
            decreases self.customers.len() - i,
        {
            if self.customers[i].id == id {
                return Some(i);
            }
            i += 1;
        }
        None
    }

    /// Retrieves the customer carrying the id: the stored record itself,
    /// never a default, and a not-found error exactly when no record
    /// matches.
    pub fn customer(&self, id: CustomerId) -> (r: Result<Customer, ApiError>)
        requires
            self.wf(),
        ensures
            r is Ok <==> spec_customer_exists(self.customers_view(), id),
            match r {
                Ok(c) => c@.id == id && forall|i: int|
                    0 <= i < self.customers_view().len() && (
                    #[trigger] self.customers_view()[i]).id == id ==> self.customers_view()[i]
                        == c@,
                Err(e) => e == ApiError::NotFoundError,
            },
    {
        match self.find_customer(id) {
            Some(i) => {
                let c = self.customers[i].duplicate();
                proof {
                    assert forall|k: int|
                        0 <= k < self.customers_view().len() && (
                        #[trigger] self.customers_view()[k]).id == id implies self.customers_view()[k]
                        == c@ by {
                        if k != i as int {
                            assert(self.customers_view()[k].id != self.customers_view()[i as int].id);
                        }
                    }
                }
                Ok(c)
            },
            None => Err(ApiError::NotFoundError),
        }
    }

    /// Inserts a customer with the given fields; the store assigns a
    /// fresh, non-nil id and a creation time later than every record
    /// already stored.
    pub fn add_customer(&mut self, name: String, email: String, status: String) -> (r: Result<
        Customer,
        ApiError,
    >)
        requires
            old(self).wf(),
            old(self).fresh_ids_available(),
        ensures
            final(self).wf(),
            final(self).insertions() == old(self).insertions() + 1,
            match r {
                Ok(c) => {
                    &&& c@.name == name@
                    &&& c@.email == email@
                    &&& c@.status == status@
                    &&& !c@.id.spec_is_nil()
                    &&& final(self).customers_view() == old(self).customers_view().push(c@)
                    &&& final(self).opportunities_view() == old(self).opportunities_view()
                    &&& forall|i: int|
                        0 <= i < old(self).customers_view().len() ==> (
                        #[trigger] old(self).customers_view()[i]).id != c@.id
                    &&& forall|i: int|
                        0 <= i < old(self).customers_view().len() ==> (
                        #[trigger] old(self).customers_view()[i]).created < c@.created
                },
                Err(_) => false,
            },
    {
        let id = Id { hi: 0, lo: self.counter + 1 };
        let created = self.counter;
        let c = Customer { id, name, email, status, created };
        let out = c.duplicate();
        self.customers.push(c);
        self.counter = self.counter + 1;
        proof {
            let cs0 = old(self).customers_view();
            let cs1 = self.customers_view();
            let os = self.opportunities_view();
            assert(cs1 =~= cs0.push(out@));
            assert(os =~= old(self).opportunities_view());
            assert forall|i: int|
                0 <= i < cs0.len() implies (#[trigger] cs0[i]).id != out@.id by {
                assert(cs0[i].id.lo <= old(self).counter);
            }
            assert forall|i: int, j: int|
                #![trigger cs1[i], cs1[j]]
                0 <= i < j < cs1.len() implies cs1[i].id != cs1[j].id by {
                if j + 1 == cs1.len() {
                    assert(cs1[i] == cs0[i]);
                    assert(cs1[j] == out@);
                }
            }
            assert forall|i: int|
                0 <= i < os.len() implies spec_customer_exists(
                cs1,
                (#[trigger] os[i]).customer_id,
            ) by {
                assert(spec_customer_exists(cs0, os[i].customer_id));
                let k = choose|k: int|
                    0 <= k < cs0.len() && #[trigger] cs0[k].id == os[i].customer_id;
                assert(cs1[k].id == os[i].customer_id);
            }
        }
        Ok(out)
    }

    /// Lists the opportunities owned by the customer, ordered by
    /// creation time descending.
    pub fn opportunities(&self, id: CustomerId) -> (r: Vec<Opportunity>)
        requires
            self.wf(),
        ensures
            r.deep_view() == opps_desc(self.opportunities_view(), id),
            forall|i: int, j: int|
                0 <= i < j < r.deep_view().len() ==> (#[trigger] r.deep_view()[i]).created > (
                #[trigger] r.deep_view()[j]).created,
    {
        let ghost ov = self.opportunities.deep_view();
        let mut out: Vec<Opportunity> = Vec::new();
        let mut i: usize = self.opportunities.len();
        proof {
            assert(ov.subrange(0, i as int) =~= ov);
            assert(out.deep_view() + opps_desc(ov.subrange(0, i as int), id) =~= opps_desc(
                ov,
                id,
            ));
        }
        while i > 0
            invariant
                i <= self.opportunities.len(),
                ov == self.opportunities.deep_view(),
                out.deep_view() + opps_desc(ov.subrange(0, i as int), id) == opps_desc(ov, id),
            decreases i,
        {
            i = i - 1;
            let ghost sub1 = ov.subrange(0, i + 1);
            let ghost sub0 = ov.subrange(0, i as int);
            proof {
                assert(sub1.drop_last() =~= sub0);
                assert(sub1.last() == ov[i as int]);
            }
            let ghost out0 = out.deep_view();
            if self.opportunities[i].customer_id == id {
                out.push(self.opportunities[i].item.duplicate());
                proof {
                    assert(out.deep_view() =~= out0.push(ov[i as int].item));
                    assert(opps_desc(sub1, id) == seq![ov[i as int].item] + opps_desc(sub0, id));
                    assert(out0.push(ov[i as int].item) + opps_desc(sub0, id) =~= out0 + (seq![
                        ov[i as int].item,
                    ] + opps_desc(sub0, id)));
                }
            } else {
                proof {
                    assert(opps_desc(sub1, id) == opps_desc(sub0, id));
                }
            }
        }
        proof {
            assert(ov.subrange(0, 0) =~= Seq::<OwnedOpportunityView>::empty());
            assert(out.deep_view() + opps_desc(ov.subrange(0, 0), id) =~= out.deep_view());
            lemma_opps_desc_sorted(ov, id);
        }
        out
    }

    /// Appends a validated opportunity to the customer's collection. A
    /// rejected payload, and a missing customer, leave the store
    /// untouched; on success the store assigns a fresh, non-nil id and a
    /// creation time later than every stored opportunity.
    pub fn add_opportunity(&mut self, id: CustomerId, body: Opportunity) -> (r: Result<
        (),
        ApiError,
    >)
        requires
            old(self).wf(),
            old(self).fresh_ids_available(),
        ensures
            final(self).wf(),
            final(self).insertions() <= old(self).insertions() + 1,
            !spec_opportunity_valid(body@) ==> r == Err::<(), ApiError>(ApiError::ValidationError)
                && *final(self) == *old(self),
            spec_opportunity_valid(body@) && !spec_customer_exists(
                old(self).customers_view(),
                id,
            ) ==> r == Err::<(), ApiError>(ApiError::NotFoundError) && *final(self) == *old(self),
            spec_opportunity_valid(body@) && spec_customer_exists(old(self).customers_view(), id)
                ==> r == Ok::<(), ApiError>(()) && final(self).customers_view() == old(
                self,
            ).customers_view() && final(self).opportunities_view() == old(
                self,
            ).opportunities_view().push(final(self).opportunities_view().last()) && {
                let rec = final(self).opportunities_view().last();
                &&& rec.customer_id == id
                &&& rec.item.name == body@.name
                &&& rec.item.status == body@.status
                &&& !rec.item.id.spec_is_nil()
                &&& forall|i: int|
                    0 <= i < old(self).opportunities_view().len() ==> (#[trigger] old(
                        self,
                    ).opportunities_view()[i]).item.id != rec.item.id
                &&& forall|i: int|
                    0 <= i < old(self).opportunities_view().len() ==> (#[trigger] old(
                        self,
                    ).opportunities_view()[i]).item.created < rec.item.created
            },
    {
        if !validate_opportunity(&body) {
            return Err(ApiError::ValidationError);
        }
        if self.find_customer(id).is_none() {
            return Err(ApiError::NotFoundError);
        }
        let item = Opportunity {
            id: Id { hi: 0, lo: self.counter + 1 },
            name: body.name,
            status: body.status,
            created: self.counter,
        };
        let rec = OwnedOpportunity { customer_id: id, item };
        self.opportunities.push(rec);
        self.counter = self.counter + 1;
        proof {
            let os0 = old(self).opportunities_view();
            let os1 = self.opportunities_view();
            let cs = self.customers_view();
            assert(cs =~= old(self).customers_view());
            assert(os1 =~= os0.push(os1.last()));
            assert forall|i: int|
                0 <= i < os0.len() implies (#[trigger] os0[i]).item.id != os1.last().item.id by {
                assert(os0[i].item.id.lo <= old(self).counter);
            }
            assert forall|i: int, j: int|
                #![trigger os1[i], os1[j]]
                0 <= i < j < os1.len() implies os1[i].item.id != os1[j].item.id && os1[i].item.created
                < os1[j].item.created by {
                if j + 1 == os1.len() {
                    assert(os1[i] == os0[i]);
                    assert(os0[i].item.id.lo <= old(self).counter);
                    assert(os0[i].item.created < old(self).counter);
                }
            }
            assert forall|i: int|
                0 <= i < os1.len() implies spec_customer_exists(
                cs,
                (#[trigger] os1[i]).customer_id,
            ) by {
                if i + 1 == os1.len() {
                    assert(spec_customer_exists(cs, id));
                } else {
                    assert(os1[i] == os0[i]);
                    assert(spec_customer_exists(old(self).customers_view(), os0[i].customer_id));
                }
            }
        }
        Ok(())
    }

    fn sorted_customers(&self, field: CustomerSortField, direction: SortDirection) -> (r: Vec<
        Customer,
    >)
        ensures
            r.deep_view().to_multiset() == self.customers_view().to_multiset(),
            spec_customers_sorted(r.deep_view(), field, direction),
    {
        let ghost cv = self.customers.deep_view();
        let mut out: Vec<Customer> = Vec::new();
        let mut i: usize = 0;
        proof {
            assert(cv.subrange(0, 0) =~= Seq::<CustomerView>::empty());
            assert(out.deep_view() =~= cv.subrange(0, 0));
        }
        while i < self.customers.len()
            invariant
                i <= self.customers.len(),
                cv == self.customers.deep_view(),
                out.deep_view().to_multiset() == cv.subrange(0, i as int).to_multiset(),
                spec_customers_sorted(out.deep_view(), field, direction),
            decreases self.customers.len() - i,
        {
            let c = self.customers[i].duplicate();
            let mut k: usize = 0;
            while k < out.len() && customer_le_exec(&out[k], &c, field, direction)
                invariant
                    k <= out.len(),
                    c@ == cv[i as int],
                    forall|j: int|
                        0 <= j < k ==> customer_le(
                            #[trigger] out.deep_view()[j],
                            c@,
                            field,
                            direction,
                        ),
                decreases out.len() - k,
            {
                k += 1;
            }
            let ghost pre = out.deep_view();
            out.insert(k, c);
            proof {
                assert(out.deep_view() =~= pre.insert(k as int, cv[i as int]));
                to_multiset_insert(pre, k as int, cv[i as int]);
                assert(cv.subrange(0, i + 1).drop_last() =~= cv.subrange(0, i as int));
                assert(cv.subrange(0, i + 1) =~= cv.subrange(0, i as int).push(cv[i as int]));
                to_multiset_build(cv.subrange(0, i as int), cv[i as int]);
                assert(out.deep_view().to_multiset() =~= cv.subrange(0, i + 1).to_multiset());
                let dv = out.deep_view();
                assert forall|x: int, y: int|
                    #![trigger dv[x], dv[y]]
                    0 <= x < y < dv.len() implies customer_le(dv[x], dv[y], field, direction) by {
                    if y < k as int {
                        assert(dv[x] == pre[x] && dv[y] == pre[y]);
                    } else if x > k as int {
                        assert(dv[x] == pre[x - 1] && dv[y] == pre[y - 1]);
                    } else if x < k as int && y == k as int {
                        assert(dv[x] == pre[x] && dv[y] == cv[i as int]);
                    } else if x < k as int && y > k as int {
                        assert(dv[x] == pre[x] && dv[y] == pre[y - 1]);
                    } else {
                        // x == k: the new record comes before everything it
                        // displaced, by totality at the stopping point and
                        // transitivity along the sorted tail
                        assert(dv[x] == cv[i as int] && dv[y] == pre[y - 1]);
                        lemma_customer_le_total(pre[k as int], cv[i as int], field, direction);
                        if y - 1 > k as int {
                            lemma_customer_le_trans(
                                cv[i as int],
                                pre[k as int],
                                pre[y - 1],
                                field,
                                direction,
                            );
                        }
                    }
                }
            }
            i += 1;
        }
        proof {
            assert(cv.subrange(0, cv.len() as int) =~= cv);
        }
        out
    }

    /// Lists one page of the customers, ordered by the requested field
    /// and direction: the window of the fully ordered sequence that
    /// starts at `offset` and holds at most `limit` entries.
    pub fn customers(&self, params: &CustomersQueryParams) -> (r: Vec<Customer>)
        ensures
            ({
                let total = self.customers_view().len() as int;
                let lo = if params.offset as int <= total {
                    params.offset as int
                } else {
                    total
                };
                let hi = if lo + params.limit as int <= total {
                    lo + params.limit as int
                } else {
                    total
                };
                &&& r.deep_view().len() == hi - lo
                &&& r.deep_view().len() <= params.limit
                &&& spec_customers_sorted(r.deep_view(), params.sort, params.direction)
                &&& forall|k: int|
                    0 <= k < r.deep_view().len() ==> self.customers_view().contains(
                        #[trigger] r.deep_view()[k],
                    )
                &&& exists|full: Seq<CustomerView>|
                    #[trigger] spec_sorted_of(
                        full,
                        self.customers_view(),
                        params.sort,
                        params.direction,
                    ) && r.deep_view() == full.subrange(lo, hi)
            }),
    {
        let sorted = self.sorted_customers(params.sort, params.direction);
        let total = sorted.len();
        proof {
            vstd::seq_lib::lemma_multiset_commutative(sorted.deep_view(), Seq::empty());
            assert(sorted.deep_view() + Seq::empty() =~= sorted.deep_view());
            assert(sorted.deep_view().to_multiset().len()
                == self.customers_view().to_multiset().len());
            sorted.deep_view().to_multiset_ensures();
            self.customers_view().to_multiset_ensures();
            assert(sorted.deep_view().len() == self.customers_view().len());
        }
        let lo = if params.offset <= total {
            params.offset
        } else {
            total
        };
        let remaining = total - lo;
        let take = if params.limit <= remaining {
            params.limit
        } else {
            remaining
        };
        let hi = lo + take;
        let mut out: Vec<Customer> = Vec::new();
        let mut i: usize = lo;
        proof {
            assert(out.deep_view() =~= sorted.deep_view().subrange(lo as int, lo as int));
        }
        while i < hi
            invariant
                lo <= i <= hi,
                hi <= total,
                total == sorted.len(),
                out.deep_view() == sorted.deep_view().subrange(lo as int, i as int),
            decreases hi - i,
        {
            let ghost pre = out.deep_view();
            out.push(sorted[i].duplicate());
            proof {
                assert(out.deep_view() =~= pre.push(sorted.deep_view()[i as int]));
                assert(out.deep_view() =~= sorted.deep_view().subrange(lo as int, i + 1));
            }
            i += 1;
        }
        proof {
            assert(spec_sorted_of(
                sorted.deep_view(),
                self.customers_view(),
                params.sort,
                params.direction,
            ));
            let dv = out.deep_view();
            let sv = sorted.deep_view();
            assert forall|x: int, y: int|
                #![trigger dv[x], dv[y]]
                0 <= x < y < dv.len() implies customer_le(dv[x], dv[y], params.sort, params.direction) by {
                assert(dv[x] == sv[lo as int + x]);
                assert(dv[y] == sv[lo as int + y]);
            }
            assert forall|k: int|
                0 <= k < dv.len() implies self.customers_view().contains(#[trigger] dv[k]) by {
                assert(dv[k] == sv[lo as int + k]);
                assert(sv.contains(sv[lo as int + k]));
                sv.to_multiset_ensures();
                self.customers_view().to_multiset_ensures();
                assert(sv.to_multiset().count(dv[k]) > 0);
                assert(self.customers_view().to_multiset().count(dv[k]) > 0);
            }
        }
        out
    }

    fn find_opportunity(&self, cid: CustomerId, oid: OpportunityId) -> (r: Option<usize>)
        ensures
            match r {
                Some(i) => i < self.opportunities_view().len() && self.opportunities_view()[i as int].customer_id
                    == cid && self.opportunities_view()[i as int].item.id == oid,
                None => !spec_has_opportunity(self.opportunities_view(), cid, oid),
            },
    {
        let mut i: usize = 0;
        while i < self.opportunities.len()
            invariant
                i <= self.opportunities.len(),
                forall|j: int|
                    0 <= j < i ==> !((#[trigger] self.opportunities.deep_view()[j]).customer_id
                        == cid && self.opportunities.deep_view()[j].item.id == oid),
            decreases self.opportunities.len() - i,
        {
            if self.opportunities[i].customer_id == cid && self.opportunities[i].item.id == oid {
                return Some(i);
            }
            i += 1;
        }
        None
    }

    /// Updates the name and status of the opportunity scoped by both the
    /// owning customer's id and the opportunity's id. A payload whose own
    /// id differs from the addressed id is rejected before anything else;
    /// an invalid payload is rejected; a missing record is an error.
    /// Nothing else of the record, or of the store, changes.
    pub fn update_opportunity(
        &mut self,
        id: CustomerId,
        oid: OpportunityId,
        body: Opportunity,
    ) -> (r: Result<(), ApiError>)
        requires
            old(self).wf(),
        ensures
            final(self).wf(),
            final(self).insertions() == old(self).insertions(),
            body@.id != oid ==> r == Err::<(), ApiError>(ApiError::ValidationError) && *final(self)
                == *old(self),
            body@.id == oid && !spec_opportunity_valid(body@) ==> r == Err::<(), ApiError>(
                ApiError::ValidationError,
            ) && *final(self) == *old(self),
            body@.id == oid && spec_opportunity_valid(body@) && !spec_has_opportunity(
                old(self).opportunities_view(),
                id,
                oid,
            ) ==> r == Err::<(), ApiError>(ApiError::NotFoundError) && *final(self) == *old(self),
            body@.id == oid && spec_opportunity_valid(body@) && spec_has_opportunity(
                old(self).opportunities_view(),
                id,
                oid,
            ) ==> r == Ok::<(), ApiError>(()) && final(self).customers_view() == old(
                self,
            ).customers_view() && forall|j: int|
                0 <= j < old(self).opportunities_view().len() && (#[trigger] old(
                    self,
                ).opportunities_view()[j]).customer_id == id && old(
                    self,
                ).opportunities_view()[j].item.id == oid ==> final(self).opportunities_view()
                    == old(self).opportunities_view().update(
                    j,
                    OwnedOpportunityView {
                        customer_id: id,
                        item: OpportunityView {
                            id: oid,
                            name: body@.name,
                            status: body@.status,
                            created: old(self).opportunities_view()[j].item.created,
                        },
                    },
                ),
    {
        if body.id != oid {
            return Err(ApiError::ValidationError);
        }
        if !validate_opportunity(&body) {
            return Err(ApiError::ValidationError);
        }
        match self.find_opportunity(id, oid) {
            None => Err(ApiError::NotFoundError),
            Some(j) => {
                let prev = self.opportunities.remove(j);
                let rec = OwnedOpportunity {
                    customer_id: prev.customer_id,
                    item: Opportunity {
                        id: prev.item.id,
                        name: body.name,
                        status: body.status,
                        created: prev.item.created,
                    },
                };
                self.opportunities.insert(j, rec);
                proof {
                    let os0 = old(self).opportunities_view();
                    let os1 = self.opportunities_view();
                    let v = os0[j as int];
                    let w = OwnedOpportunityView {
                        customer_id: id,
                        item: OpportunityView {
                            id: oid,
                            name: body@.name,
                            status: body@.status,
                            created: v.item.created,
                        },
                    };
                    assert(os1 =~= os0.update(j as int, w));
                    assert forall|jj: int|
                        0 <= jj < os0.len() && (#[trigger] os0[jj]).customer_id == id
                            && os0[jj].item.id == oid implies os1 == os0.update(
                        jj,
                        OwnedOpportunityView {
                            customer_id: id,
                            item: OpportunityView {
                                id: oid,
                                name: body@.name,
                                status: body@.status,
                                created: os0[jj].item.created,
                            },
                        },
                    ) by {
                        if jj != j as int {
                            assert(os0[jj].item.id != os0[j as int].item.id);
                        }
                    }
                    assert(self.customers_view() =~= old(self).customers_view());
                    assert forall|a: int, b: int|
                        #![trigger os1[a], os1[b]]
                        0 <= a < b < os1.len() implies os1[a].item.id != os1[b].item.id
                        && os1[a].item.created < os1[b].item.created by {
                        assert(os0[a].item.id == os1[a].item.id);
                        assert(os0[b].item.id == os1[b].item.id);
                        assert(os0[a].item.created == os1[a].item.created);
                        assert(os0[b].item.created == os1[b].item.created);
                    }
                    assert forall|a: int|
                        0 <= a < os1.len() implies spec_customer_exists(
                        self.customers_view(),
                        (#[trigger] os1[a]).customer_id,
                    ) && spec_opportunity_valid(os1[a].item) by {
                        assert(os1[a].customer_id == os0[a].customer_id);
                        assert(spec_customer_exists(
                            old(self).customers_view(),
                            os0[a].customer_id,
                        ));
                        assert(spec_opportunity_valid(os0[a].item));
                    }
                }
                Ok(())
            },
        }
    }

    /// Deletes the opportunity scoped by both ids. Deleting an absent
    /// record is not an error: the store is simply left as it is.
    pub fn delete_opportunity(&mut self, id: CustomerId, oid: OpportunityId) -> (r: Result<
        (),
        ApiError,
    >)
        requires
            old(self).wf(),
        ensures
            final(self).wf(),
            final(self).insertions() == old(self).insertions(),
            r == Ok::<(), ApiError>(()),
            final(self).customers_view() == old(self).customers_view(),
            final(self).opportunities_view() == old(self).opportunities_view().filter(
                |o: OwnedOpportunityView| !(o.customer_id == id && o.item.id == oid),
            ),
            !spec_has_opportunity(old(self).opportunities_view(), id, oid) ==> final(self).opportunities_view() == old(self).opportunities_view(),
    {
        let ghost ov = self.opportunities.deep_view();
        let ghost p = |o: OwnedOpportunityView| !(o.customer_id == id && o.item.id == oid);
        let mut kept: Vec<OwnedOpportunity> = Vec::new();
        let mut i: usize = 0;
        proof {
            reveal(Seq::filter);
            assert(ov.subrange(0, 0) =~= Seq::<OwnedOpportunityView>::empty());
            assert(kept.deep_view() =~= ov.subrange(0, 0).filter(p));
        }
        while i < self.opportunities.len()
            invariant
                i <= self.opportunities.len(),
                ov == self.opportunities.deep_view(),
                p == (|o: OwnedOpportunityView| !(o.customer_id == id && o.item.id == oid)),
                kept.deep_view() == ov.subrange(0, i as int).filter(p),
            decreases self.opportunities.len() - i,
        {
            let ghost pre = kept.deep_view();
            let matches = self.opportunities[i].customer_id == id && self.opportunities[i].item.id
                == oid;
            if !matches {
                kept.push(self.opportunities[i].duplicate());
            }
            proof {
                reveal(Seq::filter);
                let sub1 = ov.subrange(0, i + 1);
                assert(sub1.drop_last() =~= ov.subrange(0, i as int));
                assert(sub1.last() == ov[i as int]);
                if !matches {
                    assert(kept.deep_view() =~= pre.push(ov[i as int]));
                }
            }
            i += 1;
        }
        proof {
            assert(ov.subrange(0, ov.len() as int) =~= ov);
        }
        self.opportunities = kept;
        proof {
            let os0 = old(self).opportunities_view();
            let os1 = self.opportunities_view();
            let cs = self.customers_view();
            assert(cs =~= old(self).customers_view());
            assert(os1 == os0.filter(p));
            lemma_filter_pairwise(
                os0,
                p,
                |a: OwnedOpportunityView, b: OwnedOpportunityView|
                    a.item.id != b.item.id && a.item.created < b.item.created,
            );
            lemma_filter_pointwise(
                os0,
                p,
                |o: OwnedOpportunityView|
                    spec_customer_exists(old(self).customers_view(), o.customer_id)
                        && spec_opportunity_valid(o.item) && o.item.id.hi == 0 && 1 <= o.item.id.lo
                        <= old(self).counter && o.item.created < old(self).counter,
            );
            if !spec_has_opportunity(os0, id, oid) {
                assert forall|k: int| 0 <= k < os0.len() implies p(#[trigger] os0[k]) by {
                    if !p(os0[k]) {
                        assert(spec_has_opportunity(os0, id, oid));
                    }
                }
                lemma_filter_all(os0, p);
            }
        }
        Ok(())
    }

    /// Removes the customer carrying the id together with every
    /// opportunity it owns; a missing customer is a not-found error.
    pub fn remove_customer(&mut self, id: CustomerId) -> (r: Result<(), ApiError>)
        requires
            old(self).wf(),
        ensures
            final(self).wf(),
            final(self).insertions() == old(self).insertions(),
            r is Ok <==> spec_customer_exists(old(self).customers_view(), id),
            r is Err ==> r == Err::<(), ApiError>(ApiError::NotFoundError) && *final(self) == *old(
                self,
            ),
            r is Ok ==> final(self).customers_view() == old(self).customers_view().filter(
                |c: CustomerView| c.id != id,
            ) && final(self).opportunities_view() == old(self).opportunities_view().filter(
                |o: OwnedOpportunityView| o.customer_id != id,
            ),
    {
        if self.find_customer(id).is_none() {
            return Err(ApiError::NotFoundError);
        }
        let ghost cv = self.customers.deep_view();
        let ghost pc = |c: CustomerView| c.id != id;
        let mut kept_c: Vec<Customer> = Vec::new();
        let mut i: usize = 0;
        proof {
            reveal(Seq::filter);
            assert(cv.subrange(0, 0) =~= Seq::<CustomerView>::empty());
            assert(kept_c.deep_view() =~= cv.subrange(0, 0).filter(pc));
        }
        while i < self.customers.len()
            invariant
                i <= self.customers.len(),
                cv == self.customers.deep_view(),
                pc == (|c: CustomerView| c.id != id),
                kept_c.deep_view() == cv.subrange(0, i as int).filter(pc),
            decreases self.customers.len() - i,
        {
            let ghost pre = kept_c.deep_view();
            let keep = !(self.customers[i].id == id);
            if keep {
                kept_c.push(self.customers[i].duplicate());
            }
            proof {
                reveal(Seq::filter);
                let sub1 = cv.subrange(0, i + 1);
                assert(sub1.drop_last() =~= cv.subrange(0, i as int));
                assert(sub1.last() == cv[i as int]);
                if keep {
                    assert(kept_c.deep_view() =~= pre.push(cv[i as int]));
                }
            }
            i += 1;
        }
        proof {
            assert(cv.subrange(0, cv.len() as int) =~= cv);
        }
        self.customers = kept_c;
        let ghost ov = self.opportunities.deep_view();
        let ghost po = |o: OwnedOpportunityView| o.customer_id != id;
        let mut kept_o: Vec<OwnedOpportunity> = Vec::new();
        let mut k: usize = 0;
        proof {
            reveal(Seq::filter);
            assert(ov.subrange(0, 0) =~= Seq::<OwnedOpportunityView>::empty());
            assert(kept_o.deep_view() =~= ov.subrange(0, 0).filter(po));
        }
        while k < self.opportunities.len()
            invariant
                k <= self.opportunities.len(),
                ov == self.opportunities.deep_view(),
                po == (|o: OwnedOpportunityView| o.customer_id != id),
                kept_o.deep_view() == ov.subrange(0, k as int).filter(po),
            decreases self.opportunities.len() - k,
        {
            let ghost pre = kept_o.deep_view();
            let keep = !(self.opportunities[k].customer_id == id);
            if keep {
                kept_o.push(self.opportunities[k].duplicate());
            }
            proof {
                reveal(Seq::filter);
                let sub1 = ov.subrange(0, k + 1);
                assert(sub1.drop_last() =~= ov.subrange(0, k as int));
                assert(sub1.last() == ov[k as int]);
                if keep {
                    assert(kept_o.deep_view() =~= pre.push(ov[k as int]));
                }
            }
            k += 1;
        }
        proof {
            assert(ov.subrange(0, ov.len() as int) =~= ov);
        }
        self.opportunities = kept_o;
        proof {
            let cs0 = old(self).customers_view();
            let os0 = old(self).opportunities_view();
            let cs1 = self.customers_view();
            let os1 = self.opportunities_view();
            assert(cs1 == cs0.filter(pc));
            assert(os1 == os0.filter(po));
            lemma_filter_pairwise(
                cs0,
                pc,
                |a: CustomerView, b: CustomerView| a.id != b.id,
            );
            lemma_filter_pointwise(
                cs0,
                pc,
                |c: CustomerView| c.id.hi == 0 && 1 <= c.id.lo <= old(self).counter && c.created
                    < old(self).counter,
            );
            lemma_filter_pairwise(
                os0,
                po,
                |a: OwnedOpportunityView, b: OwnedOpportunityView|
                    a.item.id != b.item.id && a.item.created < b.item.created,
            );
            lemma_filter_pointwise(
                os0,
                po,
                |o: OwnedOpportunityView|
                    spec_opportunity_valid(o.item) && o.item.id.hi == 0 && 1 <= o.item.id.lo <= old(
                        self,
                    ).counter && o.item.created < old(self).counter,
            );
            assert forall|a: int|
                0 <= a < os1.len() implies spec_customer_exists(
                cs1,
                (#[trigger] os1[a]).customer_id,
            ) by {
                os0.lemma_filter_pred(po, a);
                lemma_filter_elem_of(os0, po, a);
                let m = choose|m: int| 0 <= m < os0.len() && #[trigger] os0[m] == os1[a];
                assert(spec_customer_exists(cs0, os0[m].customer_id));
                let c = choose|c: int|
                    0 <= c < cs0.len() && #[trigger] cs0[c].id == os0[m].customer_id;
                assert(pc(cs0[c]));
                cs0.lemma_filter_contains(pc, c);
                let w = choose|w: int| 0 <= w < cs1.len() && #[trigger] cs1[w] == cs0[c];
                assert(cs1[w].id == os1[a].customer_id);
            }
        }
        Ok(())
    }
}

} // verus!
