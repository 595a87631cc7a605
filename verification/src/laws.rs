//! General properties of the store that relate several operations,
//! stated over the models the operations' contracts use.

use vstd::prelude::*;

use crate::data::CustomerId;
use crate::data::CustomerView;
use crate::store::lemma_opps_desc_element;
use crate::store::opps_desc;
use crate::store::records_invariant;
use crate::store::OwnedOpportunityView;
use crate::validate::spec_name_valid;
use crate::validate::spec_status_valid;

verus! {

/// Every entry a listing shows passed validation: its name has the
/// accepted length and its status is one of the enumerated values. An
/// invalid payload is rejected at creation and at update and leaves the
/// store unchanged, so no listing ever shows it.
pub proof fn lemma_listing_entries_valid(
    cs: Seq<CustomerView>,
    os: Seq<OwnedOpportunityView>,
    cid: CustomerId,
    k: int,
)
    requires
        records_invariant(cs, os),
        0 <= k < opps_desc(os, cid).len(),
    ensures
        spec_name_valid(opps_desc(os, cid)[k].name),
        spec_status_valid(opps_desc(os, cid)[k].status),
{
    lemma_opps_desc_element(os, cid, k);
    let m = choose|m: int|
        0 <= m < os.len() && (#[trigger] os[m]).customer_id == cid && os[m].item == opps_desc(
            os,
            cid,
        )[k];
    assert(os[m].customer_id == cid);
}

/// A customer that owns nothing has an empty listing.
pub proof fn lemma_opps_desc_none(os: Seq<OwnedOpportunityView>, cid: CustomerId)
    requires
        forall|i: int| 0 <= i < os.len() ==> (#[trigger] os[i]).customer_id != cid,
    ensures
        opps_desc(os, cid) == Seq::<crate::data::OpportunityView>::empty(),
    decreases os.len(),
{
    if os.len() == 0 {
    } else {
        let t = os.drop_last();
        assert forall|i: int| 0 <= i < t.len() implies (#[trigger] t[i]).customer_id != cid by {
            assert(os[i].customer_id != cid);
        }
        lemma_opps_desc_none(t, cid);
    }
}

/// After one opportunity is appended for a customer that owned nothing,
/// the customer's listing shows exactly that record.
pub proof fn lemma_single_owner_listing(
    os: Seq<OwnedOpportunityView>,
    cid: CustomerId,
    rec: OwnedOpportunityView,
)
    requires
        forall|i: int| 0 <= i < os.len() ==> (#[trigger] os[i]).customer_id != cid,
        rec.customer_id == cid,
    ensures
        opps_desc(os.push(rec), cid) == seq![rec.item],
{
    lemma_opps_desc_none(os, cid);
    let s = os.push(rec);
    assert(s.drop_last() =~= os);
    assert(s.last() == rec);
    assert(opps_desc(s, cid) =~= seq![rec.item]);
}

} // verus!
