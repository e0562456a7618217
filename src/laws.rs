//! Properties that relate several calls of the reconciliation engine.
use vstd::prelude::*;
use crate::provider::{
    CustomerRecordView, CustomerRefView, Event, EventPage, EventType, find_record, is_final_page,
    is_subscription_event, pages_read, ref_customer_id,
};
use crate::reconcile::{BillingError, handle_all, handle_spec, resolve_fetches, resolve_spec};
use crate::store::{
    Tables, find_customer, find_user, has_customer_id, lemma_first_index, lemma_first_index_push,
    tables_wf,
};

verus! {

/// Once a billing customer exists for a provider customer ID, resolving any
/// reference to that ID returns it, fetches nothing from the provider, and
/// writes nothing.
pub proof fn lemma_resolve_fast_path(t: Tables, records: Seq<CustomerRecordView>, r: CustomerRefView)
    requires
        find_customer(t.customers, ref_customer_id(r)) is Some,
    ensures
        resolve_spec(t, records, r) == (t, Ok::<_, BillingError>(find_customer(t.customers, ref_customer_id(r)))),
        !resolve_fetches(t, r),
{
}

/// Resolving the same reference a second time returns what the first call
/// returned, and the second call fetches nothing and writes nothing.
pub proof fn lemma_resolve_idempotent(t: Tables, records: Seq<CustomerRecordView>, r: CustomerRefView)
    requires
        tables_wf(t),
    ensures
        ({
            let (t1, first) = resolve_spec(t, records, r);
            &&& resolve_spec(t1, records, r) == (t1, first)
            &&& (first matches Ok(Some(_)) ==> !resolve_fetches(t1, r))
        }),
{
    let pid = ref_customer_id(r);
    let (t1, first) = resolve_spec(t, records, r);
    if find_customer(t.customers, pid) is None {
        let record = match r {
            CustomerRefView::Object(c) => Some(c),
            CustomerRefView::Id(id) => find_record(records, id),
        };
        if let CustomerRefView::Id(id) = r {
            lemma_first_index(records, crate::provider::has_record_id(id));
        }
        if let Some(rec) = record {
            assert(rec.id == pid);
            let c = t1.customers.last();
            if first matches Ok(Some(_)) {
                lemma_first_index_push(t.customers, has_customer_id(pid), c);
                assert(t1.customers == t.customers.push(c));
            }
        }
    }
}

/// A provider customer whose email matches no local user resolves to nothing,
/// without an error and without a new row.
pub proof fn lemma_unlinkable_customer(t: Tables, records: Seq<CustomerRecordView>, r: CustomerRefView, email: Seq<char>)
    requires
        find_customer(t.customers, ref_customer_id(r)) is None,
        match r {
            CustomerRefView::Object(c) => c.email == Some(email),
            CustomerRefView::Id(id) => find_record(records, id) matches Some(c) && c.email == Some(email),
        },
        find_user(t.users, email) is None,
    ensures
        resolve_spec(t, records, r) == (t, Ok::<_, BillingError>(None::<crate::store::BillingCustomerView>)),
{
}

/// A walk of the event log stops after exactly the pages up to and including
/// the first one that reports no more pages: every page before it reports
/// more.
pub proof fn lemma_pages_read(pages: Seq<EventPage>)
    ensures
        pages_read(pages) matches Some(n) ==> {
            &&& 1 <= n <= pages.len()
            &&& !pages[n - 1].has_more
            &&& forall|k: int| 0 <= k < n - 1 ==> (#[trigger] pages[k]).has_more
        },
        pages_read(pages) is None ==> forall|k: int| 0 <= k < pages.len() ==> (#[trigger] pages[k]).has_more,
{
    lemma_first_index(pages, is_final_page());
    if let Some(n) = pages_read(pages) {
        assert forall|k: int| 0 <= k < n - 1 implies (#[trigger] pages[k]).has_more by {
            assert(!is_final_page()(pages[k]));
        }
    } else {
        assert forall|k: int| 0 <= k < pages.len() implies (#[trigger] pages[k]).has_more by {
            assert(!is_final_page()(pages[k]));
        }
    }
}

/// An event whose object does not fit its declared type is skipped: the
/// events around it are handled exactly as if it were not there.
pub proof fn lemma_malformed_event_isolated(
    t: Tables,
    records: Seq<CustomerRecordView>,
    first: Event,
    malformed: Event,
    last: Event,
    now: i64,
)
    requires
        (malformed.type_ == EventType::CustomerCreated && !(malformed.object is Customer)) || (is_subscription_event(
            malformed.type_,
        ) && !(malformed.object is Subscription)),
    ensures
        handle_all(t, records, seq![first, malformed, last], now) == handle_all(t, records, seq![first, last], now),
        handle_spec(handle_spec(t, records, first, now).0, records, malformed, now) == (
        handle_spec(t, records, first, now).0,
        Err::<(), BillingError>(BillingError::UnexpectedPayload),
        ),
{
    let three = seq![first, malformed, last];
    let two = seq![first, last];
    assert(three.drop_last() =~= seq![first, malformed]);
    assert(three.drop_last().drop_last() =~= seq![first]);
    assert(three.drop_last().drop_last().drop_last() =~= Seq::<Event>::empty());
    assert(two.drop_last() =~= seq![first]);
    assert(two.drop_last().drop_last() =~= Seq::<Event>::empty());
    let after_first = handle_spec(t, records, first, now).0;
    let one = seq![first];
    assert(one.drop_last() =~= Seq::<Event>::empty());
    assert(handle_all(t, records, one.drop_last(), now) == t);
    assert(one.last() == first);
    assert(handle_all(t, records, one, now) == after_first);
    assert(seq![first, malformed].drop_last() =~= one);
    assert(handle_all(t, records, seq![first, malformed], now) == after_first);
}

} // verus!
