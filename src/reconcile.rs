//! Reconciliation: resolving provider customers to local billing customers,
//! handling single events, and walking the event log page by page.
use vstd::prelude::*;
use crate::provider::{
    CustomerDirectory, CustomerRecord, CustomerRecordView, CustomerRef, CustomerRefView, Event, EventObject,
    EventPage, EventType, events_of, find_record, is_final_page, is_subscription_event, pages_read,
    ref_customer_id,
};
use crate::status::{StripeSubscriptionStatus, status_of};
use crate::store::{
    BillingCustomer, BillingCustomerView, BillingStore, StoreError, Tables, create_customer_error, find_customer,
    find_user, first_index, has_email, lemma_first_index, upsert_error, with_customer, with_subscription,
};

verus! {

/// Why reconciling an event, or a whole cycle, did not succeed.
#[derive(Clone, Copy, Debug, PartialEq, Eq, Structural)]
pub enum BillingError {
    /// The provider has no customer under the referenced ID.
    CustomerNotFound,
    /// The event carries an object of the wrong kind for its type.
    UnexpectedPayload,
    /// A subscription's customer could not be linked to a local user.
    BillingCustomerNotFound,
    /// A page of the event log could not be fetched.
    EventsUnavailable,
    /// A local write failed.
    Store(StoreError),
}

/// The result of resolving a customer, as the contracts see it.
pub type ResolveResult = Result<Option<BillingCustomerView>, BillingError>;

/// The view of a resolution result.
pub open spec fn resolve_result_view(r: Result<Option<BillingCustomer>, BillingError>) -> ResolveResult {
    match r {
        Ok(Some(c)) => Ok(Some(c@)),
        Ok(None) => Ok(None),
        Err(e) => Err(e),
    }
}

/// Whether resolving `r` against tables `t` fetches the customer from the
/// provider: only when no billing customer has its ID yet and the reference
/// holds no record.
pub open spec fn resolve_fetches(t: Tables, r: CustomerRefView) -> bool {
    find_customer(t.customers, ref_customer_id(r)) is None && r is Id
}

/// The tables after resolving `r`, and the outcome: an existing billing
/// customer with the referenced ID; otherwise, for a record whose email
/// belongs to a local user, a new billing customer for that user; otherwise
/// nothing.
pub open spec fn resolve_spec(t: Tables, records: Seq<CustomerRecordView>, r: CustomerRefView) -> (Tables, ResolveResult) {
    match find_customer(t.customers, ref_customer_id(r)) {
        Some(c) => (t, Ok(Some(c))),
        None => {
            let record = match r {
                CustomerRefView::Object(c) => Some(c),
                CustomerRefView::Id(id) => find_record(records, id),
            };
            match record {
                None => (t, Err(BillingError::CustomerNotFound)),
                Some(rec) => match rec.email {
                    None => (t, Ok(None)),
                    Some(email) => match find_user(t.users, email) {
                        None => (t, Ok(None)),
                        Some(u) => match create_customer_error(t, u.id) {
                            Some(e) => (t, Err(BillingError::Store(e))),
                            None => {
                                let t2 = with_customer(t, u.id, rec.id);
                                (t2, Ok(Some(t2.customers.last())))
                            },
                        },
                    },
                },
            }
        },
    }
}

/// Finds the billing customer for a provider customer, creating it when the
/// customer's email belongs to a local user and none exists yet.
pub fn find_or_create_billing_customer(
    store: &mut BillingStore,
    directory: &mut CustomerDirectory,
    customer_or_id: &CustomerRef,
) -> (r: Result<Option<BillingCustomer>, BillingError>)
    requires
        old(store).wf(),
    ensures
        final(store).wf(),
        (final(store)@, resolve_result_view(r)) == resolve_spec(old(store)@, old(directory).records(), customer_or_id@),
        final(directory).customers@ == old(directory).customers@,
        if resolve_fetches(old(store)@, customer_or_id@) {
            &&& final(directory).fetched@.len() == old(directory).fetched@.len() + 1
            &&& final(directory).fetched@.last()@ == ref_customer_id(customer_or_id@)
            &&& final(directory).fetched@.drop_last() == old(directory).fetched@
        } else {
            final(directory).fetched@ == old(directory).fetched@
        },
{
    let customer_id = customer_or_id.customer_id();
    if let Some(billing_customer) = store.get_billing_customer_by_stripe_customer_id(customer_id) {
        return Ok(Some(billing_customer));
    }
    let fetched: CustomerRecord;
    let customer: &CustomerRecord = match customer_or_id {
        CustomerRef::Id(id) => match directory.fetch_customer(id) {
            Some(c) => {
                fetched = c;
                &fetched
            },
            None => return Err(BillingError::CustomerNotFound),
        },
        CustomerRef::Object(c) => c,
    };
    let email = match &customer.email {
        Some(e) => e,
        None => return Ok(None),
    };
    let user = match store.get_user_by_email(email) {
        Some(u) => u,
        None => return Ok(None),
    };
    proof {
        lemma_first_index(store@.users, has_email(email@));
    }
    match store.create_billing_customer(user.id, customer.id.clone()) {
        Ok(c) => Ok(Some(c)),
        Err(e) => Err(BillingError::Store(e)),
    }
}

/// The tables after handling a customer event, and whether it was handled:
/// the customer it carries is resolved; an event that carries anything else
/// changes nothing.
pub open spec fn customer_event_spec(t: Tables, records: Seq<CustomerRecordView>, event: Event) -> (Tables, Result<(), BillingError>) {
    match event.object {
        EventObject::Customer(c) => {
            let (t2, res) = resolve_spec(t, records, CustomerRefView::Object(c@));
            (t2, match res {
                Ok(_) => Ok(()),
                Err(e) => Err(e),
            })
        },
        _ => (t, Err(BillingError::UnexpectedPayload)),
    }
}

/// The tables after handling a subscription event, and whether it was
/// handled: the subscription's customer is resolved and the subscription
/// upserted under it with its mapped status; a customer that resolves to
/// nothing is an error, and an event that carries anything but a
/// subscription changes nothing.
pub open spec fn subscription_event_spec(t: Tables, records: Seq<CustomerRecordView>, event: Event, now: i64) -> (Tables, Result<(), BillingError>) {
    match event.object {
        EventObject::Subscription(sub) => {
            let (t2, res) = resolve_spec(t, records, sub.customer@);
            match res {
                Err(e) => (t2, Err(e)),
                Ok(None) => (t2, Err(BillingError::BillingCustomerNotFound)),
                Ok(Some(c)) => match upsert_error(t2, c.id, sub.id@) {
                    Some(e) => (t2, Err(BillingError::Store(e))),
                    None => (with_subscription(t2, c.id, sub.id@, status_of(sub.status), now), Ok(())),
                },
            }
        },
        _ => (t, Err(BillingError::UnexpectedPayload)),
    }
}

/// The tables after handling an event, and whether it was handled: events
/// are routed by their declared type, and other types are ignored.
pub open spec fn handle_spec(t: Tables, records: Seq<CustomerRecordView>, event: Event, now: i64) -> (Tables, Result<(), BillingError>) {
    if event.type_ == EventType::CustomerCreated {
        customer_event_spec(t, records, event)
    } else if is_subscription_event(event.type_) {
        subscription_event_spec(t, records, event, now)
    } else {
        (t, Ok(()))
    }
}

/// The tables after handling each of `events` in order, each one whatever
/// became of those before it.
pub open spec fn handle_all(t: Tables, records: Seq<CustomerRecordView>, events: Seq<Event>, now: i64) -> Tables
    decreases events.len(),
{
    if events.len() == 0 {
        t
    } else {
        handle_spec(handle_all(t, records, events.drop_last(), now), records, events.last(), now).0
    }
}

/// Handles an event that announces a new customer.
pub fn handle_customer_event(
    store: &mut BillingStore,
    directory: &mut CustomerDirectory,
    event: &Event,
) -> (r: Result<(), BillingError>)
    requires
        old(store).wf(),
    ensures
        final(store).wf(),
        (final(store)@, r) == customer_event_spec(old(store)@, old(directory).records(), *event),
        final(directory).customers@ == old(directory).customers@,
{
    let customer = match &event.object {
        EventObject::Customer(c) => c,
        _ => return Err(BillingError::UnexpectedPayload),
    };
    let customer_ref = CustomerRef::Object(customer.clone());
    match find_or_create_billing_customer(store, directory, &customer_ref) {
        Ok(_) => Ok(()),
        Err(e) => Err(e),
    }
}

/// Handles an event about a subscription's lifecycle.
pub fn handle_customer_subscription_event(
    store: &mut BillingStore,
    directory: &mut CustomerDirectory,
    event: &Event,
    now: i64,
) -> (r: Result<(), BillingError>)
    requires
        old(store).wf(),
    ensures
        final(store).wf(),
        (final(store)@, r) == subscription_event_spec(old(store)@, old(directory).records(), *event, now),
        final(directory).customers@ == old(directory).customers@,
{
    let subscription = match &event.object {
        EventObject::Subscription(s) => s,
        _ => return Err(BillingError::UnexpectedPayload),
    };
    let billing_customer = match find_or_create_billing_customer(store, directory, &subscription.customer) {
        Ok(Some(c)) => c,
        Ok(None) => return Err(BillingError::BillingCustomerNotFound),
        Err(e) => return Err(e),
    };
    let status = StripeSubscriptionStatus::from(subscription.status);
    match store.upsert_billing_subscription_by_stripe_subscription_id(
        billing_customer.id,
        &subscription.id,
        status,
        now,
    ) {
        Ok(()) => Ok(()),
        Err(e) => Err(BillingError::Store(e)),
    }
}

/// Routes an event by its type.
pub fn handle_event(
    store: &mut BillingStore,
    directory: &mut CustomerDirectory,
    event: &Event,
    now: i64,
) -> (r: Result<(), BillingError>)
    requires
        old(store).wf(),
    ensures
        final(store).wf(),
        (final(store)@, r) == handle_spec(old(store)@, old(directory).records(), *event, now),
        final(directory).customers@ == old(directory).customers@,
{
    match event.type_ {
        EventType::CustomerCreated => handle_customer_event(store, directory, event),
        EventType::CustomerSubscriptionCreated
        | EventType::CustomerSubscriptionUpdated
        | EventType::CustomerSubscriptionPaused
        | EventType::CustomerSubscriptionResumed
        | EventType::CustomerSubscriptionDeleted => handle_customer_subscription_event(store, directory, event, now),
        EventType::Other => Ok(()),
    }
}

proof fn lemma_handle_all_push(t: Tables, records: Seq<CustomerRecordView>, events: Seq<Event>, e: Event, now: i64)
    ensures
        handle_all(t, records, events.push(e), now) == handle_spec(handle_all(t, records, events, now), records, e, now).0,
{
    assert(events.push(e).drop_last() =~= events);
}

proof fn lemma_handle_all_concat(t: Tables, records: Seq<CustomerRecordView>, a: Seq<Event>, b: Seq<Event>, now: i64)
    ensures
        handle_all(t, records, a + b, now) == handle_all(handle_all(t, records, a, now), records, b, now),
    decreases b.len(),
{
    if b.len() == 0 {
        assert(a + b =~= a);
    } else {
        lemma_handle_all_concat(t, records, a, b.drop_last(), now);
        assert((a + b).drop_last() =~= a + b.drop_last());
        assert((a + b).last() == b.last());
    }
}

/// Handles every event of one fetched page in order, a failed event being
/// skipped, and returns whether the provider has more pages after it.
pub fn process_page(
    store: &mut BillingStore,
    directory: &mut CustomerDirectory,
    page: &EventPage,
    now: i64,
) -> (r: bool)
    requires
        old(store).wf(),
    ensures
        final(store).wf(),
        final(directory).customers@ == old(directory).customers@,
        final(store)@ == handle_all(old(store)@, old(directory).records(), page.data@, now),
        r == page.has_more,
{
    let ghost t0 = store@;
    let ghost records = directory.records();
    let events = &page.data;
    let mut j: usize = 0;
    while j < events.len()
        invariant
            j <= events@.len(),
            t0 == old(store)@,
            events == page.data,
            store.wf(),
            directory.customers@ == old(directory).customers@,
            records == old(directory).records(),
            store@ == handle_all(t0, records, events@.subrange(0, j as int), now),
        decreases events@.len() - j,
    {
        let _ = handle_event(store, directory, &events[j], now);
        proof {
            lemma_handle_all_push(t0, records, events@.subrange(0, j as int), events@[j as int], now);
            assert(events@.subrange(0, j as int).push(events@[j as int]) =~= events@.subrange(0, j + 1));
        }
        j += 1;
    }
    proof {
        assert(events@.subrange(0, j as int) =~= events@);
    }
    page.has_more
}

/// The provider customer ID that an event names by ID alone, if any: that of
/// a subscription event whose subscription refers to its customer by ID.
pub open spec fn referenced_customer_id(e: Event) -> Option<Seq<char>> {
    if is_subscription_event(e.type_) {
        match e.object {
            EventObject::Subscription(sub) => match sub.customer {
                CustomerRef::Id(id) => Some(id@),
                _ => None,
            },
            _ => None,
        }
    } else {
        None
    }
}

/// The IDs of the provider customers that handling `page` may fetch: those
/// that its subscription events name by ID alone and that have no billing
/// customer yet.
pub fn customer_ids_to_fetch(store: &BillingStore, page: &EventPage) -> (r: Vec<String>)
    ensures
        forall|k: int|
            0 <= k < r@.len() ==> find_customer(store@.customers, #[trigger] r@[k]@) is None && exists|j: int|
                0 <= j < page.data@.len() && referenced_customer_id(#[trigger] page.data@[j]) == Some(r@[k]@),
        forall|j: int|
            0 <= j < page.data@.len() && (#[trigger] referenced_customer_id(page.data@[j])) is Some && find_customer(
                store@.customers,
                referenced_customer_id(page.data@[j])->0,
            ) is None ==> exists|k: int| 0 <= k < r@.len() && r@[k]@ == referenced_customer_id(page.data@[j])->0,
{
    let events = &page.data;
    let mut r: Vec<String> = Vec::new();
    let mut i: usize = 0;
    while i < events.len()
        invariant
            i <= events@.len(),
            events == page.data,
            forall|k: int|
                0 <= k < r@.len() ==> find_customer(store@.customers, #[trigger] r@[k]@) is None && exists|j: int|
                    0 <= j < i && referenced_customer_id(#[trigger] page.data@[j]) == Some(r@[k]@),
            forall|j: int|
                0 <= j < i && (#[trigger] referenced_customer_id(page.data@[j])) is Some && find_customer(
                    store@.customers,
                    referenced_customer_id(page.data@[j])->0,
                ) is None ==> exists|k: int| 0 <= k < r@.len() && r@[k]@ == referenced_customer_id(page.data@[j])->0,
        decreases events@.len() - i,
    {
        let e = &events[i];
        let is_subscription = match e.type_ {
            EventType::CustomerSubscriptionCreated
            | EventType::CustomerSubscriptionUpdated
            | EventType::CustomerSubscriptionPaused
            | EventType::CustomerSubscriptionResumed
            | EventType::CustomerSubscriptionDeleted => true,
            _ => false,
        };
        if is_subscription {
            if let EventObject::Subscription(sub) = &e.object {
                if let CustomerRef::Id(id) = &sub.customer {
                    if store.get_billing_customer_by_stripe_customer_id(id).is_none() {
                        let ghost before = r@;
                        r.push(id.clone());
                        proof {
                            assert(r@[r@.len() - 1]@ == id@);
                            assert(referenced_customer_id(page.data@[i as int]) == Some(id@));
                            assert forall|k: int| 0 <= k < before.len() implies r@[k] == before[k] by {}
                        }
                    }
                }
            }
        }
        i += 1;
    }
    r
}

/// Runs one poll cycle over the event log: each page is read in turn and each
/// of its events handled, a failed event being skipped, until a page reports
/// that no more follow. Returns the number of pages read; fails when a page
/// that should follow is not there, keeping what the earlier pages did.
pub fn poll_stripe_events(
    store: &mut BillingStore,
    directory: &mut CustomerDirectory,
    pages: &Vec<EventPage>,
    now: i64,
) -> (r: Result<usize, BillingError>)
    requires
        old(store).wf(),
    ensures
        final(store).wf(),
        final(directory).customers@ == old(directory).customers@,
        match pages_read(pages@) {
            Some(n) => r == Ok::<usize, BillingError>(n as usize) && final(store)@ == handle_all(
                old(store)@,
                old(directory).records(),
                events_of(pages@, n),
                now,
            ),
            None => r == Err::<usize, BillingError>(BillingError::EventsUnavailable) && final(store)@ == handle_all(
                old(store)@,
                old(directory).records(),
                events_of(pages@, pages@.len() as int),
                now,
            ),
        },
{
    let ghost t0 = store@;
    let ghost records = directory.records();
    let mut page: usize = 0;
    loop
        invariant
            page <= pages@.len(),
            t0 == old(store)@,
            store.wf(),
            directory.customers@ == old(directory).customers@,
            records == old(directory).records(),
            first_index(pages@.subrange(0, page as int), is_final_page()) is None,
            store@ == handle_all(t0, records, events_of(pages@, page as int), now),
        decreases pages@.len() - page,
    {
        if page >= pages.len() {
            proof {
                assert(pages@.subrange(0, page as int) =~= pages@);
            }
            return Err(BillingError::EventsUnavailable);
        }
        let ghost before = events_of(pages@, page as int);
        let has_more = process_page(store, directory, &pages[page], now);
        proof {
            lemma_handle_all_concat(t0, records, before, pages@[page as int].data@, now);
            assert(events_of(pages@, page + 1) == before + pages@[page as int].data@);
            crate::store::lemma_first_index_step(pages@, is_final_page(), page as int);
        }
        if !has_more {
            proof {
                crate::store::lemma_first_index_prefix(pages@, is_final_page(), page + 1);
            }
            return Ok(page + 1);
        }
        page += 1;
    }
}

} // verus!
