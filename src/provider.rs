//! What the billing provider hands over: customer records, subscription
//! records, events and pages of events, and the customer directory that
//! resolution reads from.
use vstd::prelude::*;
use crate::status::SubscriptionStatus;
use crate::store::first_index;

verus! {

/// A customer record as the provider returns it.
#[derive(Debug)]
pub struct CustomerRecord {
    pub id: String,
    pub email: Option<String>,
}

/// A customer record as the contracts see it.
pub ghost struct CustomerRecordView {
    pub id: Seq<char>,
    pub email: Option<Seq<char>>,
}

impl View for CustomerRecord {
    type V = CustomerRecordView;

    open spec fn view(&self) -> CustomerRecordView {
        CustomerRecordView {
            id: self.id@,
            email: match self.email {
                Some(e) => Some(e@),
                None => None,
            },
        }
    }
}

impl Clone for CustomerRecord {
    fn clone(&self) -> (r: Self)
        ensures
            r@ == self@,
    {
        let email = match &self.email {
            Some(e) => Some(e.clone()),
            None => None,
        };
        CustomerRecord { id: self.id.clone(), email }
    }
}

/// A reference to a provider customer: its bare ID, or the whole record.
#[derive(Debug)]
pub enum CustomerRef {
    Id(String),
    Object(CustomerRecord),
}

/// A customer reference as the contracts see it.
pub ghost enum CustomerRefView {
    Id(Seq<char>),
    Object(CustomerRecordView),
}

impl View for CustomerRef {
    type V = CustomerRefView;

    open spec fn view(&self) -> CustomerRefView {
        match self {
            CustomerRef::Id(id) => CustomerRefView::Id(id@),
            CustomerRef::Object(c) => CustomerRefView::Object(c@),
        }
    }
}

/// The provider customer ID that a reference names.
pub open spec fn ref_customer_id(r: CustomerRefView) -> Seq<char> {
    match r {
        CustomerRefView::Id(id) => id,
        CustomerRefView::Object(c) => c.id,
    }
}

impl CustomerRef {
    /// The provider customer ID that this reference names.
    pub fn customer_id(&self) -> (r: &String)
        ensures
            r@ == ref_customer_id(self@),
    {
        match self {
            CustomerRef::Id(id) => id,
            CustomerRef::Object(c) => &c.id,
        }
    }
}

/// A subscription record as the provider returns it.
#[derive(Debug)]
pub struct SubscriptionRecord {
    pub id: String,
    pub customer: CustomerRef,
    pub status: SubscriptionStatus,
}

/// The kinds of event that reconciliation asks the provider for, and the rest.
#[derive(Clone, Copy, Debug, PartialEq, Eq, Structural)]
pub enum EventType {
    CustomerCreated,
    CustomerSubscriptionCreated,
    CustomerSubscriptionUpdated,
    CustomerSubscriptionPaused,
    CustomerSubscriptionResumed,
    CustomerSubscriptionDeleted,
    Other,
}

/// Whether an event type is one of the subscription lifecycle types.
pub open spec fn is_subscription_event(t: EventType) -> bool {
    match t {
        EventType::CustomerSubscriptionCreated => true,
        EventType::CustomerSubscriptionUpdated => true,
        EventType::CustomerSubscriptionPaused => true,
        EventType::CustomerSubscriptionResumed => true,
        EventType::CustomerSubscriptionDeleted => true,
        _ => false,
    }
}

/// The provider's name for an event type.
pub open spec fn event_type_name(t: EventType) -> Option<Seq<char>> {
    match t {
        EventType::CustomerCreated => Some("customer.created"@),
        EventType::CustomerSubscriptionCreated => Some("customer.subscription.created"@),
        EventType::CustomerSubscriptionUpdated => Some("customer.subscription.updated"@),
        EventType::CustomerSubscriptionPaused => Some("customer.subscription.paused"@),
        EventType::CustomerSubscriptionResumed => Some("customer.subscription.resumed"@),
        EventType::CustomerSubscriptionDeleted => Some("customer.subscription.deleted"@),
        EventType::Other => None,
    }
}

impl EventType {
    /// The provider's name for this event type, for the types that
    /// reconciliation asks for.
    pub fn name(&self) -> (r: Option<&'static str>)
        ensures
            match r {
                Some(s) => event_type_name(*self) == Some(s@),
                None => event_type_name(*self) is None,
            },
    {
        match self {
            EventType::CustomerCreated => Some("customer.created"),
            EventType::CustomerSubscriptionCreated => Some("customer.subscription.created"),
            EventType::CustomerSubscriptionUpdated => Some("customer.subscription.updated"),
            EventType::CustomerSubscriptionPaused => Some("customer.subscription.paused"),
            EventType::CustomerSubscriptionResumed => Some("customer.subscription.resumed"),
            EventType::CustomerSubscriptionDeleted => Some("customer.subscription.deleted"),
            EventType::Other => None,
        }
    }
}

/// The number of events asked for per page.
pub const EVENTS_PAGE_LIMIT: u64 = 100;

/// The event types that reconciliation asks the provider for, in order.
pub open spec fn watched_event_types() -> Seq<EventType> {
    seq![
        EventType::CustomerCreated,
        EventType::CustomerSubscriptionCreated,
        EventType::CustomerSubscriptionUpdated,
        EventType::CustomerSubscriptionPaused,
        EventType::CustomerSubscriptionResumed,
        EventType::CustomerSubscriptionDeleted,
    ]
}

/// The event types that reconciliation asks the provider for.
pub fn watched_events() -> (r: Vec<EventType>)
    ensures
        r@ == watched_event_types(),
{
    let r = vec![
        EventType::CustomerCreated,
        EventType::CustomerSubscriptionCreated,
        EventType::CustomerSubscriptionUpdated,
        EventType::CustomerSubscriptionPaused,
        EventType::CustomerSubscriptionResumed,
        EventType::CustomerSubscriptionDeleted,
    ];
    assert(r@ =~= watched_event_types());
    r
}

/// The object that an event carries.
#[derive(Debug)]
pub enum EventObject {
    Customer(CustomerRecord),
    Subscription(SubscriptionRecord),
    Other,
}

/// An event from the provider's event log.
#[derive(Debug)]
pub struct Event {
    pub id: String,
    pub type_: EventType,
    pub object: EventObject,
}

/// One page of the event log, and whether more pages follow it.
#[derive(Debug)]
pub struct EventPage {
    pub data: Vec<Event>,
    pub has_more: bool,
}

/// Holds of a page after which no page follows.
pub open spec fn is_final_page() -> spec_fn(EventPage) -> bool {
    |p: EventPage| !p.has_more
}

/// The events of the first `n` pages, in order.
pub open spec fn events_of(pages: Seq<EventPage>, n: int) -> Seq<Event>
    decreases n,
{
    if n <= 0 || n > pages.len() {
        Seq::empty()
    } else {
        events_of(pages, n - 1) + pages[n - 1].data@
    }
}

/// The number of pages that one walk of the log reads: up to and including
/// the first page that reports no more pages; `None` when every page reports
/// more, so that the walk asks for a page that is not there.
pub open spec fn pages_read(pages: Seq<EventPage>) -> Option<int> {
    match first_index(pages, is_final_page()) {
        Some(k) => Some(k + 1),
        None => None,
    }
}

/// The provider's customer records, and the IDs of those fetched so far.
pub struct CustomerDirectory {
    pub customers: Vec<CustomerRecord>,
    pub fetched: Vec<String>,
}

/// Holds of a customer record with the given ID.
pub open spec fn has_record_id(id: Seq<char>) -> spec_fn(CustomerRecordView) -> bool {
    |c: CustomerRecordView| c.id == id
}

/// The record with the given ID, if the directory holds one.
pub open spec fn find_record(records: Seq<CustomerRecordView>, id: Seq<char>) -> Option<CustomerRecordView> {
    match first_index(records, has_record_id(id)) {
        Some(i) => Some(records[i]),
        None => None,
    }
}

impl CustomerDirectory {
    /// The records as the contracts see them.
    pub open spec fn records(&self) -> Seq<CustomerRecordView> {
        self.customers@.map_values(|c: CustomerRecord| c@)
    }

    /// A directory holding `customers`, with nothing fetched yet.
    pub fn new(customers: Vec<CustomerRecord>) -> (r: Self)
        ensures
            r.customers@ == customers@,
            r.fetched@.len() == 0,
    {
        CustomerDirectory { customers, fetched: Vec::new() }
    }

    /// Fetches the record with the given ID; the fetch is recorded whether or
    /// not a record is found.
    pub fn fetch_customer(&mut self, id: &String) -> (r: Option<CustomerRecord>)
        ensures
            final(self).customers@ == old(self).customers@,
            final(self).fetched@.len() == old(self).fetched@.len() + 1,
            final(self).fetched@.last()@ == id@,
            final(self).fetched@.drop_last() == old(self).fetched@,
            match r {
                Some(c) => find_record(old(self).records(), id@) == Some(c@),
                None => find_record(old(self).records(), id@) is None,
            },
    {
        let ghost p = has_record_id(id@);
        let ghost s = self.records();
        let mut i: usize = 0;
        while i < self.customers.len()
            invariant
                0 <= i <= self.customers@.len(),
                s == self.records(),
                s == old(self).records(),
                self.customers@ == old(self).customers@,
                self.fetched@ == old(self).fetched@,
                p == has_record_id(id@),
                first_index(s.subrange(0, i as int), p) is None,
            decreases self.customers@.len() - i,
        {
            proof {
                crate::store::lemma_first_index_step(s, p, i as int);
                assert(s[i as int] == self.customers@[i as int]@);
            }
            if self.customers[i].id == *id {
                proof {
                    crate::store::lemma_first_index_prefix(s, p, i + 1);
                }
                let found = self.customers[i].clone();
                self.fetched.push(id.clone());
                proof {
                    assert(self.fetched@.drop_last() =~= old(self).fetched@);
                }
                return Some(found);
            }
            i += 1;
        }
        proof {
            assert(s.subrange(0, i as int) =~= s);
        }
        self.fetched.push(id.clone());
        proof {
            assert(self.fetched@.drop_last() =~= old(self).fetched@);
        }
        None
    }
}

} // verus!
