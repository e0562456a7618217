use billing_sync::provider::{
    watched_events, CustomerDirectory, CustomerRecord, CustomerRef, Event, EventObject, EventPage, EventType,
    SubscriptionRecord, EVENTS_PAGE_LIMIT,
};
use billing_sync::reconcile::{
    customer_ids_to_fetch, find_or_create_billing_customer, handle_event, poll_stripe_events, process_page, BillingError,
};
use billing_sync::schedule::{PollAction, PollEvent, PollScheduler, PollState, POLL_EVENTS_INTERVAL_SECS};
use billing_sync::status::{StripeSubscriptionStatus, SubscriptionStatus};
use billing_sync::store::{BillingStore, Model, StoreError};

fn record(id: &str, email: Option<&str>) -> CustomerRecord {
    CustomerRecord { id: id.to_string(), email: email.map(|e| e.to_string()) }
}

fn customer_event(id: &str, customer: CustomerRecord) -> Event {
    Event { id: id.to_string(), type_: EventType::CustomerCreated, object: EventObject::Customer(customer) }
}

fn subscription_event(id: &str, type_: EventType, sub: &str, customer: CustomerRef, status: SubscriptionStatus) -> Event {
    Event {
        id: id.to_string(),
        type_,
        object: EventObject::Subscription(SubscriptionRecord { id: sub.to_string(), customer, status }),
    }
}

#[test]
fn status_mapping_is_exhaustive_and_distinct() {
    let pairs = [
        (SubscriptionStatus::Incomplete, StripeSubscriptionStatus::Incomplete, "incomplete"),
        (SubscriptionStatus::IncompleteExpired, StripeSubscriptionStatus::IncompleteExpired, "incomplete_expired"),
        (SubscriptionStatus::Trialing, StripeSubscriptionStatus::Trialing, "trialing"),
        (SubscriptionStatus::Active, StripeSubscriptionStatus::Active, "active"),
        (SubscriptionStatus::PastDue, StripeSubscriptionStatus::PastDue, "past_due"),
        (SubscriptionStatus::Canceled, StripeSubscriptionStatus::Canceled, "canceled"),
        (SubscriptionStatus::Unpaid, StripeSubscriptionStatus::Unpaid, "unpaid"),
        (SubscriptionStatus::Paused, StripeSubscriptionStatus::Paused, "paused"),
    ];
    let mut seen = Vec::new();
    for (provider, local, name) in pairs {
        let mapped = StripeSubscriptionStatus::from(provider);
        assert_eq!(mapped, local);
        assert_eq!(mapped.as_str(), name);
        assert!(!seen.contains(&mapped));
        seen.push(mapped);
    }
    assert_eq!(seen.len(), 8);
    assert_eq!(StripeSubscriptionStatus::default(), StripeSubscriptionStatus::Incomplete);
}

#[test]
fn upsert_twice_keeps_one_row_with_latest_status() {
    let mut store = BillingStore::new();
    let user = store.add_user("a@example.com".to_string()).unwrap();
    let customer = store.create_billing_customer(user, "cus_1".to_string()).unwrap();
    let sub = "sub_1".to_string();
    store
        .upsert_billing_subscription_by_stripe_subscription_id(customer.id, &sub, StripeSubscriptionStatus::Trialing, 10)
        .unwrap();
    store
        .upsert_billing_subscription_by_stripe_subscription_id(customer.id, &sub, StripeSubscriptionStatus::Active, 20)
        .unwrap();
    assert_eq!(store.subscriptions.len(), 1);
    let row = &store.subscriptions[0];
    assert_eq!(row.id, 1);
    assert_eq!(row.stripe_subscription_id, "sub_1");
    assert_eq!(row.stripe_subscription_status, StripeSubscriptionStatus::Active);
    assert_eq!(row.created_at, 10);
    assert_eq!(store.find_billing_subscription(&sub), Some(0));
}

#[test]
fn store_rejects_dangling_references() {
    let mut store = BillingStore::new();
    assert!(matches!(store.create_billing_customer(1, "cus_1".to_string()), Err(StoreError::UnknownUser)));
    let sub = "sub_1".to_string();
    assert_eq!(
        store.upsert_billing_subscription_by_stripe_subscription_id(1, &sub, StripeSubscriptionStatus::Active, 0),
        Err(StoreError::UnknownCustomer)
    );
    assert!(store.customers.is_empty());
    assert!(store.subscriptions.is_empty());
}

#[test]
fn resolve_fast_path_fetches_and_writes_nothing() {
    let mut store = BillingStore::new();
    let user = store.add_user("a@example.com".to_string()).unwrap();
    store.create_billing_customer(user, "cus_1".to_string()).unwrap();
    let mut directory = CustomerDirectory::new(vec![record("cus_1", Some("a@example.com"))]);
    let found = find_or_create_billing_customer(&mut store, &mut directory, &CustomerRef::Id("cus_1".to_string()))
        .unwrap()
        .unwrap();
    assert_eq!(found.id, 1);
    assert_eq!(found.user_id, user);
    assert!(directory.fetched.is_empty());
    assert_eq!(store.customers.len(), 1);
}

#[test]
fn resolve_by_id_fetches_then_creates_once() {
    let mut store = BillingStore::new();
    let user = store.add_user("b@example.com".to_string()).unwrap();
    let mut directory = CustomerDirectory::new(vec![record("cus_9", Some("b@example.com"))]);
    let reference = CustomerRef::Id("cus_9".to_string());
    let created = find_or_create_billing_customer(&mut store, &mut directory, &reference).unwrap().unwrap();
    assert_eq!(created.stripe_customer_id, "cus_9");
    assert_eq!(created.user_id, user);
    assert_eq!(directory.fetched, vec!["cus_9".to_string()]);
    let again = find_or_create_billing_customer(&mut store, &mut directory, &reference).unwrap().unwrap();
    assert_eq!(again.id, created.id);
    assert_eq!(directory.fetched.len(), 1);
    assert_eq!(store.customers.len(), 1);
}

#[test]
fn resolve_unknown_id_is_a_provider_failure() {
    let mut store = BillingStore::new();
    let mut directory = CustomerDirectory::new(vec![]);
    let r = find_or_create_billing_customer(&mut store, &mut directory, &CustomerRef::Id("cus_x".to_string()));
    assert!(matches!(r, Err(BillingError::CustomerNotFound)));
}

#[test]
fn unlinkable_customer_yields_nothing() {
    let mut store = BillingStore::new();
    store.add_user("someone@example.com".to_string()).unwrap();
    let mut directory = CustomerDirectory::new(vec![]);
    let by_email = CustomerRef::Object(record("cus_2", Some("a@example.com")));
    assert!(matches!(find_or_create_billing_customer(&mut store, &mut directory, &by_email), Ok(None)));
    let no_email = CustomerRef::Object(record("cus_3", None));
    assert!(matches!(find_or_create_billing_customer(&mut store, &mut directory, &no_email), Ok(None)));
    assert!(store.customers.is_empty());
}

#[test]
fn wrong_payload_is_rejected() {
    let mut store = BillingStore::new();
    let mut directory = CustomerDirectory::new(vec![]);
    let event = Event {
        id: "evt_1".to_string(),
        type_: EventType::CustomerSubscriptionUpdated,
        object: EventObject::Customer(record("cus_1", None)),
    };
    assert_eq!(handle_event(&mut store, &mut directory, &event, 0), Err(BillingError::UnexpectedPayload));
    let other = Event { id: "evt_2".to_string(), type_: EventType::Other, object: EventObject::Other };
    assert_eq!(handle_event(&mut store, &mut directory, &other, 0), Ok(()));
}

#[test]
fn subscription_for_unlinkable_customer_fails() {
    let mut store = BillingStore::new();
    let mut directory = CustomerDirectory::new(vec![]);
    let event = subscription_event(
        "evt_1",
        EventType::CustomerSubscriptionCreated,
        "sub_1",
        CustomerRef::Object(record("cus_1", Some("nobody@example.com"))),
        SubscriptionStatus::Active,
    );
    assert_eq!(handle_event(&mut store, &mut directory, &event, 0), Err(BillingError::BillingCustomerNotFound));
    assert!(store.subscriptions.is_empty());
}

#[test]
fn pagination_stops_at_last_page() {
    let mut store = BillingStore::new();
    store.add_user("a@example.com".to_string()).unwrap();
    let mut directory = CustomerDirectory::new(vec![]);
    let pages = vec![
        EventPage { data: vec![customer_event("evt_1", record("cus_1", Some("a@example.com")))], has_more: true },
        EventPage {
            data: vec![subscription_event(
                "evt_2",
                EventType::CustomerSubscriptionCreated,
                "sub_1",
                CustomerRef::Id("cus_1".to_string()),
                SubscriptionStatus::Trialing,
            )],
            has_more: false,
        },
        EventPage {
            data: vec![subscription_event(
                "evt_3",
                EventType::CustomerSubscriptionUpdated,
                "sub_1",
                CustomerRef::Id("cus_1".to_string()),
                SubscriptionStatus::Canceled,
            )],
            has_more: false,
        },
    ];
    assert_eq!(poll_stripe_events(&mut store, &mut directory, &pages, 42), Ok(2));
    assert_eq!(store.customers.len(), 1);
    assert_eq!(store.subscriptions.len(), 1);
    assert_eq!(store.subscriptions[0].stripe_subscription_status, StripeSubscriptionStatus::Trialing);
    assert_eq!(store.subscriptions[0].created_at, 42);
    assert!(directory.fetched.is_empty());
}

#[test]
fn missing_page_fails_the_cycle_but_keeps_earlier_work() {
    let mut store = BillingStore::new();
    store.add_user("a@example.com".to_string()).unwrap();
    let mut directory = CustomerDirectory::new(vec![]);
    let pages = vec![EventPage {
        data: vec![customer_event("evt_1", record("cus_1", Some("a@example.com")))],
        has_more: true,
    }];
    assert_eq!(poll_stripe_events(&mut store, &mut directory, &pages, 0), Err(BillingError::EventsUnavailable));
    assert_eq!(store.customers.len(), 1);
    assert_eq!(poll_stripe_events(&mut store, &mut directory, &vec![], 0), Err(BillingError::EventsUnavailable));
}

#[test]
fn failed_event_does_not_stop_the_page() {
    let mut store = BillingStore::new();
    store.add_user("a@example.com".to_string()).unwrap();
    store.add_user("c@example.com".to_string()).unwrap();
    let mut directory = CustomerDirectory::new(vec![]);
    let pages = vec![EventPage {
        data: vec![
            customer_event("evt_1", record("cus_1", Some("a@example.com"))),
            Event {
                id: "evt_2".to_string(),
                type_: EventType::CustomerSubscriptionUpdated,
                object: EventObject::Customer(record("cus_2", Some("a@example.com"))),
            },
            customer_event("evt_3", record("cus_3", Some("c@example.com"))),
        ],
        has_more: false,
    }];
    assert_eq!(poll_stripe_events(&mut store, &mut directory, &pages, 0), Ok(1));
    assert_eq!(store.customers.len(), 2);
    assert_eq!(store.customers[0].stripe_customer_id, "cus_1");
    assert_eq!(store.customers[1].stripe_customer_id, "cus_3");
    assert_eq!(store.customers[1].user_id, 2);
}

#[test]
fn customer_without_local_user_creates_nothing() {
    let mut store = BillingStore::new();
    let mut directory = CustomerDirectory::new(vec![]);
    let pages = vec![EventPage {
        data: vec![customer_event("evt_1", record("cus_1", Some("a@example.com")))],
        has_more: false,
    }];
    assert_eq!(poll_stripe_events(&mut store, &mut directory, &pages, 0), Ok(1));
    assert!(store.customers.is_empty());
}

#[test]
fn customer_then_subscription_links_both() {
    let mut store = BillingStore::new();
    store.add_user("a@example.com".to_string()).unwrap();
    let mut directory = CustomerDirectory::new(vec![]);
    let pages = vec![EventPage {
        data: vec![
            customer_event("evt_1", record("cus_1", Some("a@example.com"))),
            subscription_event(
                "evt_2",
                EventType::CustomerSubscriptionCreated,
                "sub_1",
                CustomerRef::Id("cus_1".to_string()),
                SubscriptionStatus::PastDue,
            ),
        ],
        has_more: false,
    }];
    assert_eq!(poll_stripe_events(&mut store, &mut directory, &pages, 7), Ok(1));
    assert_eq!(store.customers.len(), 1);
    assert_eq!(store.subscriptions.len(), 1);
    let sub = &store.subscriptions[0];
    assert_eq!(sub.billing_customer_id, store.customers[0].id);
    assert_eq!(sub.stripe_subscription_id, "sub_1");
    assert_eq!(sub.stripe_subscription_status, StripeSubscriptionStatus::PastDue);
}

#[test]
fn watched_event_types_and_names() {
    let types = watched_events();
    let names: Vec<&str> = types.iter().map(|t| t.name().unwrap()).collect();
    assert_eq!(
        names,
        vec![
            "customer.created",
            "customer.subscription.created",
            "customer.subscription.updated",
            "customer.subscription.paused",
            "customer.subscription.resumed",
            "customer.subscription.deleted",
        ]
    );
    assert_eq!(EventType::Other.name(), None);
    assert_eq!(EVENTS_PAGE_LIMIT, 100);
}

#[test]
fn scheduler_alternates_polling_and_sleeping() {
    assert!(PollScheduler::start(false).is_none());
    let mut s = PollScheduler::start(true).unwrap();
    assert_eq!(s.state, PollState::Polling);
    assert_eq!(s.step(PollEvent::TimerExpired), PollAction::Ignore);
    assert_eq!(s.step(PollEvent::CycleFinished { succeeded: false }), PollAction::Sleep(POLL_EVENTS_INTERVAL_SECS));
    assert_eq!(s.state, PollState::Idle);
    assert_eq!(s.step(PollEvent::TimerExpired), PollAction::StartCycle);
    assert_eq!(s.step(PollEvent::CycleFinished { succeeded: true }), PollAction::Sleep(300));
}

#[test]
fn well_formedness_check_finds_duplicate_subscriptions() {
    let mut store = BillingStore::new();
    let user = store.add_user("a@example.com".to_string()).unwrap();
    let customer = store.create_billing_customer(user, "cus_1".to_string()).unwrap();
    let sub = "sub_1".to_string();
    store
        .upsert_billing_subscription_by_stripe_subscription_id(customer.id, &sub, StripeSubscriptionStatus::Active, 0)
        .unwrap();
    assert!(store.is_well_formed());
    store.subscriptions.push(Model {
        id: 2,
        billing_customer_id: customer.id,
        stripe_subscription_id: "sub_1".to_string(),
        stripe_subscription_status: StripeSubscriptionStatus::Canceled,
        created_at: 0,
    });
    assert!(!store.is_well_formed());
    store.subscriptions[1].stripe_subscription_id = "sub_2".to_string();
    assert!(store.is_well_formed());
    store.customers[0].user_id = 5;
    assert!(!store.is_well_formed());
}

#[test]
fn customer_reference_names_its_id() {
    assert_eq!(CustomerRef::Id("cus_1".to_string()).customer_id(), "cus_1");
    assert_eq!(CustomerRef::Object(record("cus_2", None)).customer_id(), "cus_2");
}

#[test]
fn ids_to_fetch_skip_known_and_embedded_customers() {
    let mut store = BillingStore::new();
    let user = store.add_user("a@example.com".to_string()).unwrap();
    store.create_billing_customer(user, "cus_known".to_string()).unwrap();
    let page = EventPage {
        data: vec![
            subscription_event(
                "evt_1",
                EventType::CustomerSubscriptionCreated,
                "sub_1",
                CustomerRef::Id("cus_known".to_string()),
                SubscriptionStatus::Active,
            ),
            subscription_event(
                "evt_2",
                EventType::CustomerSubscriptionDeleted,
                "sub_2",
                CustomerRef::Id("cus_new".to_string()),
                SubscriptionStatus::Canceled,
            ),
            subscription_event(
                "evt_3",
                EventType::CustomerSubscriptionUpdated,
                "sub_3",
                CustomerRef::Object(record("cus_obj", None)),
                SubscriptionStatus::Active,
            ),
            customer_event("evt_4", record("cus_other", None)),
        ],
        has_more: true,
    };
    assert_eq!(customer_ids_to_fetch(&store, &page), vec!["cus_new".to_string()]);
}

#[test]
fn process_page_handles_fetched_customers() {
    let mut store = BillingStore::new();
    store.add_user("b@example.com".to_string()).unwrap();
    let page = EventPage {
        data: vec![subscription_event(
            "evt_1",
            EventType::CustomerSubscriptionResumed,
            "sub_1",
            CustomerRef::Id("cus_b".to_string()),
            SubscriptionStatus::Active,
        )],
        has_more: true,
    };
    let mut directory = CustomerDirectory::new(vec![record("cus_b", Some("b@example.com"))]);
    assert!(process_page(&mut store, &mut directory, &page, 3));
    assert_eq!(directory.fetched, vec!["cus_b".to_string()]);
    assert_eq!(store.subscriptions.len(), 1);
    assert_eq!(store.subscriptions[0].stripe_subscription_status, StripeSubscriptionStatus::Active);
}
