//! The local billing tables: users, billing customers and billing
//! subscriptions, with the lookups and writes that reconciliation relies on.
use vstd::prelude::*;
use crate::status::StripeSubscriptionStatus;

verus! {

/// A local user account, reachable by its email address.
#[derive(Debug)]
pub struct User {
    pub id: i32,
    pub email_address: String,
}

/// A local record linking a user to a provider customer.
#[derive(Debug)]
pub struct BillingCustomer {
    pub id: i32,
    pub user_id: i32,
    pub stripe_customer_id: String,
}

/// A billing subscription.
#[derive(Debug)]
pub struct Model {
    pub id: i32,
    pub billing_customer_id: i32,
    pub stripe_subscription_id: String,
    pub stripe_subscription_status: StripeSubscriptionStatus,
    /// Seconds since the Unix epoch at which the row was inserted.
    pub created_at: i64,
}

/// What a billing subscription belongs to.
#[derive(Clone, Copy, Debug, PartialEq, Eq, Structural)]
pub enum Relation {
    BillingCustomer,
}

/// Why a local write could not be made.
#[derive(Clone, Copy, Debug, PartialEq, Eq, Structural)]
pub enum StoreError {
    /// The table has used up its identifier space.
    TableFull,
    /// The referenced user does not exist.
    UnknownUser,
    /// The referenced billing customer does not exist.
    UnknownCustomer,
}

/// A user as the contracts see it.
pub ghost struct UserView {
    pub id: i32,
    pub email_address: Seq<char>,
}

/// A billing customer as the contracts see it.
pub ghost struct BillingCustomerView {
    pub id: i32,
    pub user_id: i32,
    pub stripe_customer_id: Seq<char>,
}

/// A billing subscription as the contracts see it.
pub ghost struct ModelView {
    pub id: i32,
    pub billing_customer_id: i32,
    pub stripe_subscription_id: Seq<char>,
    pub stripe_subscription_status: StripeSubscriptionStatus,
    pub created_at: i64,
}

impl View for User {
    type V = UserView;

    open spec fn view(&self) -> UserView {
        UserView { id: self.id, email_address: self.email_address@ }
    }
}

impl View for BillingCustomer {
    type V = BillingCustomerView;

    open spec fn view(&self) -> BillingCustomerView {
        BillingCustomerView { id: self.id, user_id: self.user_id, stripe_customer_id: self.stripe_customer_id@ }
    }
}

impl View for Model {
    type V = ModelView;

    open spec fn view(&self) -> ModelView {
        ModelView {
            id: self.id,
            billing_customer_id: self.billing_customer_id,
            stripe_subscription_id: self.stripe_subscription_id@,
            stripe_subscription_status: self.stripe_subscription_status,
            created_at: self.created_at,
        }
    }
}

impl Clone for User {
    fn clone(&self) -> (r: Self)
        ensures
            r@ == self@,
    {
        User { id: self.id, email_address: self.email_address.clone() }
    }
}

impl Clone for BillingCustomer {
    fn clone(&self) -> (r: Self)
        ensures
            r@ == self@,
    {
        BillingCustomer { id: self.id, user_id: self.user_id, stripe_customer_id: self.stripe_customer_id.clone() }
    }
}

impl Clone for Model {
    fn clone(&self) -> (r: Self)
        ensures
            r@ == self@,
    {
        Model {
            id: self.id,
            billing_customer_id: self.billing_customer_id,
            stripe_subscription_id: self.stripe_subscription_id.clone(),
            stripe_subscription_status: self.stripe_subscription_status,
            created_at: self.created_at,
        }
    }
}

/// The contents of the three tables.
pub ghost struct Tables {
    pub users: Seq<UserView>,
    pub customers: Seq<BillingCustomerView>,
    pub subscriptions: Seq<ModelView>,
}

/// The position of the first element of `s` that satisfies `p`.
pub open spec fn first_index<A>(s: Seq<A>, p: spec_fn(A) -> bool) -> Option<int>
    decreases s.len(),
{
    if s.len() == 0 {
        None
    } else {
        let earlier = first_index(s.drop_last(), p);
        if earlier is Some {
            earlier
        } else if p(s.last()) {
            Some(s.len() - 1)
        } else {
            None
        }
    }
}

/// Holds of a user with the given email address.
pub open spec fn has_email(email: Seq<char>) -> spec_fn(UserView) -> bool {
    |u: UserView| u.email_address == email
}

/// Holds of a billing customer with the given provider customer ID.
pub open spec fn has_customer_id(pid: Seq<char>) -> spec_fn(BillingCustomerView) -> bool {
    |c: BillingCustomerView| c.stripe_customer_id == pid
}

/// Holds of a subscription with the given provider subscription ID.
pub open spec fn has_subscription_id(sid: Seq<char>) -> spec_fn(ModelView) -> bool {
    |m: ModelView| m.stripe_subscription_id == sid
}

/// The first user (in insertion order) whose email address is `email`.
pub open spec fn find_user(users: Seq<UserView>, email: Seq<char>) -> Option<UserView> {
    match first_index(users, has_email(email)) {
        Some(i) => Some(users[i]),
        None => None,
    }
}

/// The first billing customer whose provider customer ID is `pid`.
pub open spec fn find_customer(customers: Seq<BillingCustomerView>, pid: Seq<char>) -> Option<BillingCustomerView> {
    match first_index(customers, has_customer_id(pid)) {
        Some(i) => Some(customers[i]),
        None => None,
    }
}

/// The position of the first subscription whose provider subscription ID is `sid`.
pub open spec fn subscription_index(subs: Seq<ModelView>, sid: Seq<char>) -> Option<int> {
    first_index(subs, has_subscription_id(sid))
}

/// What `first_index` returns: a satisfying position with none before it, or
/// nothing when no element satisfies `p`.
pub proof fn lemma_first_index<A>(s: Seq<A>, p: spec_fn(A) -> bool)
    ensures
        match first_index(s, p) {
            Some(i) => 0 <= i < s.len() && p(s[i]) && forall|j: int| 0 <= j < i ==> !p(#[trigger] s[j]),
            None => forall|j: int| 0 <= j < s.len() ==> !p(#[trigger] s[j]),
        },
    decreases s.len(),
{
    if s.len() > 0 {
        let t = s.drop_last();
        lemma_first_index(t, p);
        assert forall|j: int| 0 <= j < t.len() implies s[j] == #[trigger] t[j] by {}
        if first_index(t, p) is None {
            if p(s.last()) {
                assert forall|j: int| 0 <= j < s.len() - 1 implies !p(#[trigger] s[j]) by {
                    assert(s[j] == t[j]);
                }
            } else {
                assert forall|j: int| 0 <= j < s.len() implies !p(#[trigger] s[j]) by {
                    if j < s.len() - 1 {
                        assert(s[j] == t[j]);
                    }
                }
            }
        } else {
            let i = first_index(t, p)->0;
            assert forall|j: int| 0 <= j < i implies !p(#[trigger] s[j]) by {
                assert(s[j] == t[j]);
            }
            assert(s[i] == t[i]);
        }
    }
}

/// A match found in a prefix is the first match of the whole sequence.
pub proof fn lemma_first_index_prefix<A>(s: Seq<A>, p: spec_fn(A) -> bool, k: int)
    requires
        0 <= k <= s.len(),
        first_index(s.subrange(0, k), p) is Some,
    ensures
        first_index(s, p) == first_index(s.subrange(0, k), p),
    decreases s.len() - k,
{
    if k < s.len() {
        assert(s.subrange(0, k + 1).drop_last() =~= s.subrange(0, k));
        lemma_first_index_prefix(s, p, k + 1);
    } else {
        assert(s.subrange(0, k) =~= s);
    }
}

/// Extending a prefix without a match by one element.
pub proof fn lemma_first_index_step<A>(s: Seq<A>, p: spec_fn(A) -> bool, k: int)
    requires
        0 <= k < s.len(),
        first_index(s.subrange(0, k), p) is None,
    ensures
        first_index(s.subrange(0, k + 1), p) == (if p(s[k]) { Some(k) } else { None::<int> }),
{
    assert(s.subrange(0, k + 1).drop_last() =~= s.subrange(0, k));
}

/// Appending an element leaves an earlier match in place.
pub proof fn lemma_first_index_push<A>(s: Seq<A>, p: spec_fn(A) -> bool, x: A)
    ensures
        first_index(s.push(x), p) == (if first_index(s, p) is Some {
            first_index(s, p)
        } else if p(x) {
            Some(s.len() as int)
        } else {
            None::<int>
        }),
{
    assert(s.push(x).drop_last() =~= s);
}

/// No two subscriptions share a provider subscription ID.
pub open spec fn subscription_ids_unique(subs: Seq<ModelView>) -> bool {
    forall|i: int, j: int|
        0 <= i < subs.len() && 0 <= j < subs.len() && i != j
            ==> #[trigger] subs[i].stripe_subscription_id != #[trigger] subs[j].stripe_subscription_id
}

/// Every row's identifier is its position plus one.
pub open spec fn ids_are_positions(t: Tables) -> bool {
    &&& forall|i: int| 0 <= i < t.users.len() ==> #[trigger] t.users[i].id == i + 1
    &&& forall|i: int| 0 <= i < t.customers.len() ==> #[trigger] t.customers[i].id == i + 1
    &&& forall|i: int| 0 <= i < t.subscriptions.len() ==> #[trigger] t.subscriptions[i].id == i + 1
}

/// The tables after a billing customer linking `user_id` to `pid` is added.
pub open spec fn with_customer(t: Tables, user_id: i32, pid: Seq<char>) -> Tables {
    Tables {
        customers: t.customers.push(
            BillingCustomerView { id: (t.customers.len() + 1) as i32, user_id, stripe_customer_id: pid },
        ),
        ..t
    }
}

/// The subscription rows after an upsert keyed by `sid`: the row with that ID
/// gets the new customer and status in place, or a new row is appended.
pub open spec fn upserted(
    subs: Seq<ModelView>,
    billing_customer_id: i32,
    sid: Seq<char>,
    status: StripeSubscriptionStatus,
    now: i64,
) -> Seq<ModelView> {
    match subscription_index(subs, sid) {
        Some(i) => subs.update(
            i,
            ModelView { billing_customer_id, stripe_subscription_status: status, ..subs[i] },
        ),
        None => subs.push(
            ModelView {
                id: (subs.len() + 1) as i32,
                billing_customer_id,
                stripe_subscription_id: sid,
                stripe_subscription_status: status,
                created_at: now,
            },
        ),
    }
}

/// An upsert keeps provider subscription IDs unique, grows the rows by at most
/// one, and leaves a single row with the upserted ID, carrying the new
/// customer and status.
pub proof fn lemma_upserted(
    subs: Seq<ModelView>,
    billing_customer_id: i32,
    sid: Seq<char>,
    status: StripeSubscriptionStatus,
    now: i64,
)
    requires
        subscription_ids_unique(subs),
    ensures
        ({
            let u = upserted(subs, billing_customer_id, sid, status, now);
            &&& subscription_ids_unique(u)
            &&& u.len() == subs.len() + (if subscription_index(subs, sid) is Some { 0int } else { 1int })
            &&& subscription_index(u, sid) matches Some(i) && u[i].stripe_subscription_status == status
                && u[i].billing_customer_id == billing_customer_id
                && forall|j: int| 0 <= j < u.len() && j != i ==> (#[trigger] u[j]).stripe_subscription_id != sid
        }),
{
    let p = has_subscription_id(sid);
    let u = upserted(subs, billing_customer_id, sid, status, now);
    lemma_first_index(subs, p);
    let i = match subscription_index(subs, sid) {
        Some(k) => k,
        None => subs.len() as int,
    };
    assert forall|a: int, b: int|
        0 <= a < u.len() && 0 <= b < u.len() && a != b implies #[trigger] u[a].stripe_subscription_id
        != #[trigger] u[b].stripe_subscription_id by {
        if a != i && b != i {
            assert(u[a] == subs[a] && u[b] == subs[b]);
        } else if a == i {
            assert(u[b] == subs[b]);
            if subscription_index(subs, sid) is None {
                assert(!p(subs[b]));
            }
        } else {
            assert(u[a] == subs[a]);
            if subscription_index(subs, sid) is None {
                assert(!p(subs[a]));
            }
        }
    }
    assert(p(u[i]));
    lemma_first_index(u, p);
    assert forall|j: int| 0 <= j < u.len() && j != i implies (#[trigger] u[j]).stripe_subscription_id != sid by {
        assert(u[j].stripe_subscription_id != u[i].stripe_subscription_id);
    }
}

/// Upserting twice under the same provider subscription ID, with any two
/// statuses, leaves exactly one row with that ID, and it carries the later
/// status and customer; the number of rows grows by at most one.
pub proof fn lemma_upsert_twice_single_row(
    t: Tables,
    first_customer_id: i32,
    second_customer_id: i32,
    sid: Seq<char>,
    first_status: StripeSubscriptionStatus,
    second_status: StripeSubscriptionStatus,
    first_now: i64,
    second_now: i64,
)
    requires
        tables_wf(t),
    ensures
        ({
            let once = with_subscription(t, first_customer_id, sid, first_status, first_now);
            let twice = with_subscription(once, second_customer_id, sid, second_status, second_now);
            let rows = twice.subscriptions;
            &&& rows.len() <= t.subscriptions.len() + 1
            &&& rows.len() == once.subscriptions.len()
            &&& subscription_index(rows, sid) matches Some(i) && rows[i].stripe_subscription_status == second_status
                && rows[i].billing_customer_id == second_customer_id
                && forall|j: int| 0 <= j < rows.len() && j != i ==> (#[trigger] rows[j]).stripe_subscription_id != sid
        }),
{
    let once = upserted(t.subscriptions, first_customer_id, sid, first_status, first_now);
    lemma_upserted(t.subscriptions, first_customer_id, sid, first_status, first_now);
    lemma_upserted(once, second_customer_id, sid, second_status, second_now);
}

/// The largest identifier a row can get.
pub const MAX_ROW_ID: i32 = 0x7fff_ffff;

/// The invariant of the tables: identifiers follow positions, provider
/// subscription IDs are unique, and every reference points at an existing row.
pub open spec fn tables_wf(t: Tables) -> bool {
    &&& ids_are_positions(t)
    &&& subscription_ids_unique(t.subscriptions)
    &&& forall|i: int| 0 <= i < t.customers.len() ==> 1 <= #[trigger] t.customers[i].user_id <= t.users.len()
    &&& forall|i: int|
        0 <= i < t.subscriptions.len() ==> 1 <= #[trigger] t.subscriptions[i].billing_customer_id
            <= t.customers.len()
}

/// The error that creating a billing customer for `user_id` meets, if any.
pub open spec fn create_customer_error(t: Tables, user_id: i32) -> Option<StoreError> {
    if !(1 <= user_id <= t.users.len()) {
        Some(StoreError::UnknownUser)
    } else if t.customers.len() >= MAX_ROW_ID {
        Some(StoreError::TableFull)
    } else {
        None
    }
}

/// The error that an upsert for `billing_customer_id` and `sid` meets, if any.
pub open spec fn upsert_error(t: Tables, billing_customer_id: i32, sid: Seq<char>) -> Option<StoreError> {
    if !(1 <= billing_customer_id <= t.customers.len()) {
        Some(StoreError::UnknownCustomer)
    } else if subscription_index(t.subscriptions, sid) is None && t.subscriptions.len() >= MAX_ROW_ID {
        Some(StoreError::TableFull)
    } else {
        None
    }
}

/// The tables after an upsert, when it succeeds.
pub open spec fn with_subscription(
    t: Tables,
    billing_customer_id: i32,
    sid: Seq<char>,
    status: StripeSubscriptionStatus,
    now: i64,
) -> Tables {
    Tables { subscriptions: upserted(t.subscriptions, billing_customer_id, sid, status, now), ..t }
}

/// The local billing tables, held in memory.
pub struct BillingStore {
    pub users: Vec<User>,
    pub customers: Vec<BillingCustomer>,
    pub subscriptions: Vec<Model>,
}

impl View for BillingStore {
    type V = Tables;

    open spec fn view(&self) -> Tables {
        Tables {
            users: self.users@.map_values(|u: User| u@),
            customers: self.customers@.map_values(|c: BillingCustomer| c@),
            subscriptions: self.subscriptions@.map_values(|m: Model| m@),
        }
    }
}

impl BillingStore {
    pub open spec fn wf(&self) -> bool {
        tables_wf(self@)
    }

    /// Empty tables.
    pub fn new() -> (r: Self)
        ensures
            r.wf(),
            r@.users.len() == 0,
            r@.customers.len() == 0,
            r@.subscriptions.len() == 0,
    {
        BillingStore { users: Vec::new(), customers: Vec::new(), subscriptions: Vec::new() }
    }

    /// Whether the tables satisfy their invariant; tables built by other
    /// means than these methods are checked with it before use.
    pub fn is_well_formed(&self) -> (r: bool)
        ensures
            r == self.wf(),
    {
        let ghost t = self@;
        let mut i: usize = 0;
        while i < self.users.len()
            invariant
                i <= self.users@.len(),
                t == self@,
                forall|j: int| 0 <= j < i ==> #[trigger] t.users[j].id == j + 1,
            decreases self.users@.len() - i,
        {
            assert(t.users[i as int] == self.users@[i as int]@);
            if self.users[i].id < 1 || self.users[i].id as usize != i + 1 {
                assert(t.users[i as int].id != i + 1);
                assert(!ids_are_positions(t));
                return false;
            }
            i += 1;
        }
        let mut i: usize = 0;
        while i < self.customers.len()
            invariant
                i <= self.customers@.len(),
                t == self@,
                forall|j: int| 0 <= j < t.users.len() ==> #[trigger] t.users[j].id == j + 1,
                forall|j: int| 0 <= j < i ==> #[trigger] t.customers[j].id == j + 1,
                forall|j: int| 0 <= j < i ==> 1 <= #[trigger] t.customers[j].user_id <= t.users.len(),
            decreases self.customers@.len() - i,
        {
            assert(t.customers[i as int] == self.customers@[i as int]@);
            let c = &self.customers[i];
            if c.id < 1 || c.id as usize != i + 1 || c.user_id < 1 || c.user_id as usize > self.users.len() {
                assert(t.customers[i as int].id != i + 1 || !(1 <= t.customers[i as int].user_id <= t.users.len()));
                return false;
            }
            i += 1;
        }
        let mut i: usize = 0;
        while i < self.subscriptions.len()
            invariant
                i <= self.subscriptions@.len(),
                t == self@,
                forall|j: int| 0 <= j < t.users.len() ==> #[trigger] t.users[j].id == j + 1,
                forall|j: int| 0 <= j < t.customers.len() ==> #[trigger] t.customers[j].id == j + 1,
                forall|j: int| 0 <= j < t.customers.len() ==> 1 <= #[trigger] t.customers[j].user_id <= t.users.len(),
                forall|j: int| 0 <= j < i ==> #[trigger] t.subscriptions[j].id == j + 1,
                forall|j: int|
                    0 <= j < i ==> 1 <= #[trigger] t.subscriptions[j].billing_customer_id <= t.customers.len(),
                forall|a: int, b: int|
                    0 <= a < i && 0 <= b < i && a != b ==> #[trigger] t.subscriptions[a].stripe_subscription_id
                        != #[trigger] t.subscriptions[b].stripe_subscription_id,
            decreases self.subscriptions@.len() - i,
        {
            assert(t.subscriptions[i as int] == self.subscriptions@[i as int]@);
            let m = &self.subscriptions[i];
            if m.id < 1 || m.id as usize != i + 1 || m.billing_customer_id < 1 || m.billing_customer_id as usize
                > self.customers.len() {
                assert(t.subscriptions[i as int].id != i + 1 || !(1 <= t.subscriptions[i as int].billing_customer_id
                    <= t.customers.len()));
                return false;
            }
            let mut k: usize = 0;
            while k < i
                invariant
                    k <= i < self.subscriptions@.len(),
                    t == self@,
                    m == self.subscriptions@[i as int],
                    forall|j: int| 0 <= j < k ==> #[trigger] t.subscriptions[j].stripe_subscription_id != t.subscriptions[i as int].stripe_subscription_id,
                decreases i - k,
            {
                assert(t.subscriptions[k as int] == self.subscriptions@[k as int]@);
                if self.subscriptions[k].stripe_subscription_id == m.stripe_subscription_id {
                    assert(t.subscriptions[k as int].stripe_subscription_id == t.subscriptions[i as int].stripe_subscription_id);
                    assert(!subscription_ids_unique(t.subscriptions));
                    return false;
                }
                k += 1;
            }
            i += 1;
        }
        true
    }

    /// Adds a user with the given email address and returns its identifier.
    pub fn add_user(&mut self, email_address: String) -> (r: Result<i32, StoreError>)
        requires
            old(self).wf(),
        ensures
            final(self).wf(),
            match r {
                Ok(id) => old(self)@.users.len() < MAX_ROW_ID && id == old(self)@.users.len() + 1
                    && final(self)@ == (Tables {
                    users: old(self)@.users.push(UserView { id, email_address: email_address@ }),
                    ..old(self)@
                }),
                Err(e) => e == StoreError::TableFull && old(self)@.users.len() >= MAX_ROW_ID
                    && final(self)@ == old(self)@,
            },
    {
        if self.users.len() >= MAX_ROW_ID as usize {
            return Err(StoreError::TableFull);
        }
        let id = (self.users.len() + 1) as i32;
        self.users.push(User { id, email_address });
        proof {
            assert(self@.users =~= old(self)@.users.push(UserView { id, email_address: email_address@ }));
            assert(self@.customers =~= old(self)@.customers);
            assert(self@.subscriptions =~= old(self)@.subscriptions);
        }
        Ok(id)
    }

    /// Looks up the first user with the given email address.
    pub fn get_user_by_email(&self, email: &String) -> (r: Option<User>)
        ensures
            match r {
                Some(u) => find_user(self@.users, email@) == Some(u@),
                None => find_user(self@.users, email@) is None,
            },
    {
        let ghost p = has_email(email@);
        let ghost s = self@.users;
        let mut i: usize = 0;
        while i < self.users.len()
            invariant
                0 <= i <= self.users@.len(),
                s == self@.users,
                p == has_email(email@),
                first_index(s.subrange(0, i as int), p) is None,
            decreases self.users@.len() - i,
        {
            proof {
                lemma_first_index_step(s, p, i as int);
                assert(s[i as int] == self.users@[i as int]@);
            }
            if self.users[i].email_address == *email {
                proof {
                    lemma_first_index_prefix(s, p, i + 1);
                }
                return Some(self.users[i].clone());
            }
            i += 1;
        }
        proof {
            assert(s.subrange(0, i as int) =~= s);
        }
        None
    }

    /// Looks up the first billing customer with the given provider customer ID.
    pub fn get_billing_customer_by_stripe_customer_id(&self, stripe_customer_id: &String) -> (r: Option<BillingCustomer>)
        ensures
            match r {
                Some(c) => find_customer(self@.customers, stripe_customer_id@) == Some(c@),
                None => find_customer(self@.customers, stripe_customer_id@) is None,
            },
    {
        let ghost p = has_customer_id(stripe_customer_id@);
        let ghost s = self@.customers;
        let mut i: usize = 0;
        while i < self.customers.len()
            invariant
                0 <= i <= self.customers@.len(),
                s == self@.customers,
                p == has_customer_id(stripe_customer_id@),
                first_index(s.subrange(0, i as int), p) is None,
            decreases self.customers@.len() - i,
        {
            proof {
                lemma_first_index_step(s, p, i as int);
                assert(s[i as int] == self.customers@[i as int]@);
            }
            if self.customers[i].stripe_customer_id == *stripe_customer_id {
                proof {
                    lemma_first_index_prefix(s, p, i + 1);
                }
                return Some(self.customers[i].clone());
            }
            i += 1;
        }
        proof {
            assert(s.subrange(0, i as int) =~= s);
        }
        None
    }

    /// The position of the subscription with the given provider subscription ID.
    pub fn find_billing_subscription(&self, stripe_subscription_id: &String) -> (r: Option<usize>)
        ensures
            match r {
                Some(i) => subscription_index(self@.subscriptions, stripe_subscription_id@) == Some(i as int),
                None => subscription_index(self@.subscriptions, stripe_subscription_id@) is None,
            },
    {
        let ghost p = has_subscription_id(stripe_subscription_id@);
        let ghost s = self@.subscriptions;
        let mut i: usize = 0;
        while i < self.subscriptions.len()
            invariant
                0 <= i <= self.subscriptions@.len(),
                s == self@.subscriptions,
                p == has_subscription_id(stripe_subscription_id@),
                first_index(s.subrange(0, i as int), p) is None,
            decreases self.subscriptions@.len() - i,
        {
            proof {
                lemma_first_index_step(s, p, i as int);
                assert(s[i as int] == self.subscriptions@[i as int]@);
            }
            if self.subscriptions[i].stripe_subscription_id == *stripe_subscription_id {
                proof {
                    lemma_first_index_prefix(s, p, i + 1);
                }
                return Some(i);
            }
            i += 1;
        }
        proof {
            assert(s.subrange(0, i as int) =~= s);
        }
        None
    }

    /// Adds a billing customer linking `user_id` to a provider customer.
    pub fn create_billing_customer(&mut self, user_id: i32, stripe_customer_id: String) -> (r: Result<BillingCustomer, StoreError>)
        requires
            old(self).wf(),
        ensures
            final(self).wf(),
            match create_customer_error(old(self)@, user_id) {
                Some(e) => r == Err::<BillingCustomer, StoreError>(e) && final(self)@ == old(self)@,
                None => r is Ok && final(self)@ == with_customer(old(self)@, user_id, stripe_customer_id@)
                    && r->Ok_0@ == final(self)@.customers.last(),
            },
    {
        if user_id < 1 || user_id as usize > self.users.len() {
            return Err(StoreError::UnknownUser);
        }
        if self.customers.len() >= MAX_ROW_ID as usize {
            return Err(StoreError::TableFull);
        }
        let id = (self.customers.len() + 1) as i32;
        let customer = BillingCustomer { id, user_id, stripe_customer_id };
        let created = customer.clone();
        self.customers.push(customer);
        proof {
            assert(self@.customers =~= with_customer(old(self)@, user_id, stripe_customer_id@).customers);
            assert(self@.users =~= old(self)@.users);
            assert(self@.subscriptions =~= old(self)@.subscriptions);
        }
        Ok(created)
    }

    /// Inserts or updates the subscription keyed by its provider subscription
    /// ID in one step: an existing row gets the new customer and status in
    /// place; otherwise a row is appended with `created_at` set to `now`.
    pub fn upsert_billing_subscription_by_stripe_subscription_id(
        &mut self,
        billing_customer_id: i32,
        stripe_subscription_id: &String,
        status: StripeSubscriptionStatus,
        now: i64,
    ) -> (r: Result<(), StoreError>)
        requires
            old(self).wf(),
        ensures
            final(self).wf(),
            match upsert_error(old(self)@, billing_customer_id, stripe_subscription_id@) {
                Some(e) => r == Err::<(), StoreError>(e) && final(self)@ == old(self)@,
                None => r is Ok && final(self)@ == with_subscription(
                    old(self)@,
                    billing_customer_id,
                    stripe_subscription_id@,
                    status,
                    now,
                ),
            },
    {
        if billing_customer_id < 1 || billing_customer_id as usize > self.customers.len() {
            return Err(StoreError::UnknownCustomer);
        }
        let ghost sid = stripe_subscription_id@;
        let ghost t = old(self)@;
        proof {
            lemma_first_index(t.subscriptions, has_subscription_id(sid));
        }
        match self.find_billing_subscription(stripe_subscription_id) {
            Some(i) => {
                self.subscriptions[i].billing_customer_id = billing_customer_id;
                self.subscriptions[i].stripe_subscription_status = status;
                proof {
                    let u = upserted(t.subscriptions, billing_customer_id, sid, status, now);
                    assert(self@.subscriptions =~= u);
                    assert(self@.users =~= t.users);
                    assert(self@.customers =~= t.customers);
                    assert forall|a: int, b: int|
                        0 <= a < u.len() && 0 <= b < u.len() && a != b implies #[trigger] u[a].stripe_subscription_id
                        != #[trigger] u[b].stripe_subscription_id by {
                        assert(u[a].stripe_subscription_id == t.subscriptions[a].stripe_subscription_id);
                        assert(u[b].stripe_subscription_id == t.subscriptions[b].stripe_subscription_id);
                    }
                }
                Ok(())
            },
            None => {
                if self.subscriptions.len() >= MAX_ROW_ID as usize {
                    return Err(StoreError::TableFull);
                }
                let id = (self.subscriptions.len() + 1) as i32;
                self.subscriptions.push(
                    Model {
                        id,
                        billing_customer_id,
                        stripe_subscription_id: stripe_subscription_id.clone(),
                        stripe_subscription_status: status,
                        created_at: now,
                    },
                );
                proof {
                    let u = upserted(t.subscriptions, billing_customer_id, sid, status, now);
                    assert(self@.subscriptions =~= u);
                    assert(self@.users =~= t.users);
                    assert(self@.customers =~= t.customers);
                    assert forall|a: int, b: int|
                        0 <= a < u.len() && 0 <= b < u.len() && a != b implies #[trigger] u[a].stripe_subscription_id
                        != #[trigger] u[b].stripe_subscription_id by {
                        if a == t.subscriptions.len() {
                            assert(!has_subscription_id(sid)(t.subscriptions[b]));
                        } else if b == t.subscriptions.len() {
                            assert(!has_subscription_id(sid)(t.subscriptions[a]));
                        }
                    }
                }
                Ok(())
            },
        }
    }
}

} // verus!
