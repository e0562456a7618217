//! The two subscription-status vocabularies and the total mapping between them.
use vstd::prelude::*;

verus! {

/// The status of a subscription as the billing provider reports it.
#[derive(Clone, Copy, Debug, PartialEq, Eq, Structural)]
pub enum SubscriptionStatus {
    Incomplete,
    IncompleteExpired,
    Trialing,
    Active,
    PastDue,
    Canceled,
    Unpaid,
    Paused,
}

/// The status of a subscription as it is stored locally.
#[derive(Clone, Copy, Debug, PartialEq, Eq, Structural, Hash)]
pub enum StripeSubscriptionStatus {
    Incomplete,
    IncompleteExpired,
    Trialing,
    Active,
    PastDue,
    Canceled,
    Unpaid,
    Paused,
}

/// The local status that stands for a provider status: each variant maps to
/// the variant of the same name.
pub open spec fn status_of(s: SubscriptionStatus) -> StripeSubscriptionStatus {
    match s {
        SubscriptionStatus::Incomplete => StripeSubscriptionStatus::Incomplete,
        SubscriptionStatus::IncompleteExpired => StripeSubscriptionStatus::IncompleteExpired,
        SubscriptionStatus::Trialing => StripeSubscriptionStatus::Trialing,
        SubscriptionStatus::Active => StripeSubscriptionStatus::Active,
        SubscriptionStatus::PastDue => StripeSubscriptionStatus::PastDue,
        SubscriptionStatus::Canceled => StripeSubscriptionStatus::Canceled,
        SubscriptionStatus::Unpaid => StripeSubscriptionStatus::Unpaid,
        SubscriptionStatus::Paused => StripeSubscriptionStatus::Paused,
    }
}

/// The provider status that a local status stands for.
pub open spec fn provider_status_of(s: StripeSubscriptionStatus) -> SubscriptionStatus {
    match s {
        StripeSubscriptionStatus::Incomplete => SubscriptionStatus::Incomplete,
        StripeSubscriptionStatus::IncompleteExpired => SubscriptionStatus::IncompleteExpired,
        StripeSubscriptionStatus::Trialing => SubscriptionStatus::Trialing,
        StripeSubscriptionStatus::Active => SubscriptionStatus::Active,
        StripeSubscriptionStatus::PastDue => SubscriptionStatus::PastDue,
        StripeSubscriptionStatus::Canceled => SubscriptionStatus::Canceled,
        StripeSubscriptionStatus::Unpaid => SubscriptionStatus::Unpaid,
        StripeSubscriptionStatus::Paused => SubscriptionStatus::Paused,
    }
}

/// The string under which a local status is stored.
pub open spec fn stored_name(s: StripeSubscriptionStatus) -> Seq<char> {
    match s {
        StripeSubscriptionStatus::Incomplete => "incomplete"@,
        StripeSubscriptionStatus::IncompleteExpired => "incomplete_expired"@,
        StripeSubscriptionStatus::Trialing => "trialing"@,
        StripeSubscriptionStatus::Active => "active"@,
        StripeSubscriptionStatus::PastDue => "past_due"@,
        StripeSubscriptionStatus::Canceled => "canceled"@,
        StripeSubscriptionStatus::Unpaid => "unpaid"@,
        StripeSubscriptionStatus::Paused => "paused"@,
    }
}

impl From<SubscriptionStatus> for StripeSubscriptionStatus {
    /// Maps a provider status to the local status of the same name; every
    /// provider status is matched, with no fallback.
    fn from(value: SubscriptionStatus) -> (r: Self)
        ensures
            r == status_of(value),
    {
        match value {
            SubscriptionStatus::Incomplete => StripeSubscriptionStatus::Incomplete,
            SubscriptionStatus::IncompleteExpired => StripeSubscriptionStatus::IncompleteExpired,
            SubscriptionStatus::Trialing => StripeSubscriptionStatus::Trialing,
            SubscriptionStatus::Active => StripeSubscriptionStatus::Active,
            SubscriptionStatus::PastDue => StripeSubscriptionStatus::PastDue,
            SubscriptionStatus::Canceled => StripeSubscriptionStatus::Canceled,
            SubscriptionStatus::Unpaid => StripeSubscriptionStatus::Unpaid,
            SubscriptionStatus::Paused => StripeSubscriptionStatus::Paused,
        }
    }
}

impl vstd::std_specs::convert::FromSpecImpl<SubscriptionStatus> for StripeSubscriptionStatus {
    open spec fn obeys_from_spec() -> bool {
        true
    }

    open spec fn from_spec(v: SubscriptionStatus) -> Self {
        status_of(v)
    }
}

impl StripeSubscriptionStatus {
    /// The string under which this status is stored.
    pub fn as_str(&self) -> (r: &'static str)
        ensures
            r@ == stored_name(*self),
    {
        match self {
            StripeSubscriptionStatus::Incomplete => "incomplete",
            StripeSubscriptionStatus::IncompleteExpired => "incomplete_expired",
            StripeSubscriptionStatus::Trialing => "trialing",
            StripeSubscriptionStatus::Active => "active",
            StripeSubscriptionStatus::PastDue => "past_due",
            StripeSubscriptionStatus::Canceled => "canceled",
            StripeSubscriptionStatus::Unpaid => "unpaid",
            StripeSubscriptionStatus::Paused => "paused",
        }
    }
}

impl Default for StripeSubscriptionStatus {
    fn default() -> (r: Self)
        ensures
            r == StripeSubscriptionStatus::Incomplete,
    {
        StripeSubscriptionStatus::Incomplete
    }
}

/// The status mapping is a bijection between the two vocabularies: distinct
/// provider statuses map to distinct local statuses, and every local status is
/// the image of exactly the provider status of the same name.
pub proof fn lemma_status_mapping_bijective(a: SubscriptionStatus, b: SubscriptionStatus, l: StripeSubscriptionStatus)
    ensures
        status_of(a) == status_of(b) <==> a == b,
        status_of(provider_status_of(l)) == l,
        provider_status_of(status_of(a)) == a,
        status_of(a) == l <==> a == provider_status_of(l),
{
}

} // verus!
