//! Values shared by the event and property interfaces of services.
use vstd::prelude::*;

pub mod interface;

verus! {

/// How the sample cache of a subscription is updated.
#[derive(Debug, Clone, Copy, PartialEq, Eq, Structural)]
pub enum EventCacheUpdatePolicy {
    LastN(usize),
    NewestN(usize),
}

/// The state of a subscription.
#[derive(Debug, Clone, Copy, PartialEq, Eq, Structural)]
pub enum SubscriptionState {
    Unsubscribed,
    SubscriptionPending,
    Subscribed,
}

} // verus!
