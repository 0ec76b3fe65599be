//! Marker traits for the payloads of events and properties.
use vstd::prelude::*;

verus! {

/// Marks a type that an event carries.
pub trait EventType {

}

/// Marks a type that a property carries.
pub trait PropertyType {

}

} // verus!
