//! The name of a service instance.
use vstd::prelude::*;

use crate::error::CoreError;
use crate::text::{chars_of, string_of};

verus! {

pub struct InstanceSpecifier {
    spec: String,
}

impl View for InstanceSpecifier {
    type V = Seq<char>;

    closed spec fn view(&self) -> Seq<char> {
        self.spec@
    }
}

impl InstanceSpecifier {
    /// The specifier for the instance named `instance`; every name is accepted.
    pub fn from(instance: &str) -> (r: Result<Self, CoreError>)
        ensures
            r matches Ok(s) && s@ == instance@,
    {
        Ok(InstanceSpecifier { spec: string_of(chars_of(instance).as_slice()) })
    }

    /// The instance name.
    pub fn get(&self) -> (r: &str)
        ensures
            r@ == self@,
    {
        self.spec.as_str()
    }
}

} // verus!
