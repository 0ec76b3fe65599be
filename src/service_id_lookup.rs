//! Service identifiers of the platform's services.
use vstd::prelude::*;

use crate::text::str_eq;

verus! {

pub type ServiceId = u16;

/// The id of the service named `name`, if it is one of the platform's.
pub fn id_of_service(name: &str) -> (r: Option<ServiceId>)
    ensures
        r == (if name@ == "dev.sabaton.ApplicationControl"@ {
            Some(1u16)
        } else if name@ == "dev.sabaton.LifecycleControl"@ {
            Some(2u16)
        } else if name@ == "dev.sabaton.ApplicationServer"@ {
            Some(3u16)
        } else {
            None
        }),
{
    if str_eq(name, "dev.sabaton.ApplicationControl") {
        Some(1)
    } else if str_eq(name, "dev.sabaton.LifecycleControl") {
        Some(2)
    } else if str_eq(name, "dev.sabaton.ApplicationServer") {
        Some(3)
    } else {
        None
    }
}

/// Platform service ids are at most 1024.
pub fn is_platform_service_id(id: ServiceId) -> (r: bool)
    ensures
        r == (id <= 1024),
{
    id <= 1024
}

} // verus!
