//! Early-boot engine: A/B slot control, uevent-driven device materialisation,
//! fstab parsing and the decisions of the first-stage mount.

pub mod bootloader;
pub mod text;
pub mod error;
pub mod fstab;
pub mod uevent;
pub mod path;
pub mod permissions;
pub mod mount;
pub mod api_trait;
pub mod ids;
pub mod instance_specifier;
pub mod timesync;

mod service_id_lookup;

pub use service_id_lookup::{id_of_service, is_platform_service_id, ServiceId};
