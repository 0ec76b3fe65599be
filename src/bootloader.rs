//! A/B slot control: the persisted bootloader message and the service on top of it.

pub mod error;
pub mod bootcontrol;
pub mod message;
