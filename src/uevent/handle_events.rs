//! Turning an `add` uevent into the device node and link to create.
use vstd::prelude::*;

use super::{Action, DeviceKind, UEvent};
use crate::error::ErrorKind;
use crate::path::{file_name, path_file_name};
use crate::permissions::{DefaultAttributes, FileAttributes};
use crate::text::{chars_of, push_chars};

verus! {

/// A device node to create, with the by-name link that should point at it.
#[derive(Debug, Clone)]
pub struct DeviceNode {
    /// Where the node goes: `/dev/block/<name>`.
    pub path: String,
    pub kind: DeviceKind,
    pub major: u64,
    pub minor: u64,
    /// Attributes for the node and for the directories created above it.
    pub attributes: FileAttributes,
    /// `/dev/block/by-name/<partition name>`, for a named partition.
    pub link: Option<String>,
}

/// The node that an `add` event of a block device asks for, when its
/// device path has a file name.
pub open spec fn node_matches(n: DeviceNode, e: super::UEventView) -> bool {
    &&& file_name(e.dev_path) is Some
    &&& n.path@ == "/dev/block/"@ + file_name(e.dev_path)->Some_0
    &&& n.kind == DeviceKind::Block
    &&& e.major == Some(n.major)
    &&& e.minor == Some(n.minor)
    &&& match e.partition_name {
        Some(p) => n.link matches Some(l) && l@ == "/dev/block/by-name/"@ + p,
        None => n.link is None,
    }
}

/// Handles a uevent: an `add` goes to `handle_add`; `change` and `remove`
/// need nothing here. An event without a known action is refused with
/// `InvalidInput`.
pub fn handle_uevent<P: DefaultAttributes>(event: &UEvent) -> (r: Result<
    Option<DeviceNode>,
    ErrorKind,
>)
    ensures
        event@.action == Action::Unknown ==> r == Err::<Option<DeviceNode>, ErrorKind>(
            ErrorKind::InvalidInput,
        ),
        (event@.action == Action::Change || event@.action == Action::Remove) ==> r matches Ok(
            None,
        ),
        event@.action == Action::Add ==> add_outcome(event@, r),
{
    match event.get_action() {
        Action::Unknown => Err(ErrorKind::InvalidInput),
        Action::Add => handle_add::<P>(event),
        Action::Change => Ok(None),
        Action::Remove => Ok(None),
    }
}

/// What `handle_add` returns for the event `e`: `InvalidInput` without a
/// major and a minor number; nothing for a subsystem other than `block`;
/// `InvalidInput` for a block device path without a file name; otherwise
/// the node and link to create.
pub open spec fn add_outcome(e: super::UEventView, r: Result<Option<DeviceNode>, ErrorKind>) -> bool {
    if e.major is None || e.minor is None {
        r == Err::<Option<DeviceNode>, ErrorKind>(ErrorKind::InvalidInput)
    } else if e.subsystem != Some("block"@) {
        r matches Ok(None)
    } else if file_name(e.dev_path) is None {
        r == Err::<Option<DeviceNode>, ErrorKind>(ErrorKind::InvalidInput)
    } else {
        r matches Ok(Some(n)) && node_matches(n, e)
    }
}

/// The device node an `add` event asks for. The attributes come from the
/// policy `P` for the node's path. Subsystems other than `block` need no
/// node here.
pub fn handle_add<P: DefaultAttributes>(event: &UEvent) -> (r: Result<
    Option<DeviceNode>,
    ErrorKind,
>)
    requires
        event@.action == Action::Add,
    ensures
        add_outcome(event@, r),
{
    let (major, minor) = match (event.maybe_major, event.maybe_minor) {
        (Some(major), Some(minor)) => (major, minor),
        _ => return Err(ErrorKind::InvalidInput),
    };
    if !event.is_subsystem("block") {
        return Ok(None);
    }
    let dev_path = chars_of(event.dev_path.as_str());
    let name = match path_file_name(dev_path.as_slice()) {
        Some(n) => n,
        None => return Err(ErrorKind::InvalidInput),
    };
    let mut path = String::new();
    let prefix = chars_of("/dev/block/");
    push_chars(&mut path, prefix.as_slice());
    push_chars(&mut path, name.as_slice());
    let link = match &event.maybe_partitionname {
        Some(p) => {
            let mut l = String::new();
            let by_name = chars_of("/dev/block/by-name/");
            push_chars(&mut l, by_name.as_slice());
            let pc = chars_of(p.as_str());
            push_chars(&mut l, pc.as_slice());
            Some(l)
        },
        None => None,
    };
    let attributes = P::get_file_attributes(path.as_str());
    let kind = event.get_dev_type();
    Ok(Some(DeviceNode { path, kind, major, minor, attributes, link }))
}

} // verus!
