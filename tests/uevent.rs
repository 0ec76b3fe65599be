use early_boot::error::ErrorKind;
use early_boot::permissions::{DefaultAttributes, DefaultImpl, FileAttributes};
use early_boot::uevent::handle_events::{handle_add, handle_uevent};
use early_boot::uevent::{
    is_replay_child, replay_step, should_replay, sanitize_name, ReplayAction, ReplayEvent, uevent_from_message, Action, DeviceKind, NetlinkSender, UEvent,
    UEventGenerateAction,
};
use early_boot::mount::early_partitions::DeviceMatcher;

const VDA6: &[u8] = b"add@/devices/virtio1/block/vda/vda6\0ACTION=add\0DEVPATH=/devices/virtio1/block/vda/vda6\0SUBSYSTEM=block\0MAJOR=252\0MINOR=6\0DEVNAME=vda6\0PARTN=6\0PARTNAME=system_a\0";

fn event(devname: &str, partname: Option<&str>) -> UEvent {
    let mut p = format!("add@/x\0ACTION=add\0DEVPATH=/devices/x/{}\0SUBSYSTEM=block\0MAJOR=252\0MINOR=1\0DEVNAME={}\0", devname, devname);
    if let Some(n) = partname {
        p.push_str(&format!("PARTNAME={}\0", n));
    }
    UEvent::try_from(p.as_bytes()).unwrap()
}

#[test]
fn uevent_parse_scenario() {
    let e = UEvent::try_from(VDA6).unwrap();
    assert_eq!(e.get_action(), Action::Add);
    assert_eq!(e.get_devname(), Some("vda6"));
    assert_eq!(e.get_partition_name(), Some("system_a"));
    assert!(e.is_subsystem("block"));
    assert!(!e.is_subsystem("net"));
    assert_eq!(e.get_dev_type(), DeviceKind::Block);
    let node = handle_add::<DefaultImpl>(&e).unwrap().unwrap();
    assert_eq!(node.path, "/dev/block/vda6");
    assert_eq!(node.major, 252);
    assert_eq!(node.minor, 6);
    assert_eq!(node.link.as_deref(), Some("/dev/block/by-name/system_a"));
    assert_eq!(node.kind, DeviceKind::Block);
    assert_eq!(node.attributes, FileAttributes { owner: 0, group: 0, mode: 0o600 });
    let dbg = format!("{:?}", e);
    assert!(dbg.contains("maybe_partitionnum: Some(6)"));
    assert!(dbg.contains("dev_path: \"/devices/virtio1/block/vda/vda6\""));
}

#[test]
fn unknown_action_is_invalid_data() {
    assert_eq!(UEvent::try_from(b"hdr\0ACTION=bind\0DEVNAME=x\0").unwrap_err(), ErrorKind::InvalidData);
    assert_eq!(UEvent::try_from(b"ACTION=add\0").unwrap_err(), ErrorKind::InvalidData);
    assert_eq!(UEvent::try_from(b"").unwrap_err(), ErrorKind::InvalidData);
}

#[test]
fn malformed_lines_and_later_values() {
    let e = UEvent::try_from(
        b"h\0ACTION=add\0DEVNAME=a=b\0DEVNAME\0DEVNAME=first\0DEVNAME=second\0MAJOR=+7\0MINOR=x1\0PARTN=-3\0ACTION=remove\0",
    )
    .unwrap();
    assert_eq!(e.get_action(), Action::Remove);
    assert_eq!(e.get_devname(), Some("second"));
    let dbg = format!("{:?}", e);
    assert!(dbg.contains("maybe_major: Some(7)"));
    assert!(dbg.contains("maybe_minor: None"));
    assert!(dbg.contains("maybe_partitionnum: Some(-3)"));
    let big = UEvent::try_from(b"h\0ACTION=change\0MAJOR=18446744073709551616\0PARTN=2147483648\0").unwrap();
    let dbg = format!("{:?}", big);
    assert!(dbg.contains("maybe_major: None"));
    assert!(dbg.contains("maybe_partitionnum: Some(0)"));
    let max = UEvent::try_from(b"h\0ACTION=change\0MAJOR=18446744073709551615\0PARTN=-2147483648\0").unwrap();
    let dbg = format!("{:?}", max);
    assert!(dbg.contains("maybe_major: Some(18446744073709551615)"));
    assert!(dbg.contains("maybe_partitionnum: Some(-2147483648)"));
}

#[test]
fn lossy_text_values() {
    let e = UEvent::try_from(b"h\0ACTION=add\0DEVNAME=v\xffa\0SUBSYSTEM=blo\xc3\xa9\0").unwrap();
    assert_eq!(e.get_devname(), Some("v\u{fffd}a"));
    assert!(e.is_subsystem("blo\u{e9}"));
}

#[test]
fn partition_names_are_sanitized() {
    assert_eq!(sanitize_name(b"sys/tem a.b-c_D9"), "sys_tem_a.b-c_D9");
    assert_eq!(sanitize_name(b"\xff\x00="), "___");
    assert_eq!(sanitize_name(b""), "");
    let e = event("vda3", Some("bad name/"));
    assert_eq!(e.get_partition_name(), Some("bad_name_"));
}

#[test]
fn credential_filter() {
    let payload = VDA6;
    let kernel = Some(NetlinkSender { groups: 1, pid: 0 });
    assert!(uevent_from_message(&[0], kernel, payload).is_ok());
    assert_eq!(uevent_from_message(&[0, 1000], kernel, payload).unwrap_err(), ErrorKind::PermissionDenied);
    assert_eq!(uevent_from_message(&[], kernel, payload).unwrap_err(), ErrorKind::PermissionDenied);
    assert_eq!(
        uevent_from_message(&[0], Some(NetlinkSender { groups: 0, pid: 0 }), payload).unwrap_err(),
        ErrorKind::PermissionDenied
    );
    assert_eq!(
        uevent_from_message(&[0], Some(NetlinkSender { groups: 1, pid: 42 }), payload).unwrap_err(),
        ErrorKind::PermissionDenied
    );
    assert_eq!(uevent_from_message(&[0], None, payload).unwrap_err(), ErrorKind::PermissionDenied);
    assert_eq!(uevent_from_message(&[0], kernel, b"h\0X=y\0").unwrap_err(), ErrorKind::InvalidData);
}

#[test]
fn predicate_stops_on_awaited_device() {
    let events = [event("vda", None), event("vda1", Some("boot")), event("vda6", Some("system_a"))];
    let by_devname = DeviceMatcher { by_partition_name: false, name: String::from("vda6") };
    let mut seen = 0;
    let mut outcome = UEventGenerateAction::Continue;
    for e in events.iter() {
        seen += 1;
        outcome = by_devname.check(e);
        if outcome == UEventGenerateAction::Stop {
            break;
        }
    }
    assert_eq!(outcome, UEventGenerateAction::Stop);
    assert_eq!(seen, 3);
    let by_name = DeviceMatcher { by_partition_name: true, name: String::from("boot") };
    assert_eq!(by_name.check(&events[0]), UEventGenerateAction::Continue);
    assert_eq!(by_name.check(&events[1]), UEventGenerateAction::Stop);
    assert_eq!(by_name.check(&events[2]), UEventGenerateAction::Continue);
}

struct Shared;

impl DefaultAttributes for Shared {
    fn get_file_attributes(_path: &str) -> FileAttributes {
        FileAttributes { owner: 0, group: 6, mode: 0o660 }
    }
}

#[test]
fn handle_events_outcomes() {
    let e = event("vda2", None);
    let node = handle_uevent::<Shared>(&e).unwrap().unwrap();
    assert_eq!(node.path, "/dev/block/vda2");
    assert_eq!(node.link, None);
    assert_eq!(node.attributes.mode, 0o660);
    assert_eq!(DefaultImpl::get_file_attributes("/dev/x").mode, 0o600);

    let no_minor = UEvent::try_from(b"h\0ACTION=add\0SUBSYSTEM=block\0MAJOR=1\0DEVPATH=/a/b\0").unwrap();
    assert_eq!(handle_uevent::<DefaultImpl>(&no_minor).unwrap_err(), ErrorKind::InvalidInput);
    let net = UEvent::try_from(b"h\0ACTION=add\0SUBSYSTEM=net\0MAJOR=1\0MINOR=2\0DEVPATH=/a/eth0\0").unwrap();
    assert!(handle_uevent::<DefaultImpl>(&net).unwrap().is_none());
    let nameless = UEvent::try_from(b"h\0ACTION=add\0SUBSYSTEM=block\0MAJOR=1\0MINOR=2\0DEVPATH=/a/..\0").unwrap();
    assert_eq!(handle_uevent::<DefaultImpl>(&nameless).unwrap_err(), ErrorKind::InvalidInput);
    let trailing = UEvent::try_from(b"h\0ACTION=add\0SUBSYSTEM=block\0MAJOR=1\0MINOR=2\0DEVPATH=/a/sdb//.\0").unwrap();
    assert_eq!(handle_uevent::<DefaultImpl>(&trailing).unwrap().unwrap().path, "/dev/block/sdb");
    let removed = UEvent::try_from(b"h\0ACTION=remove\0SUBSYSTEM=block\0MAJOR=1\0MINOR=2\0").unwrap();
    assert!(handle_uevent::<DefaultImpl>(&removed).unwrap().is_none());
}

#[test]
fn replay_depth_and_children() {
    assert!(should_replay(true, 5));
    assert!(!should_replay(true, 6));
    assert!(!should_replay(false, 2));
    assert!(is_replay_child(false, true, true, false));
    assert!(!is_replay_child(false, true, true, true));
    assert!(!is_replay_child(false, true, false, false));
    assert!(!is_replay_child(true, true, true, false));
}

/// Drives the replay of one directory whose drain yields `events`, asking
/// `matcher`; returns the outcome and how many events the predicate saw.
fn drive_replay(events: &[UEvent], matcher: &DeviceMatcher) -> (UEventGenerateAction, usize) {
    let mut next = 0;
    let mut asked = 0;
    let mut action = replay_step(ReplayEvent::Wrote(true));
    loop {
        let ev = match action {
            ReplayAction::Poll => ReplayEvent::Polled(Some(if next < events.len() { 1 } else { 0 })),
            ReplayAction::Receive => ReplayEvent::Received(true),
            ReplayAction::AskPredicate => {
                asked += 1;
                next += 1;
                ReplayEvent::Answered(matcher.check(&events[next - 1]))
            }
            ReplayAction::NextChild => return (UEventGenerateAction::Continue, asked),
            ReplayAction::Finish(a) => return (a, asked),
        };
        action = replay_step(ev);
    }
}

#[test]
fn replay_stops_right_after_awaited_event() {
    let events = [event("vda", None), event("vda6", Some("system_a")), event("vda1", Some("boot"))];
    let m = DeviceMatcher { by_partition_name: false, name: String::from("vda6") };
    assert_eq!(drive_replay(&events, &m), (UEventGenerateAction::Stop, 2));
    let none = DeviceMatcher { by_partition_name: false, name: String::from("sdz") };
    assert_eq!(drive_replay(&events, &none), (UEventGenerateAction::Continue, 3));
}

#[test]
fn replay_step_decisions() {
    assert_eq!(replay_step(ReplayEvent::Wrote(false)), ReplayAction::NextChild);
    assert_eq!(replay_step(ReplayEvent::Polled(None)), ReplayAction::NextChild);
    assert_eq!(replay_step(ReplayEvent::Polled(Some(0))), ReplayAction::NextChild);
    assert_eq!(replay_step(ReplayEvent::Polled(Some(2))), ReplayAction::Receive);
    assert_eq!(replay_step(ReplayEvent::Received(false)), ReplayAction::Poll);
    assert_eq!(
        replay_step(ReplayEvent::ChildDone(UEventGenerateAction::Stop)),
        ReplayAction::Finish(UEventGenerateAction::Stop)
    );
    assert_eq!(replay_step(ReplayEvent::ChildDone(UEventGenerateAction::Continue)), ReplayAction::NextChild);
}
