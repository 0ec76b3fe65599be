use early_boot::error::{CoreError, ErrorKind};
use early_boot::fstab::FsEntry;
use early_boot::mount::early_mount::device_mapper_minor;
use early_boot::mount::early_partitions::{
    device_request, dm_device_name, find_root_entry, first_stage_plan, get_all_mounts,
    moved_mount_path, root_device_attempt, should_prepare_verity, verity_partition_name,
    DeviceRequest, MountStep, RootAttempt,
};
use early_boot::mount::verity::{find_verity_entry, verity_table_row, verity_target, VerityEntry};

fn strings(v: &[&str]) -> Vec<String> {
    v.iter().map(|s| s.to_string()).collect()
}

#[test]
fn device_requests() {
    match device_request("/dev/block/by-name/system_a").unwrap() {
        DeviceRequest::Search { matcher, search_dir, node } => {
            assert!(matcher.by_partition_name);
            assert_eq!(matcher.name, "system_a");
            assert_eq!(search_dir, "/sys/class/block");
            assert_eq!(node, "/dev/block/by-name/system_a");
        }
        other => panic!("unexpected request {:?}", other),
    }
    match device_request("/dev//block/./vda6/").unwrap() {
        DeviceRequest::Search { matcher, search_dir, node } => {
            assert!(!matcher.by_partition_name);
            assert_eq!(matcher.name, "vda6");
            assert_eq!(search_dir, "/sys/class/block/vda6");
            assert_eq!(node, "/dev/block/vda6");
        }
        other => panic!("unexpected request {:?}", other),
    }
    assert!(matches!(device_request("tmpfs").unwrap(), DeviceRequest::Pseudo));
    assert!(matches!(device_request("tmpfs/").unwrap(), DeviceRequest::Pseudo));
    assert_eq!(device_request("/dev/sda1").unwrap_err(), ErrorKind::InvalidInput);
    assert_eq!(device_request("/dev/blockx/sda").unwrap_err(), ErrorKind::InvalidInput);
    assert_eq!(device_request("/dev/block").unwrap_err(), ErrorKind::NotFound);
    assert_eq!(device_request("/dev/block/by-name").unwrap_err(), ErrorKind::NotFound);
}

#[test]
fn fstab_decisions() {
    let text = "/dev/block/by-name/vendor /vendor ext4 ro slotselect,verity\n/dev/block/by-name/system / ext4 ro slotselect,first_stage_mount\n";
    let entries = FsEntry::parse_entries(text, "a").unwrap();
    assert_eq!(find_root_entry(&entries), Some(1));
    assert!(!should_prepare_verity(&entries));
    let text2 = "/dev/block/vdb /data ext4 rw first_stage_mount,verity\n";
    let entries2 = FsEntry::parse_entries(text2, "a").unwrap();
    assert!(should_prepare_verity(&entries2));
    assert_eq!(find_root_entry(&entries2), None);
}

#[test]
fn names_of_devices() {
    assert_eq!(verity_partition_name("b"), "/dev/block/by-name/vbmeta_b");
    assert_eq!(dm_device_name(0), "dm-0");
    assert_eq!(dm_device_name(12), "dm-12");
    assert_eq!(dm_device_name(u64::MAX), format!("dm-{}", u64::MAX));
}

#[test]
fn mounts_to_move_under_new_root() {
    let mounts = strings(&["/", "/dev", "/dev/pts", "/proc", "/new_root", "/devices", "/sys", "/sys/fs/cgroup"]);
    assert_eq!(get_all_mounts(&mounts, "/new_root"), strings(&["/dev", "/proc", "/sys"]));
    assert_eq!(get_all_mounts(&strings(&[]), "/new_root"), strings(&[]));
    assert_eq!(moved_mount_path("/new_root", "/dev/pts"), "/new_root/dev/pts");
    assert_eq!(moved_mount_path("/new_root/", "//proc"), "/new_root/proc");
    assert_eq!(moved_mount_path("/new_root", "/"), "/new_root/");
    assert_eq!(moved_mount_path("", "/sys"), "sys");
}

#[test]
fn device_mapper_minor_from_proc_misc() {
    let misc = " 57 autofs\n236 device-mapper\n183 hw_random\n";
    assert_eq!(device_mapper_minor(misc), Some(236));
    assert_eq!(device_mapper_minor("\n1 a\n\t 63 device-mapper \r\n"), Some(63));
    assert_eq!(device_mapper_minor("57 autofs\n"), None);
    assert_eq!(device_mapper_minor("x device-mapper\n236 device-mapper\n"), None);
    assert_eq!(device_mapper_minor(""), None);
}

fn entry() -> VerityEntry {
    VerityEntry {
        partition_name: String::from("system_a"),
        data_block_size: 4096,
        hash_block_size: 4096,
        num_blocks: 262144,
        hash_start: 1,
        algorithm: String::from("sha256"),
        digest: vec![0xde, 0xad, 0x0f],
        salt: vec![0x01, 0xa0],
    }
}

#[test]
fn verity_table() {
    let row = verity_table_row("/dev/block/vda6", "/dev/block/vda9", &entry());
    assert_eq!(row, "1 /dev/block/vda6 /dev/block/vda9 4096 4096 262144 1 sha256 dead0f 01a0");
    let t = verity_target("/dev/block/vda6", "/dev/block/vda9", 1 << 30, &entry());
    assert_eq!(t.start, 0);
    assert_eq!(t.length, 1 << 30);
    assert_eq!(t.target_type, "verity");
    assert_eq!(t.params, row);
    let mut empty = entry();
    empty.digest = vec![];
    empty.salt = vec![];
    assert!(verity_table_row("a", "b", &empty).ends_with("sha256  "));
}

#[test]
fn verity_entry_lookup() {
    let entries = vec![entry()];
    assert_eq!(find_verity_entry(&entries, "/dev/block/by-name/system_a"), Ok(0));
    assert_eq!(find_verity_entry(&entries, "/dev/block/by-name/vendor_a"), Err(CoreError::DMError));
    assert_eq!(find_verity_entry(&entries, "/"), Err(CoreError::InvalidArgument));
}

#[test]
fn first_stage_mount_plan() {
    let text = "/dev/block/by-name/vendor /vendor ext4 ro slotselect,verity\n\
/dev/block/by-name/system / ext4 ro slotselect,first_stage_mount,verity\n\
tmpfs /tmp tmpfs rw none\n\
/dev/block/by-name/odm /odm ext4 ro verity\n";
    let entries = FsEntry::parse_entries(text, "a").unwrap();
    let plan = first_stage_plan(&entries).unwrap();
    assert_eq!(
        plan,
        vec![
            MountStep::Root { entry: 1, dm_index: Some(0) },
            MountStep::Pivot,
            MountStep::Entry { entry: 0, dm_index: Some(1) },
            MountStep::Entry { entry: 2, dm_index: None },
            MountStep::Entry { entry: 3, dm_index: Some(2) },
        ]
    );

    let not_first = FsEntry::parse_entries("/dev/block/vda / ext4 ro none\n/dev/block/vdb /data ext4 rw none\n", "a").unwrap();
    assert_eq!(first_stage_plan(&not_first).unwrap_err(), CoreError::InvalidArgument);
    let no_root = FsEntry::parse_entries("/dev/block/vdb /data ext4 rw first_stage_mount\n", "a").unwrap();
    assert_eq!(first_stage_plan(&no_root).unwrap_err(), CoreError::InvalidArgument);

    let plain = FsEntry::parse_entries("/dev/block/vda / ext4 ro first_stage_mount\n/dev/block/vdb /data ext4 rw none\n", "a").unwrap();
    assert_eq!(
        first_stage_plan(&plain).unwrap(),
        vec![
            MountStep::Root { entry: 0, dm_index: None },
            MountStep::Pivot,
            MountStep::Entry { entry: 1, dm_index: None },
        ]
    );

    let no_dm = FsEntry::parse_entries("/dev/block/vda / ext4 ro first_stage_mount\n/dev/block/vdb /data ext4 rw verity\n", "a").unwrap();
    assert_eq!(first_stage_plan(&no_dm).unwrap_err(), CoreError::DMError);
    assert_eq!(first_stage_plan(&Vec::new()).unwrap_err(), CoreError::InvalidArgument);
}

#[test]
fn root_device_retries() {
    assert_eq!(root_device_attempt(0, true), RootAttempt::Mount);
    assert_eq!(root_device_attempt(0, false), RootAttempt::RetryAfterSleep);
    assert_eq!(root_device_attempt(3, false), RootAttempt::RetryAfterSleep);
    assert_eq!(root_device_attempt(4, false), RootAttempt::Mount);
    assert_eq!(root_device_attempt(u32::MAX, false), RootAttempt::Mount);
}
