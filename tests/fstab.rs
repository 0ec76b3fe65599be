use early_boot::fstab::{
    FsEntry, FsManagerFlags, MS_DIRSYNC, MS_LAZYTIME, MS_MANDLOCK, MS_NOATIME, MS_NODEV,
    MS_NODIRATIME, MS_NOEXEC, MS_NOSUID, MS_RDONLY, MS_SILENT, MS_STRICTATIME, MS_SYNCHRONOUS,
};

#[test]
fn test_construct() {
    let fstab = r###"#fstab for initrd. 
#<dev>                          <mnt_point>     <type>  <mnt_flags options> <fs_mgr_flags>
# system partition must be mounted as root.
/dev/block/by-name/system           /           ext2    ro,noauto,nouser    slotselect,first_stage_mount,verity
/dev/block/by-name/vendor           /vendor     ext2    ro,noauto,nouser    slotselect,first_stage_mount
/dev/block/by-name/data             /data       ext2    rw,noauto,nouser    first_stage_mount
"###;

    let entries = FsEntry::parse_entries(&fstab, "a").unwrap();
    assert_eq!(entries.len(), 3);
    assert_eq!(entries[0].fs_spec, "/dev/block/by-name/system_a");
    assert_eq!(entries[1].fs_spec, "/dev/block/by-name/vendor_a");
    assert_eq!(entries[1].mountpoint, "/vendor");
    assert_eq!(entries[2].fs_spec, "/dev/block/by-name/data");
    assert_eq!(entries[2].mount_options, 0);
    assert!(entries[2].is_first_stage_mount());
    assert!(!entries[2].is_slot_selected());
    assert!(!entries[1].is_verity_protected());
}

#[test]
fn fstab_parse_scenario() {
    let line = "/dev/block/by-name/system / ext2 ro,noauto,nouser slotselect,first_stage_mount,verity";
    let entries = FsEntry::parse_entries(line, "b").unwrap();
    assert_eq!(entries.len(), 1);
    let e = &entries[0];
    assert_eq!(e.fs_spec, "/dev/block/by-name/system_b");
    assert_eq!(e.mountpoint, "/");
    assert_eq!(e.vfs_type, "ext2");
    assert_eq!(e.mount_options, MS_RDONLY);
    assert!(e.is_slot_selected());
    assert!(e.is_first_stage_mount());
    assert!(e.is_verity_protected());
    assert!(!e.is_logical());
    assert_eq!(e.fs_manager_flags.len(), 3);
}

#[test]
fn slot_suffix_substitution() {
    let text = "/dev/block/by-name/system /system ext4 ro slotselect\n";
    let entries = FsEntry::parse_entries(text, "a").unwrap();
    assert_eq!(entries[0].fs_spec, "/dev/block/by-name/system_a");
    let plain = FsEntry::parse_entries("/dev/block/by-name/system /system ext4 ro verity", "a").unwrap();
    assert_eq!(plain[0].fs_spec, "/dev/block/by-name/system");
}

#[test]
fn skipped_lines() {
    let text = "# comment with five fields a b\n\n  \n/dev/a /a ext4 ro\n/dev/b /b ext4 ro x y\n\t/dev/c\t/c ext4 rw,nodev logical,wait\r\n";
    let entries = FsEntry::parse_entries(text, "a").unwrap();
    assert_eq!(entries.len(), 1);
    assert_eq!(entries[0].fs_spec, "/dev/c");
    assert_eq!(entries[0].mount_options, MS_NODEV);
    assert!(entries[0].is_logical());
    match &entries[0].fs_manager_flags[1] {
        FsManagerFlags::Other(s) => assert_eq!(s, "wait"),
        other => panic!("unexpected flag {:?}", other),
    }
    assert!(FsEntry::parse_entries("", "a").unwrap().is_empty());
}

#[test]
fn mount_option_flags() {
    let all = "ro,rw,dirsync,lazytime,mandlock,noatime,nodev,nodiratime,noexec,nosuid,silent,strictatime,sync,bogus";
    let text = format!("/dev/x /x ext4 {} none", all);
    let entries = FsEntry::parse_entries(&text, "a").unwrap();
    let expected = MS_RDONLY
        | MS_DIRSYNC
        | MS_LAZYTIME
        | MS_MANDLOCK
        | MS_NOATIME
        | MS_NODEV
        | MS_NODIRATIME
        | MS_NOEXEC
        | MS_NOSUID
        | MS_SILENT
        | MS_STRICTATIME
        | MS_SYNCHRONOUS;
    assert_eq!(entries[0].mount_options, expected);
    assert_eq!(FsEntry::get_mount_option("noexec"), MS_NOEXEC);
    assert_eq!(FsEntry::get_mount_option("rw"), 0);
    assert_eq!(FsEntry::get_mount_option("nosiud"), 0);
}

#[test]
fn mount_flags_match_the_c_library() {
    assert_eq!(MS_RDONLY, libc::MS_RDONLY as u64);
    assert_eq!(MS_NOSUID, libc::MS_NOSUID as u64);
    assert_eq!(MS_NODEV, libc::MS_NODEV as u64);
    assert_eq!(MS_NOEXEC, libc::MS_NOEXEC as u64);
    assert_eq!(MS_SYNCHRONOUS, libc::MS_SYNCHRONOUS as u64);
    assert_eq!(MS_MANDLOCK, libc::MS_MANDLOCK as u64);
    assert_eq!(MS_DIRSYNC, libc::MS_DIRSYNC as u64);
    assert_eq!(MS_NOATIME, libc::MS_NOATIME as u64);
    assert_eq!(MS_NODIRATIME, libc::MS_NODIRATIME as u64);
    assert_eq!(MS_SILENT, libc::MS_SILENT as u64);
    assert_eq!(MS_STRICTATIME, libc::MS_STRICTATIME as u64);
    assert_eq!(MS_LAZYTIME, libc::MS_LAZYTIME as u64);
    assert_eq!(early_boot::fstab::MS_BIND, libc::MS_BIND as u64);
    assert_eq!(early_boot::fstab::MS_MOVE, libc::MS_MOVE as u64);
}

#[test]
fn flags_from_str() {
    assert!(matches!(FsManagerFlags::from_str("slotselect").unwrap(), FsManagerFlags::SlotSelect));
    assert!(matches!(FsManagerFlags::from_str("first_stage_mount").unwrap(), FsManagerFlags::FirstStageMount));
    assert!(matches!(FsManagerFlags::from_str("verity").unwrap(), FsManagerFlags::Verity));
    assert!(matches!(FsManagerFlags::from_str("logical").unwrap(), FsManagerFlags::Logical));
    match FsManagerFlags::from_str("Verity").unwrap() {
        FsManagerFlags::Other(s) => assert_eq!(s, "Verity"),
        other => panic!("unexpected flag {:?}", other),
    }
}
