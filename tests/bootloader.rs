use early_boot::bootloader::bootcontrol::BootControlImpl;
use early_boot::bootloader::error::BootloaderMessageError;
use early_boot::bootloader::message::{
    BootloaderControl, BootloaderMessage, BootloaderMessageAB, SlotMetadata, BOOT_CTRL_MAGIC,
};
use early_boot::error::ErrorKind;

fn crc32(data: &[u8]) -> u32 {
    crc::Crc::<u32>::new(&crc::CRC_32_ISO_HDLC).checksum(data)
}

/// The control record of the A/B fixture: slot "a", two slots, slot 0 with
/// priority 15 and 6 tries, slot 1 with priority 15 and 7 tries.
fn fixture_control() -> [u8; 32] {
    let mut c = [0u8; 32];
    c[0] = b'a';
    c[4..8].copy_from_slice(&0x42414342u32.to_le_bytes());
    c[8] = 1;
    c[9] = 2;
    c[12] = 0x6f;
    c[14] = 0x7f;
    let crc = crc32(&c[0..28]);
    c[28..32].copy_from_slice(&crc.to_le_bytes());
    c
}

fn fixture() -> Vec<u8> {
    let mut v = vec![0u8; 4096];
    v[2048..2080].copy_from_slice(&fixture_control());
    v
}

#[test]
fn check_sizes() {
    assert_eq!(std::mem::size_of::<BootloaderMessage>(), 2048);
    assert_eq!(std::mem::size_of::<BootloaderMessageAB>(), 4096);
    assert_eq!(std::mem::size_of::<SlotMetadata>(), 2);
    assert_eq!(std::mem::size_of::<BootloaderControl>(), 32);
}

#[test]
fn read_bolo_message() {
    let bytes_slice = fixture();
    let bolo_message_ab = BootloaderMessageAB::try_from(bytes_slice.as_slice()).unwrap();

    let ctrl = bolo_message_ab.get_bootloader_control().unwrap();

    assert_eq!(ctrl.nb_slot(), 2);
    assert_eq!(ctrl.recovery_tries_remaining(), 0);

    assert_eq!(ctrl.slot_info[0].priority(), 15);
    assert_eq!(ctrl.slot_info[1].priority(), 15);
    assert_eq!(ctrl.slot_info[2].priority(), 0);
    assert_eq!(ctrl.slot_info[3].priority(), 0);

    assert_eq!(ctrl.slot_info[0].tries_remaining(), 6);
    assert_eq!(ctrl.slot_info[1].tries_remaining(), 7);
    assert_eq!(ctrl.slot_info[2].tries_remaining(), 0);
    assert_eq!(ctrl.slot_info[3].tries_remaining(), 0);

    assert_eq!(ctrl.slot_info[0].successful_boot(), 0);
    assert_eq!(ctrl.slot_info[1].successful_boot(), 0);
    assert_eq!(ctrl.slot_info[2].successful_boot(), 0);
    assert_eq!(ctrl.slot_info[3].successful_boot(), 0);

    assert_eq!(ctrl.slot_info[0].verity_corrupted(), 0);
    assert_eq!(ctrl.slot_info[1].verity_corrupted(), 0);
    assert_eq!(ctrl.slot_info[2].verity_corrupted(), 0);
    assert_eq!(ctrl.slot_info[3].verity_corrupted(), 0);

    for s in ctrl.slot_info.iter() {
        println!("SlotMetadata:{:?}", s);
    }

    let mut copy = bolo_message_ab;
    let first_as_slice = copy.as_slice();
    assert_eq!(first_as_slice, bytes_slice);

    let control = copy.get_bootloader_control_mut().unwrap();
    control.slot_info[0].set_successful_boot(1);
    for s in control.slot_info.iter() {
        println!("SlotMetadata:{:?}", s);
    }

    println!("BootloaderControl before setting slot suffix:{:?}\n", control);
    let suffix = String::from("b");
    let current_suffix = control.slot_suffix().unwrap();
    println!("Current slot is {:?}", current_suffix);
    control.set_slot_suffix(&suffix).unwrap();
    println!("BootloaderControl after setting slot suffix:{:?}\n", control);
    let current_suffix = control.slot_suffix().unwrap();
    println!("Current slot is {:?}", current_suffix);

    let slice = copy.as_slice();
    assert_eq!(slice.len(), 4096);
}

#[test]
fn round_trip_keeps_fields_and_sets_crc() {
    let mut m = BootloaderMessageAB::try_from(fixture().as_slice()).unwrap();
    {
        let c = m.get_bootloader_control_mut().unwrap();
        c.slot_info[1].set_priority(3);
        c.slot_info[2].set_verity_corrupted(1);
        c.magic = 7;
    }
    let bytes = m.as_slice();
    let stored = u32::from_le_bytes([bytes[2076], bytes[2077], bytes[2078], bytes[2079]]);
    assert_eq!(stored, crc32(&bytes[2048..2076]));
    let again = BootloaderMessageAB::try_from(bytes.as_slice()).unwrap();
    let c = again.get_bootloader_control().unwrap();
    assert_eq!(c.magic, 7);
    assert_eq!(c.slot_info[1].priority(), 3);
    assert_eq!(c.slot_info[1].tries_remaining(), 7);
    assert_eq!(c.slot_info[2].verity_corrupted(), 1);
    assert_eq!(c.slot_suffix, [b'a', 0, 0, 0]);
    assert_eq!(c.to_bytes(), bytes[2048..2080].to_vec());
}

#[test]
fn control_bytes_round_trip() {
    let raw = fixture_control();
    let c = BootloaderControl::from_bytes(&raw);
    assert_eq!(c.magic, BOOT_CTRL_MAGIC);
    assert_eq!(c.version, 1);
    assert_eq!(c.to_bytes(), raw.to_vec());
}

#[test]
fn any_single_bit_flip_in_payload_is_detected() {
    let base = fixture();
    for bit in 0..(28 * 8) {
        let mut bytes = base.clone();
        bytes[2048 + bit / 8] ^= 1u8 << (bit % 8);
        let m = BootloaderMessageAB::try_from(bytes.as_slice()).unwrap();
        assert_eq!(
            m.get_bootloader_control().unwrap_err(),
            BootloaderMessageError::CrcFailure,
            "bit {} went unnoticed",
            bit
        );
    }
}

#[test]
fn bit_packing_of_slot_metadata() {
    let mut s = SlotMetadata { data0: 0, data1: 0 };
    assert_eq!(s.priority(), 0);
    assert_eq!(s.tries_remaining(), 0);
    assert_eq!(s.successful_boot(), 0);
    assert_eq!(s.verity_corrupted(), 0);
    s.set_priority(15);
    s.set_tries_remaining(7);
    s.set_successful_boot(1);
    s.set_verity_corrupted(1);
    assert_eq!([s.data0, s.data1], [0xFF, 0x01]);
    assert_eq!(s.priority(), 15);
    assert_eq!(s.tries_remaining(), 7);
    assert_eq!(s.successful_boot(), 1);
    assert_eq!(s.verity_corrupted(), 1);
    s.set_tries_remaining(0);
    assert_eq!([s.data0, s.data1], [0x8F, 0x01]);
}

#[test]
fn short_buffer_is_insufficient() {
    assert_eq!(
        BootloaderMessageAB::try_from(&[0u8; 4095][..]).unwrap_err(),
        BootloaderMessageError::InsufficientBytes
    );
    assert!(BootControlImpl::create(&[0u8; 100]).is_err());
}

#[test]
fn slot_suffix_rules() {
    let mut c = BootloaderControl::from_bytes(&fixture_control());
    assert_eq!(c.slot_suffix().unwrap(), b"a".to_vec());
    assert_eq!(c.set_slot_suffix("abcd"), Err(BootloaderMessageError::DataTooLong));
    assert_eq!(c.slot_suffix, [b'a', 0, 0, 0]);
    c.set_slot_suffix("xyz").unwrap();
    assert_eq!(c.slot_suffix, [b'x', b'y', b'z', 0]);
    c.slot_suffix = [1, 2, 3, 4];
    assert_eq!(c.slot_suffix(), Err(BootloaderMessageError::DataTooLong));
}

#[test]
fn happy_path_ab_decode() {
    let bc = BootControlImpl::create(&fixture()).unwrap();
    assert_eq!(bc.number_of_slots().unwrap(), 2);
    assert!(bc.is_bootable(0).unwrap());
    assert!(!bc.is_bootable(2).unwrap());
    assert_eq!(bc.active_slot().unwrap(), 0);
    assert!(!bc.is_slot_successful(0).unwrap());
    assert_eq!(bc.is_bootable(4), Err(ErrorKind::InvalidInput));
}

#[test]
fn mark_successful() {
    let mut bc = BootControlImpl::create(&fixture()).unwrap();
    let bytes = bc.set_boot_successful("console=ttyS0 androidboot.slot_suffix=a quiet").unwrap();
    assert_eq!(bytes, bc.0.as_slice());
    let stored = u32::from_le_bytes([bytes[2076], bytes[2077], bytes[2078], bytes[2079]]);
    assert_eq!(stored, crc32(&bytes[2048..2076]));
    let again = BootControlImpl::create(&bytes).unwrap();
    let c = again.0.get_bootloader_control().unwrap();
    assert_eq!(c.slot_info[0].successful_boot(), 1);
    assert_eq!(c.slot_info[0].priority(), 15);
    assert_eq!(c.slot_info[0].tries_remaining(), 6);
    assert_eq!(c.slot_info[1].successful_boot(), 0);
    assert!(again.is_slot_successful(0).unwrap());
}

#[test]
fn set_active_slot_domain() {
    let mut bc = BootControlImpl::create(&fixture()).unwrap();
    assert_eq!(bc.set_active_slot(2), Err(ErrorKind::InvalidInput));
    assert_eq!(bc.set_active_slot(usize::MAX), Err(ErrorKind::InvalidInput));
    let bytes = bc.set_active_slot(1).unwrap();
    assert_eq!(bc.active_slot().unwrap(), 1);
    let again = BootControlImpl::create(&bytes).unwrap();
    assert_eq!(again.active_slot().unwrap(), 1);
    let mut again = again;
    again.set_active_slot(0).unwrap();
    assert_eq!(again.0.control.slot_suffix, [b'a', 0, 0, 0]);
}

#[test]
fn corrupted_record_is_invalid_data() {
    let mut bytes = fixture();
    bytes[2049] = 7;
    let mut bc = BootControlImpl::create(&bytes).unwrap();
    assert_eq!(bc.number_of_slots(), Err(ErrorKind::InvalidData));
    assert_eq!(bc.set_active_slot(0), Err(ErrorKind::InvalidData));
    assert_eq!(bc.is_bootable(0), Err(ErrorKind::InvalidData));
}

#[test]
fn too_many_slots_is_invalid_data() {
    let mut c = fixture_control();
    c[9] = 3;
    let crc = crc32(&c[0..28]);
    c[28..32].copy_from_slice(&crc.to_le_bytes());
    let mut bytes = fixture();
    bytes[2048..2080].copy_from_slice(&c);
    let bc = BootControlImpl::create(&bytes).unwrap();
    assert_eq!(bc.number_of_slots(), Err(ErrorKind::InvalidData));
}

#[test]
fn set_slot_as_unbootable_clears_tries() {
    let mut bc = BootControlImpl::create(&fixture()).unwrap();
    bc.set_slot_as_unbootable(1).unwrap();
    assert!(!bc.is_bootable(1).unwrap());
    assert!(bc.is_bootable(0).unwrap());
    assert_eq!(bc.0.control.slot_info[1].priority(), 15);
    assert_eq!(bc.set_slot_as_unbootable(2), Err(ErrorKind::InvalidInput));
}

#[test]
fn current_slot_from_cmdline() {
    let bc = BootControlImpl::create(&fixture()).unwrap();
    assert_eq!(bc.current_slot("ro androidboot.slot_suffix=b").unwrap(), 1);
    assert_eq!(bc.current_slot("slot_suffix=a init=/init").unwrap(), 0);
    assert_eq!(bc.current_slot("androidboot.slot_suffix=_a"), Err(ErrorKind::InvalidData));
    assert_eq!(bc.current_slot("root=/dev/vda quiet"), Err(ErrorKind::NotFound));
    assert_eq!(bc.current_slot(""), Err(ErrorKind::NotFound));
    let mut m = BootControlImpl::create(&fixture()).unwrap();
    assert_eq!(m.set_boot_successful("quiet"), Err(ErrorKind::NotFound));
    assert_eq!(bc.partition_suffix(1).unwrap(), "b");
    assert_eq!(bc.partition_suffix(2), Err(ErrorKind::InvalidInput));
}

#[test]
fn control_encoding_with_crc() {
    let mut raw = fixture_control();
    raw[28..32].copy_from_slice(&[0, 0, 0, 0]);
    let c = BootloaderControl::from_bytes(&raw);
    let bytes = c.to_bytes_with_crc();
    assert_eq!(bytes.len(), 32);
    assert_eq!(bytes[4..8], 0x42414342u32.to_le_bytes());
    assert_eq!(bytes[28..32], crc32(&bytes[0..28]).to_le_bytes());
    assert_eq!(bytes, fixture_control().to_vec());
}

#[test]
fn active_slot_needs_nul_padding() {
    let mut bc = BootControlImpl::create(&fixture()).unwrap();
    bc.0.control.slot_suffix = [b'a', 0, b'X', 0];
    let bytes = bc.0.as_slice();
    let bc = BootControlImpl::create(&bytes).unwrap();
    assert_eq!(bc.active_slot(), Err(ErrorKind::InvalidData));
    let mut other = BootControlImpl::create(&fixture()).unwrap();
    other.0.control.slot_suffix = [b'c', 0, 0, 0];
    let bytes = other.0.as_slice();
    assert_eq!(BootControlImpl::create(&bytes).unwrap().active_slot(), Err(ErrorKind::InvalidData));
}
