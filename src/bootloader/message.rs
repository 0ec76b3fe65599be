//! Bit-exact layout of the bootloader message kept at the start of the MISC partition.
use vstd::bytes::{
    lemma_auto_spec_u32_to_from_le_bytes, spec_u32_from_le_bytes, spec_u32_to_le_bytes,
    u32_from_le_bytes, u32_to_le_bytes,
};
use vstd::prelude::*;
use vstd::slice::slice_subrange;
use vstd::string::StringSliceAdditionalSpecFns;

use super::error::BootloaderMessageError;

verus! {

/// The value stored in `magic` by the bootloader ("BCBA" read little-endian).
pub const BOOT_CTRL_MAGIC: u32 = 0x42414342;

/// Size of the A/B bootloader message as persisted.
pub const BOOTLOADER_MESSAGE_AB_SIZE: usize = 4096;

/// What CRC-32/ISO-HDLC yields on a byte sequence.
pub uninterp spec fn crc32_iso_hdlc(data: Seq<u8>) -> u32;

/// Relies on `crc::Crc::<u32>::checksum` configured with `crc::CRC_32_ISO_HDLC`:
/// the checksum depends on the bytes alone.
#[verifier::external_body]
fn crc32_checksum(data: &[u8]) -> (r: u32)
    ensures
        r == crc32_iso_hdlc(data@),
{
    crc::Crc::<u32>::new(&crc::CRC_32_ISO_HDLC).checksum(data)
}

/// Copies `N` bytes of `b` starting at `off` into an array.
fn read_array<const N: usize>(b: &[u8], off: usize) -> (r: [u8; N])
    requires
        off + N <= b@.len(),
    ensures
        r@ == b@.subrange(off as int, off + N),
{
    let mut r = [0u8; N];
    let mut i: usize = 0;
    while i < N
        invariant
            i <= N,
            off + N <= b.len(),
            b.len() == b@.len(),
            r@.len() == N,
            forall|j: int| 0 <= j < i ==> r@[j] == b@[off + j],
        decreases N - i,
    {
        r[i] = b[off + i];
        i = i + 1;
    }
    assert(r@ =~= b@.subrange(off as int, off + N));
    r
}

/// Appends every byte of `s` to `v`.
fn append_bytes(v: &mut Vec<u8>, s: &[u8])
    ensures
        final(v)@ == old(v)@ + s@,
{
    let mut i: usize = 0;
    while i < s.len()
        invariant
            i <= s@.len(),
            v@ == old(v)@ + s@.take(i as int),
        decreases s@.len() - i,
    {
        v.push(s[i]);
        i = i + 1;
        assert(v@ =~= old(v)@ + s@.take(i as int));
    }
    assert(s@.take(s@.len() as int) =~= s@);
}

/// Per-slot boot metadata: two bytes, bit-packed.
///
/// Byte 0: `priority` in bits 0..=3, `tries_remaining` in bits 4..=6 and
/// `successful_boot` in bit 7. Byte 1: `verity_corrupted` in bit 0.
#[derive(Debug, Clone, Copy, PartialEq, Eq, Structural)]
pub struct SlotMetadata {
    pub data0: u8,
    pub data1: u8,
}

impl SlotMetadata {
    pub open spec fn spec_priority(self) -> u8 {
        self.data0 & 0x0f
    }

    pub open spec fn spec_tries_remaining(self) -> u8 {
        (self.data0 >> 4u8) & 0x07
    }

    pub open spec fn spec_successful_boot(self) -> u8 {
        (self.data0 >> 7u8) & 0x01
    }

    pub open spec fn spec_verity_corrupted(self) -> u8 {
        self.data1 & 0x01
    }

    /// Slot priority: 15 is the highest, 0 means unbootable.
    pub fn priority(&self) -> (r: u8)
        ensures
            r == self.spec_priority(),
            r < 16,
    {
        let d = self.data0;
        let r = d & 0x0f;
        assert(r < 16) by (bit_vector)
            requires
                r == d & 0x0f,
        ;
        r
    }

    /// Boot attempts left for this slot.
    pub fn tries_remaining(&self) -> (r: u8)
        ensures
            r == self.spec_tries_remaining(),
            r < 8,
    {
        let d = self.data0;
        let r = (d >> 4u8) & 0x07;
        assert(r < 8) by (bit_vector)
            requires
                r == (d >> 4u8) & 0x07,
        ;
        r
    }

    /// 1 once this slot has fully booted, 0 otherwise.
    pub fn successful_boot(&self) -> (r: u8)
        ensures
            r == self.spec_successful_boot(),
            r < 2,
    {
        let d = self.data0;
        let r = (d >> 7u8) & 0x01;
        assert(r < 2) by (bit_vector)
            requires
                r == (d >> 7u8) & 0x01,
        ;
        r
    }

    /// 1 if dm-verity reported corruption on this slot, 0 otherwise.
    pub fn verity_corrupted(&self) -> (r: u8)
        ensures
            r == self.spec_verity_corrupted(),
            r < 2,
    {
        let d = self.data1;
        let r = d & 0x01;
        assert(r < 2) by (bit_vector)
            requires
                r == d & 0x01,
        ;
        r
    }

    /// Stores the low four bits of `value` as the priority.
    pub fn set_priority(&mut self, value: u8)
        ensures
            final(self).spec_priority() == value & 0x0f,
            final(self).spec_tries_remaining() == old(self).spec_tries_remaining(),
            final(self).spec_successful_boot() == old(self).spec_successful_boot(),
            final(self).data0 & 0x80 == old(self).data0 & 0x80,
            final(self).data1 == old(self).data1,
    {
        let d = self.data0;
        let n = (d & 0xf0) | (value & 0x0f);
        assert(n & 0x0f == value & 0x0f && (n >> 4u8) & 0x07 == (d >> 4u8) & 0x07
            && (n >> 7u8) & 0x01 == (d >> 7u8) & 0x01 && n & 0x80 == d & 0x80) by (bit_vector)
            requires
                n == (d & 0xf0) | (value & 0x0f),
        ;
        self.data0 = n;
    }

    /// Stores the low three bits of `value` as the remaining tries.
    pub fn set_tries_remaining(&mut self, value: u8)
        ensures
            final(self).spec_tries_remaining() == value & 0x07,
            final(self).spec_priority() == old(self).spec_priority(),
            final(self).spec_successful_boot() == old(self).spec_successful_boot(),
            final(self).data1 == old(self).data1,
    {
        let d = self.data0;
        let n = (d & 0x8f) | ((value & 0x07) << 4u8);
        assert((n >> 4u8) & 0x07 == value & 0x07 && n & 0x0f == d & 0x0f && (n >> 7u8) & 0x01 == (d
            >> 7u8) & 0x01) by (bit_vector)
            requires
                n == (d & 0x8f) | ((value & 0x07) << 4u8),
        ;
        self.data0 = n;
    }

    /// Stores the low bit of `value` as the successful-boot flag.
    pub fn set_successful_boot(&mut self, value: u8)
        ensures
            final(self).spec_successful_boot() == value & 0x01,
            final(self).spec_priority() == old(self).spec_priority(),
            final(self).spec_tries_remaining() == old(self).spec_tries_remaining(),
            final(self).data1 == old(self).data1,
    {
        let d = self.data0;
        let n = (d & 0x7f) | ((value & 0x01) << 7u8);
        assert((n >> 7u8) & 0x01 == value & 0x01 && n & 0x0f == d & 0x0f && (n >> 4u8) & 0x07 == (d
            >> 4u8) & 0x07) by (bit_vector)
            requires
                n == (d & 0x7f) | ((value & 0x01) << 7u8),
        ;
        self.data0 = n;
    }

    /// Stores the low bit of `value` as the verity-corruption flag.
    pub fn set_verity_corrupted(&mut self, value: u8)
        ensures
            final(self).spec_verity_corrupted() == value & 0x01,
            final(self).data1 & 0xfe == old(self).data1 & 0xfe,
            final(self).data0 == old(self).data0,
    {
        let d = self.data1;
        let n = (d & 0xfe) | (value & 0x01);
        assert(n & 0x01 == value & 0x01 && n & 0xfe == d & 0xfe) by (bit_vector)
            requires
                n == (d & 0xfe) | (value & 0x01),
        ;
        self.data1 = n;
    }
}

/// The A/B control record: 32 bytes, bit-exact, shared with the bootloader.
#[derive(Debug, Clone, Copy)]
pub struct BootloaderControl {
    /// NUL-terminated active slot suffix.
    pub slot_suffix: [u8; 4],
    /// Always `BOOT_CTRL_MAGIC` in a record written by the bootloader.
    pub magic: u32,
    pub version: u8,
    /// `nb_slot` in bits 0..=3, `recovery_tries_remaining` in bits 4..=6.
    pub bitfield1: u8,
    pub reserved0: [u8; 2],
    /// Per-slot information, up to four slots.
    pub slot_info: [SlotMetadata; 4],
    pub reserved1: [u8; 8],
    /// CRC-32 of the 28 bytes that precede it, little-endian.
    pub crc32_le: u32,
}

/// The bytes of the four slot records, in order.
pub open spec fn slot_info_bytes(s: Seq<SlotMetadata>) -> Seq<u8> {
    seq![
        s[0].data0,
        s[0].data1,
        s[1].data0,
        s[1].data1,
        s[2].data0,
        s[2].data1,
        s[3].data0,
        s[3].data1,
    ]
}

impl BootloaderControl {
    /// The 32 bytes of the record, in persisted order.
    pub open spec fn spec_bytes(self) -> Seq<u8> {
        self.slot_suffix@ + spec_u32_to_le_bytes(self.magic) + seq![self.version, self.bitfield1]
            + self.reserved0@ + slot_info_bytes(self.slot_info@) + self.reserved1@
            + spec_u32_to_le_bytes(self.crc32_le)
    }

    pub proof fn lemma_len(self)
        ensures
            self.spec_bytes().len() == 32,
    {
        lemma_auto_spec_u32_to_from_le_bytes();
    }

    /// The 28 bytes covered by the CRC.
    pub open spec fn payload(self) -> Seq<u8> {
        self.spec_bytes().take(28)
    }

    /// The stored CRC matches the payload.
    pub open spec fn crc_valid(self) -> bool {
        self.crc32_le == crc32_iso_hdlc(self.payload())
    }

    pub open spec fn spec_nb_slot(self) -> u8 {
        self.bitfield1 & 0x0f
    }

    pub open spec fn spec_recovery_tries_remaining(self) -> u8 {
        (self.bitfield1 >> 4u8) & 0x07
    }

    /// Number of slots being managed.
    pub fn nb_slot(&self) -> (r: u8)
        ensures
            r == self.spec_nb_slot(),
            r < 16,
    {
        let d = self.bitfield1;
        let r = d & 0x0f;
        assert(r < 16) by (bit_vector)
            requires
                r == d & 0x0f,
        ;
        r
    }

    /// Attempts left to boot into recovery.
    pub fn recovery_tries_remaining(&self) -> (r: u8)
        ensures
            r == self.spec_recovery_tries_remaining(),
            r < 8,
    {
        let d = self.bitfield1;
        let r = (d >> 4u8) & 0x07;
        assert(r < 8) by (bit_vector)
            requires
                r == (d >> 4u8) & 0x07,
        ;
        r
    }

    /// The active suffix: the bytes before the first NUL of `slot_suffix`.
    /// Fails with `DataTooLong` when the field holds no NUL.
    pub fn slot_suffix(&self) -> (r: Result<Vec<u8>, BootloaderMessageError>)
        ensures
            match r {
                Ok(v) => {
                    &&& v@.len() < 4
                    &&& v@ == self.slot_suffix@.take(v@.len() as int)
                    &&& self.slot_suffix@[v@.len() as int] == 0
                    &&& forall|j: int| 0 <= j < v@.len() ==> self.slot_suffix@[j] != 0
                },
                Err(e) => {
                    &&& e == BootloaderMessageError::DataTooLong
                    &&& forall|j: int| 0 <= j < 4 ==> self.slot_suffix@[j] != 0
                },
            },
    {
        let mut v: Vec<u8> = Vec::new();
        let mut i: usize = 0;
        while i < 4
            invariant
                i <= 4,
                v@ == self.slot_suffix@.take(i as int),
                forall|j: int| 0 <= j < i ==> self.slot_suffix@[j] != 0,
            decreases 4 - i,
        {
            let b = self.slot_suffix[i];
            if b == 0 {
                return Ok(v);
            }
            v.push(b);
            i = i + 1;
            assert(v@ =~= self.slot_suffix@.take(i as int));
        }
        Err(BootloaderMessageError::DataTooLong)
    }

    /// Writes `suffix` NUL-padded into `slot_suffix`. A suffix of more than
    /// three bytes leaves the record unchanged and fails with `DataTooLong`.
    pub fn set_slot_suffix(&mut self, suffix: &str) -> (r: Result<(), BootloaderMessageError>)
        ensures
            r is Ok <==> suffix.spec_bytes().len() <= 3,
            r is Ok ==> final(self).slot_suffix@ == suffix.spec_bytes() + Seq::new(
                (4 - suffix.spec_bytes().len()) as nat,
                |j: int| 0u8,
            ),
            r is Ok ==> *final(self) == (BootloaderControl {
                slot_suffix: final(self).slot_suffix,
                ..*old(self)
            }),
            r matches Err(e) ==> e == BootloaderMessageError::DataTooLong && *final(self) == *old(
                self,
            ),
    {
        let bytes = suffix.as_bytes();
        if bytes.len() > 3 {
            return Err(BootloaderMessageError::DataTooLong);
        }
        let mut s = [0u8; 4];
        let mut i: usize = 0;
        while i < bytes.len()
            invariant
                i <= bytes@.len() <= 3,
                s@.len() == 4,
                forall|j: int| 0 <= j < i ==> s@[j] == bytes@[j],
                forall|j: int| i <= j < 4 ==> s@[j] == 0,
            decreases bytes@.len() - i,
        {
            s[i] = bytes[i];
            i = i + 1;
        }
        assert(s@ =~= bytes@ + Seq::new((4 - bytes@.len()) as nat, |j: int| 0u8));
        self.slot_suffix = s;
        Ok(())
    }

    /// The same record with its CRC recomputed.
    pub open spec fn with_crc(self) -> Self {
        BootloaderControl { crc32_le: crc32_iso_hdlc(self.payload()), ..self }
    }

    /// Encodes the record as its 32 bytes with the CRC recomputed over the
    /// first 28.
    pub fn to_bytes_with_crc(&self) -> (r: Vec<u8>)
        ensures
            r@ == self.with_crc().spec_bytes(),
    {
        let mut c = *self;
        let bytes = self.to_bytes();
        proof {
            self.lemma_len();
        }
        let computed = crc32_checksum(slice_subrange(bytes.as_slice(), 0, 28));
        assert(bytes@.subrange(0, 28) =~= self.payload());
        c.crc32_le = computed;
        c.to_bytes()
    }

    /// Decodes the 32 bytes of a record. Every byte pattern is a record.
    pub fn from_bytes(b: &[u8]) -> (r: Self)
        requires
            b@.len() == 32,
        ensures
            r.spec_bytes() == b@,
    {
        let slot_suffix: [u8; 4] = read_array(b, 0);
        let magic = u32_from_le_bytes(slice_subrange(b, 4, 8));
        let version = b[8];
        let bitfield1 = b[9];
        let reserved0: [u8; 2] = read_array(b, 10);
        let slot_info = [
            SlotMetadata { data0: b[12], data1: b[13] },
            SlotMetadata { data0: b[14], data1: b[15] },
            SlotMetadata { data0: b[16], data1: b[17] },
            SlotMetadata { data0: b[18], data1: b[19] },
        ];
        let reserved1: [u8; 8] = read_array(b, 20);
        let crc32_le = u32_from_le_bytes(slice_subrange(b, 28, 32));
        let r = BootloaderControl {
            slot_suffix,
            magic,
            version,
            bitfield1,
            reserved0,
            slot_info,
            reserved1,
            crc32_le,
        };
        proof {
            lemma_auto_spec_u32_to_from_le_bytes();
            assert(slot_info_bytes(r.slot_info@) =~= b@.subrange(12, 20));
            assert(r.spec_bytes() =~= b@);
        }
        r
    }

    /// Appends the 32 bytes of the record to `out`.
    pub fn write_bytes(&self, out: &mut Vec<u8>)
        ensures
            final(out)@ == old(out)@ + self.spec_bytes(),
    {
        append_bytes(out, self.slot_suffix.as_slice());
        let m = u32_to_le_bytes(self.magic);
        append_bytes(out, m.as_slice());
        out.push(self.version);
        out.push(self.bitfield1);
        append_bytes(out, self.reserved0.as_slice());
        let mut k: usize = 0;
        while k < 4
            invariant
                k <= 4,
                out@ == old(out)@ + self.slot_suffix@ + spec_u32_to_le_bytes(self.magic) + seq![
                    self.version,
                    self.bitfield1,
                ] + self.reserved0@ + slot_info_bytes(self.slot_info@).take(2 * k),
            decreases 4 - k,
        {
            out.push(self.slot_info[k].data0);
            out.push(self.slot_info[k].data1);
            k = k + 1;
            assert(out@ =~= old(out)@ + self.slot_suffix@ + spec_u32_to_le_bytes(self.magic)
                + seq![self.version, self.bitfield1] + self.reserved0@ + slot_info_bytes(
                self.slot_info@,
            ).take(2 * k));
        }
        assert(slot_info_bytes(self.slot_info@).take(8) =~= slot_info_bytes(self.slot_info@));
        append_bytes(out, self.reserved1.as_slice());
        let c = u32_to_le_bytes(self.crc32_le);
        append_bytes(out, c.as_slice());
        assert(out@ =~= old(out)@ + self.spec_bytes());
    }

    /// Encodes the record as its 32 bytes.
    pub fn to_bytes(&self) -> (r: Vec<u8>)
        ensures
            r@ == self.spec_bytes(),
    {
        let mut v: Vec<u8> = Vec::new();
        self.write_bytes(&mut v);
        assert(v@ =~= self.spec_bytes());
        v
    }
}

} // verus!

verus! {

/// The legacy recovery message: the first 2 KiB of the MISC partition.
#[derive(Debug, Clone, Copy)]
pub struct BootloaderMessage {
    pub command: [u8; 32],
    pub status: [u8; 32],
    pub recovery: [u8; 768],
    pub stage: [u8; 32],
    pub reserved: [u8; 1184],
}

impl BootloaderMessage {
    /// The 2048 bytes of the message, in persisted order.
    pub open spec fn spec_bytes(self) -> Seq<u8> {
        self.command@ + self.status@ + self.recovery@ + self.stage@ + self.reserved@
    }

    /// Decodes the message from the 2048 bytes of `b` that start at `off`.
    pub fn from_bytes(b: &[u8], off: usize) -> (r: Self)
        requires
            off + 2048 <= b@.len(),
        ensures
            r.spec_bytes() == b@.subrange(off as int, off + 2048),
    {
        let n = b.len();
        let command: [u8; 32] = read_array(b, off);
        let status: [u8; 32] = read_array(b, off + 32);
        let recovery: [u8; 768] = read_array(b, off + 64);
        let stage: [u8; 32] = read_array(b, off + 832);
        let reserved: [u8; 1184] = read_array(b, off + 864);
        let r = BootloaderMessage { command, status, recovery, stage, reserved };
        assert(r.spec_bytes() =~= b@.subrange(off as int, off + 2048));
        r
    }

    /// Appends the 2048 bytes of the message to `out`.
    pub fn write_bytes(&self, out: &mut Vec<u8>)
        ensures
            final(out)@ == old(out)@ + self.spec_bytes(),
    {
        append_bytes(out, self.command.as_slice());
        append_bytes(out, self.status.as_slice());
        append_bytes(out, self.recovery.as_slice());
        append_bytes(out, self.stage.as_slice());
        append_bytes(out, self.reserved.as_slice());
        assert(out@ =~= old(out)@ + self.spec_bytes());
    }
}

/// The A/B bootloader message (4 KiB): the legacy message, the 32-byte
/// region that holds the control record, the update channel and padding.
#[derive(Debug, Clone, Copy)]
pub struct BootloaderMessageAB {
    pub message: BootloaderMessage,
    /// The record kept in bytes 2048..2080.
    pub control: BootloaderControl,
    pub update_channel: [u8; 128],
    pub reserved: [u8; 1888],
}

impl BootloaderMessageAB {
    /// The 4096 bytes of the message, in persisted order.
    pub open spec fn spec_bytes(self) -> Seq<u8> {
        self.message.spec_bytes() + self.control.spec_bytes() + self.update_channel@
            + self.reserved@
    }

    /// The same message with the control record's CRC recomputed.
    pub open spec fn with_checksum(self) -> Self {
        BootloaderMessageAB {
            control: BootloaderControl {
                crc32_le: crc32_iso_hdlc(self.control.payload()),
                ..self.control
            },
            ..self
        }
    }

    /// Decodes a message from the first 4096 bytes of `data`; the CRC is not
    /// checked here. Fails with `InsufficientBytes` on a shorter buffer.
    pub fn try_from(data: &[u8]) -> (r: Result<Self, BootloaderMessageError>)
        ensures
            r is Ok <==> data@.len() >= 4096,
            r matches Ok(m) ==> m.spec_bytes() == data@.take(4096),
            r matches Err(e) ==> e == BootloaderMessageError::InsufficientBytes,
    {
        if data.len() < 4096 {
            return Err(BootloaderMessageError::InsufficientBytes);
        }
        let message = BootloaderMessage::from_bytes(data, 0);
        let control = BootloaderControl::from_bytes(slice_subrange(data, 2048, 2080));
        let update_channel: [u8; 128] = read_array(data, 2080);
        let reserved: [u8; 1888] = read_array(data, 2208);
        let m = BootloaderMessageAB { message, control, update_channel, reserved };
        assert(m.spec_bytes() =~= data@.take(4096));
        Ok(m)
    }

    /// The control record, once its CRC is checked.
    pub fn get_bootloader_control(&self) -> (r: Result<&BootloaderControl, BootloaderMessageError>)
        ensures
            r is Ok <==> self.control.crc_valid(),
            r matches Ok(c) ==> *c == self.control,
            r matches Err(e) ==> e == BootloaderMessageError::CrcFailure,
    {
        if self.control_crc_matches() {
            Ok(&self.control)
        } else {
            Err(BootloaderMessageError::CrcFailure)
        }
    }

    /// The control record for modification, once its CRC is checked. The CRC
    /// is brought up to date by `as_slice`.
    pub fn get_bootloader_control_mut(&mut self) -> (r: Result<
        &mut BootloaderControl,
        BootloaderMessageError,
    >)
        ensures
            r is Ok <==> old(self).control.crc_valid(),
            match r {
                Ok(c) => {
                    &&& *c == old(self).control
                    &&& *final(self) == (BootloaderMessageAB { control: *final(c), ..*old(self) })
                },
                Err(e) => {
                    &&& e == BootloaderMessageError::CrcFailure
                    &&& *final(self) == *old(self)
                },
            },
    {
        if self.control_crc_matches() {
            Ok(&mut self.control)
        } else {
            Err(BootloaderMessageError::CrcFailure)
        }
    }

    fn control_crc_matches(&self) -> (r: bool)
        ensures
            r == self.control.crc_valid(),
    {
        let bytes = self.control.to_bytes();
        proof {
            self.control.lemma_len();
        }
        let computed = crc32_checksum(slice_subrange(bytes.as_slice(), 0, 28));
        assert(bytes@.subrange(0, 28) =~= self.control.payload());
        computed == self.control.crc32_le
    }

    /// Recomputes the CRC of the control record.
    fn set_checksum(&mut self)
        ensures
            *final(self) == old(self).with_checksum(),
    {
        let bytes = self.control.to_bytes();
        proof {
            self.control.lemma_len();
        }
        let computed = crc32_checksum(slice_subrange(bytes.as_slice(), 0, 28));
        assert(bytes@.subrange(0, 28) =~= self.control.payload());
        self.control.crc32_le = computed;
    }

    /// The 4096 bytes to write to the MISC partition, after the CRC of the
    /// control record has been recomputed.
    pub fn as_slice(&mut self) -> (r: Vec<u8>)
        ensures
            *final(self) == old(self).with_checksum(),
            r@ == final(self).spec_bytes(),
    {
        self.set_checksum();
        let mut v: Vec<u8> = Vec::new();
        self.message.write_bytes(&mut v);
        self.control.write_bytes(&mut v);
        append_bytes(&mut v, self.update_channel.as_slice());
        append_bytes(&mut v, self.reserved.as_slice());
        assert(v@ =~= self.spec_bytes());
        v
    }
}

} // verus!

verus! {

broadcast use vstd::array::group_array_axioms;

/// Decoding is the inverse of encoding: two control records with the same
/// 32 bytes have the same fields.
pub proof fn lemma_control_bytes_determine_record(a: BootloaderControl, b: BootloaderControl)
    requires
        a.spec_bytes() == b.spec_bytes(),
    ensures
        a == b,
{
    lemma_auto_spec_u32_to_from_le_bytes();
    let s = a.spec_bytes();
    let t = b.spec_bytes();
    assert(s.subrange(0, 4) =~= a.slot_suffix@);
    assert(t.subrange(0, 4) =~= b.slot_suffix@);
    assert(a.slot_suffix@ =~= b.slot_suffix@);
    assert(a.slot_suffix =~= b.slot_suffix);
    assert(s.subrange(4, 8) =~= spec_u32_to_le_bytes(a.magic));
    assert(t.subrange(4, 8) =~= spec_u32_to_le_bytes(b.magic));
    assert(s.subrange(10, 12) =~= a.reserved0@);
    assert(t.subrange(10, 12) =~= b.reserved0@);
    assert(a.reserved0@ =~= b.reserved0@);
    assert(a.reserved0 =~= b.reserved0);
    assert(s.subrange(12, 20) =~= slot_info_bytes(a.slot_info@));
    assert(t.subrange(12, 20) =~= slot_info_bytes(b.slot_info@));
    assert(a.slot_info@ =~= b.slot_info@) by {
        assert forall|i: int| 0 <= i < 4 implies a.slot_info@[i] == b.slot_info@[i] by {
            assert(slot_info_bytes(a.slot_info@)[2 * i] == slot_info_bytes(b.slot_info@)[2 * i]);
            assert(slot_info_bytes(a.slot_info@)[2 * i + 1] == slot_info_bytes(
                b.slot_info@,
            )[2 * i + 1]);
        }
    }
    assert(a.slot_info =~= b.slot_info);
    assert(s.subrange(20, 28) =~= a.reserved1@);
    assert(t.subrange(20, 28) =~= b.reserved1@);
    assert(a.reserved1@ =~= b.reserved1@);
    assert(a.reserved1 =~= b.reserved1);
    assert(s.subrange(28, 32) =~= spec_u32_to_le_bytes(a.crc32_le));
    assert(t.subrange(28, 32) =~= spec_u32_to_le_bytes(b.crc32_le));
    assert(s[8] == a.version && t[8] == b.version);
    assert(s[9] == a.bitfield1 && t[9] == b.bitfield1);
}

/// Two legacy messages with the same 2048 bytes have the same fields.
pub proof fn lemma_message_bytes_determine_record(a: BootloaderMessage, b: BootloaderMessage)
    requires
        a.spec_bytes() == b.spec_bytes(),
    ensures
        a == b,
{
    let s = a.spec_bytes();
    assert(s.subrange(0, 32) =~= a.command@ && s.subrange(0, 32) =~= b.command@);
    assert(s.subrange(32, 64) =~= a.status@ && s.subrange(32, 64) =~= b.status@);
    assert(s.subrange(64, 832) =~= a.recovery@ && s.subrange(64, 832) =~= b.recovery@);
    assert(s.subrange(832, 864) =~= a.stage@ && s.subrange(832, 864) =~= b.stage@);
    assert(s.subrange(864, 2048) =~= a.reserved@ && s.subrange(864, 2048) =~= b.reserved@);
    assert(a.command@ =~= b.command@);
    assert(a.command =~= b.command);
    assert(a.status@ =~= b.status@);
    assert(a.status =~= b.status);
    assert(a.recovery@ =~= b.recovery@);
    assert(a.recovery =~= b.recovery);
    assert(a.stage@ =~= b.stage@);
    assert(a.stage =~= b.stage);
    assert(a.reserved@ =~= b.reserved@);
    assert(a.reserved =~= b.reserved);
}

/// The CRC covers the first 28 bytes only: changing the stored CRC leaves the payload as it was.
pub proof fn lemma_payload_ignores_crc(c: BootloaderControl, crc: u32)
    ensures
        (BootloaderControl { crc32_le: crc, ..c }).payload() == c.payload(),
{
    lemma_auto_spec_u32_to_from_le_bytes();
    assert((BootloaderControl { crc32_le: crc, ..c }).payload() =~= c.payload());
}

/// Round trip of the control record. The bytes that `to_bytes_with_crc`
/// gives for `c` decode, by `from_bytes`, to exactly `c` with its CRC
/// recomputed; that record passes the CRC check, and its last 4 bytes hold
/// CRC-32/ISO-HDLC of the 28 bytes before them, little-endian.
pub proof fn lemma_control_round_trip(c: BootloaderControl, d: BootloaderControl)
    requires
        d.spec_bytes() == c.with_crc().spec_bytes(),
    ensures
        d == c.with_crc(),
        d.spec_bytes().len() == 32,
        d.crc_valid(),
        d.spec_bytes().subrange(28, 32) == spec_u32_to_le_bytes(
            crc32_iso_hdlc(d.spec_bytes().subrange(0, 28)),
        ),
        d.spec_bytes().subrange(4, 8) == spec_u32_to_le_bytes(c.magic),
        c.magic == BOOT_CTRL_MAGIC ==> d.spec_bytes().subrange(4, 8) == spec_u32_to_le_bytes(
            BOOT_CTRL_MAGIC,
        ),
{
    lemma_control_bytes_determine_record(d, c.with_crc());
    lemma_payload_ignores_crc(c, crc32_iso_hdlc(c.payload()));
    d.lemma_len();
    lemma_auto_spec_u32_to_from_le_bytes();
    assert(d.spec_bytes().subrange(28, 32) =~= spec_u32_to_le_bytes(d.crc32_le));
    assert(d.spec_bytes().subrange(0, 28) =~= d.payload());
    assert(d.spec_bytes().subrange(4, 8) =~= spec_u32_to_le_bytes(d.magic));
}

/// Round trip of the A/B message. The bytes that `as_slice` hands out for
/// `m` decode, by `try_from`, to exactly the message `as_slice` left behind;
/// its control record then passes the CRC check, and the 4 bytes after the
/// control payload hold CRC-32/ISO-HDLC of the 28 bytes before them.
pub proof fn lemma_message_round_trip(m: BootloaderMessageAB, d: BootloaderMessageAB)
    requires
        d.spec_bytes() == m.with_checksum().spec_bytes(),
    ensures
        d == m.with_checksum(),
        d.spec_bytes().len() == 4096,
        d.control.crc_valid(),
        spec_u32_from_le_bytes(d.spec_bytes().subrange(2076, 2080)) == crc32_iso_hdlc(
            d.spec_bytes().subrange(2048, 2076),
        ),
{
    let w = m.with_checksum();
    lemma_auto_spec_u32_to_from_le_bytes();
    d.control.lemma_len();
    w.control.lemma_len();
    let s = d.spec_bytes();
    let t = w.spec_bytes();
    assert(s.subrange(0, 2048) =~= d.message.spec_bytes());
    assert(t.subrange(0, 2048) =~= w.message.spec_bytes());
    lemma_message_bytes_determine_record(d.message, w.message);
    assert(s.subrange(2048, 2080) =~= d.control.spec_bytes());
    assert(t.subrange(2048, 2080) =~= w.control.spec_bytes());
    lemma_control_bytes_determine_record(d.control, w.control);
    assert(s.subrange(2080, 2208) =~= d.update_channel@);
    assert(t.subrange(2080, 2208) =~= w.update_channel@);
    assert(d.update_channel@ =~= w.update_channel@);
    assert(d.update_channel =~= w.update_channel);
    assert(s.subrange(2208, 4096) =~= d.reserved@);
    assert(t.subrange(2208, 4096) =~= w.reserved@);
    assert(d.reserved@ =~= w.reserved@);
    assert(d.reserved =~= w.reserved);
    lemma_payload_ignores_crc(m.control, crc32_iso_hdlc(m.control.payload()));
    assert(s.subrange(2076, 2080) =~= spec_u32_to_le_bytes(d.control.crc32_le));
    assert(s.subrange(2048, 2076) =~= d.control.payload());
}

} // verus!
