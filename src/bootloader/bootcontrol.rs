//! The boot control service: slot queries and updates over the A/B message.
use vstd::prelude::*;

use super::error::BootloaderMessageError;
use super::message::{
    crc32_iso_hdlc, lemma_payload_ignores_crc, BootloaderControl, BootloaderMessageAB,
};
use crate::error::ErrorKind;
use crate::text::{chars_eq, chars_of, split_words, views, words};
use vstd::slice::{slice_subrange, slice_to_vec};

verus! {

/// A control record the service can act on: its CRC matches and it
/// manages at most two slots.
pub open spec fn usable(c: BootloaderControl) -> bool {
    c.crc_valid() && c.spec_nb_slot() <= 2
}

/// `k` is the position of the first `=` of `t`.
pub open spec fn is_first_eq(t: Seq<char>, k: int) -> bool {
    0 <= k < t.len() && t[k] == '=' && forall|j: int| 0 <= j < k ==> t[j] != '='
}

/// A key that names the slot suffix: `slot_suffix` alone or after a `.`-terminated prefix.
pub open spec fn is_slot_key(key: Seq<char>) -> bool {
    key == "slot_suffix"@ || (key.len() >= 12 && key.skip(key.len() - 12) == ".slot_suffix"@)
}

/// The value of `t` when `t` is a `key=value` token whose key names the slot suffix.
pub open spec fn slot_value(t: Seq<char>) -> Option<Seq<char>> {
    if exists|k: int| is_first_eq(t, k) {
        let k = choose|k: int| is_first_eq(t, k);
        if is_slot_key(t.take(k)) {
            Some(t.skip(k + 1))
        } else {
            None
        }
    } else {
        None
    }
}

/// The slot value given by the first token of `ts` that names the slot suffix.
pub open spec fn first_slot_value(ts: Seq<Seq<char>>) -> Option<Seq<char>>
    decreases ts.len(),
{
    if ts.len() == 0 {
        None
    } else if slot_value(ts[0]) is Some {
        slot_value(ts[0])
    } else {
        first_slot_value(ts.drop_first())
    }
}

/// The slot the kernel was booted from, according to the command line:
/// suffix `a` is slot 0, `b` slot 1.
pub open spec fn spec_current_slot(cmdline: Seq<char>) -> Result<usize, ErrorKind> {
    match first_slot_value(words(cmdline)) {
        None => Err(ErrorKind::NotFound),
        Some(v) => if v == seq!['a'] {
            Ok(0)
        } else if v == seq!['b'] {
            Ok(1)
        } else {
            Err(ErrorKind::InvalidData)
        },
    }
}

/// The position of the first `=` of `t`.
fn find_eq(t: &[char]) -> (r: Option<usize>)
    ensures
        match r {
            Some(k) => is_first_eq(t@, k as int),
            None => forall|j: int| 0 <= j < t@.len() ==> t@[j] != '=',
        },
{
    let mut i: usize = 0;
    while i < t.len()
        invariant
            i <= t@.len(),
            forall|j: int| 0 <= j < i ==> t@[j] != '=',
        decreases t@.len() - i,
    {
        if t[i] == '=' {
            return Some(i);
        }
        i = i + 1;
    }
    None
}

/// The value of the token `t` when it names the slot suffix.
fn token_slot_value(t: &[char]) -> (r: Option<Vec<char>>)
    ensures
        match r {
            Some(v) => slot_value(t@) == Some(v@),
            None => slot_value(t@) is None,
        },
{
    match find_eq(t) {
        None => None,
        Some(k) => {
            assert(forall|k2: int| is_first_eq(t@, k2) ==> k2 == k);
            let key = slice_subrange(t, 0, k);
            assert(key@ == t@.take(k as int));
            let exact = chars_eq(key, chars_of("slot_suffix").as_slice());
            let dotted = if k >= 12 {
                let tail = slice_subrange(t, k - 12, k);
                assert(tail@ =~= key@.skip(key@.len() - 12));
                chars_eq(tail, chars_of(".slot_suffix").as_slice())
            } else {
                false
            };
            if exact || dotted {
                assert(k < t@.len() && t@.len() == t.len());
                let value = slice_subrange(t, k + 1, t.len());
                assert(value@ =~= t@.skip(k + 1));
                Some(slice_to_vec(value))
            } else {
                None
            }
        },
    }
}

/// The service over one A/B bootloader message.
pub struct BootControlImpl(pub BootloaderMessageAB);

impl BootControlImpl {
    /// The service over the bytes read from the start of the MISC partition.
    pub fn create(misc: &[u8]) -> (r: Result<Self, BootloaderMessageError>)
        ensures
            r is Ok <==> misc@.len() >= 4096,
            r matches Ok(b) ==> b.0.spec_bytes() == misc@.take(4096),
            r matches Err(e) ==> e == BootloaderMessageError::InsufficientBytes,
    {
        match BootloaderMessageAB::try_from(misc) {
            Ok(m) => Ok(BootControlImpl(m)),
            Err(e) => Err(e),
        }
    }

    /// The control record, when usable.
    fn control(&self) -> (r: Result<&BootloaderControl, ErrorKind>)
        ensures
            r is Ok <==> usable(self.0.control),
            r matches Ok(c) ==> *c == self.0.control,
            r matches Err(e) ==> e == ErrorKind::InvalidData,
    {
        match self.0.get_bootloader_control() {
            Ok(c) => if c.nb_slot() <= 2 {
                Ok(c)
            } else {
                Err(ErrorKind::InvalidData)
            },
            Err(_) => Err(ErrorKind::InvalidData),
        }
    }

    /// Number of slots that the record manages.
    pub fn number_of_slots(&self) -> (r: Result<usize, ErrorKind>)
        ensures
            r is Ok <==> usable(self.0.control),
            r matches Ok(n) ==> n == self.0.control.spec_nb_slot(),
            r matches Err(e) ==> e == ErrorKind::InvalidData,
    {
        let c = self.control()?;
        Ok(c.nb_slot() as usize)
    }

    /// The slot the kernel booted, from the kernel command line `cmdline`:
    /// the first `<prefix>.slot_suffix=<value>` token decides. Fails with
    /// `NotFound` when there is no such token and with `InvalidData` when the
    /// value is neither `a` nor `b`.
    pub fn current_slot(&self, cmdline: &str) -> (r: Result<usize, ErrorKind>)
        ensures
            r == spec_current_slot(cmdline@),
    {
        slot_from_cmdline(cmdline)
    }

    /// The suffix of the partitions of slot `slot`.
    pub fn partition_suffix(&self, slot: usize) -> (r: Result<&'static str, ErrorKind>)
        ensures
            r is Ok <==> slot < 2,
            r matches Ok(s) ==> s@ == (if slot == 0 {
                "a"@
            } else {
                "b"@
            }),
            r matches Err(e) ==> e == ErrorKind::InvalidInput,
    {
        if slot == 0 {
            Ok("a")
        } else if slot == 1 {
            Ok("b")
        } else {
            Err(ErrorKind::InvalidInput)
        }
    }

    /// Whether slot `slot_index` has boot attempts left.
    pub fn is_bootable(&self, slot_index: usize) -> (r: Result<bool, ErrorKind>)
        ensures
            !usable(self.0.control) ==> r == Err::<bool, ErrorKind>(ErrorKind::InvalidData),
            usable(self.0.control) && slot_index >= 4 ==> r == Err::<bool, ErrorKind>(
                ErrorKind::InvalidInput,
            ),
            usable(self.0.control) && slot_index < 4 ==> r == Ok::<bool, ErrorKind>(
                self.0.control.slot_info@[slot_index as int].spec_tries_remaining() > 0,
            ),
    {
        let c = self.control()?;
        if slot_index < 4 {
            Ok(c.slot_info[slot_index].tries_remaining() > 0)
        } else {
            Err(ErrorKind::InvalidInput)
        }
    }

    /// Whether slot `slot_index` has been marked as successfully booted.
    pub fn is_slot_successful(&self, slot_index: usize) -> (r: Result<bool, ErrorKind>)
        ensures
            !usable(self.0.control) ==> r == Err::<bool, ErrorKind>(ErrorKind::InvalidData),
            usable(self.0.control) && slot_index >= 4 ==> r == Err::<bool, ErrorKind>(
                ErrorKind::InvalidInput,
            ),
            usable(self.0.control) && slot_index < 4 ==> r == Ok::<bool, ErrorKind>(
                self.0.control.slot_info@[slot_index as int].spec_successful_boot() == 1,
            ),
    {
        let c = self.control()?;
        if slot_index < 4 {
            Ok(c.slot_info[slot_index].successful_boot() == 1)
        } else {
            Err(ErrorKind::InvalidInput)
        }
    }

    /// Brings the CRC up to date and returns the bytes to persist.
    fn persistable(&mut self) -> (r: Vec<u8>)
        ensures
            final(self).0 == old(self).0.with_checksum(),
            r@ == final(self).0.spec_bytes(),
            final(self).0.control.crc_valid(),
    {
        proof {
            lemma_payload_ignores_crc(self.0.control, crc32_iso_hdlc(self.0.control.payload()));
        }
        self.0.as_slice()
    }

    /// Marks the slot the kernel booted (see `current_slot`) as successfully
    /// booted. Returns the bytes to write back to the MISC partition.
    pub fn set_boot_successful(&mut self, cmdline: &str) -> (r: Result<Vec<u8>, ErrorKind>)
        ensures
            spec_current_slot(cmdline@) matches Err(e) ==> r == Err::<Vec<u8>, ErrorKind>(e)
                && final(self).0 == old(self).0,
            spec_current_slot(cmdline@) is Ok && !usable(old(self).0.control) ==> r == Err::<
                Vec<u8>,
                ErrorKind,
            >(ErrorKind::InvalidData) && final(self).0 == old(self).0,
            spec_current_slot(cmdline@) is Ok && usable(old(self).0.control) ==> {
                let s = spec_current_slot(cmdline@)->Ok_0;
                let o = old(self).0.control.slot_info@[s as int];
                &&& r matches Ok(b) && b@ == final(self).0.spec_bytes()
                &&& usable(final(self).0.control)
                &&& final(self).0 == (BootloaderMessageAB {
                    control: BootloaderControl {
                        slot_info: final(self).0.control.slot_info,
                        ..old(self).0.control
                    },
                    ..old(self).0
                }).with_checksum()
                &&& final(self).0.control.slot_info@ == old(self).0.control.slot_info@.update(
                    s as int,
                    final(self).0.control.slot_info@[s as int],
                )
                &&& final(self).0.control.slot_info@[s as int].spec_successful_boot() == 1
                &&& final(self).0.control.slot_info@[s as int].spec_priority() == o.spec_priority()
                &&& final(self).0.control.slot_info@[s as int].spec_tries_remaining()
                    == o.spec_tries_remaining()
                &&& final(self).0.control.slot_info@[s as int].data1 == o.data1
            },
    {
        let slot = slot_from_cmdline(cmdline)?;
        if self.control().is_err() {
            return Err(ErrorKind::InvalidData);
        }
        let mut c = self.0.control;
        let ghost before = c;
        let mut m = c.slot_info[slot];
        m.set_successful_boot(1);
        assert(1u8 & 0x01u8 == 1u8) by (bit_vector);
        c.slot_info[slot] = m;
        assert(c.slot_info@ =~= before.slot_info@.update(slot as int, m));
        self.0.control = c;
        Ok(self.persistable())
    }

    /// Selects slot `slot_index` for the next boot by writing its suffix.
    /// Fails with `InvalidInput` unless `slot_index` is below the number of
    /// slots. Returns the bytes to write back to the MISC partition.
    pub fn set_active_slot(&mut self, slot_index: usize) -> (r: Result<Vec<u8>, ErrorKind>)
        ensures
            !usable(old(self).0.control) ==> r == Err::<Vec<u8>, ErrorKind>(ErrorKind::InvalidData)
                && final(self).0 == old(self).0,
            usable(old(self).0.control) && slot_index >= old(self).0.control.spec_nb_slot() ==> r
                == Err::<Vec<u8>, ErrorKind>(ErrorKind::InvalidInput) && final(self).0 == old(self).0,
            usable(old(self).0.control) && slot_index < old(self).0.control.spec_nb_slot() ==> {
                &&& r matches Ok(b) && b@ == final(self).0.spec_bytes()
                &&& usable(final(self).0.control)
                &&& final(self).0 == (BootloaderMessageAB {
                    control: BootloaderControl {
                        slot_suffix: final(self).0.control.slot_suffix,
                        ..old(self).0.control
                    },
                    ..old(self).0
                }).with_checksum()
                &&& final(self).0.control.slot_suffix@ == seq![
                    if slot_index == 0 {
                        0x61u8
                    } else {
                        0x62u8
                    },
                    0u8,
                    0u8,
                    0u8,
                ]
            },
    {
        let nb = match self.control() {
            Ok(c) => c.nb_slot(),
            Err(e) => return Err(e),
        };
        if slot_index < nb as usize {
            let suffix: u8 = if slot_index == 0 {
                0x61
            } else {
                0x62
            };
            let mut c = self.0.control;
            c.slot_suffix = [suffix, 0, 0, 0];
            self.0.control = c;
            assert(self.0.control.slot_suffix@ =~= seq![suffix, 0u8, 0u8, 0u8]);
            Ok(self.persistable())
        } else {
            Err(ErrorKind::InvalidInput)
        }
    }

    /// Takes all remaining boot attempts from slot `slot_index`. Fails with
    /// `InvalidInput` unless `slot_index` is below the number of slots.
    /// Returns the bytes to write back to the MISC partition.
    pub fn set_slot_as_unbootable(&mut self, slot_index: usize) -> (r: Result<Vec<u8>, ErrorKind>)
        ensures
            !usable(old(self).0.control) ==> r == Err::<Vec<u8>, ErrorKind>(ErrorKind::InvalidData)
                && final(self).0 == old(self).0,
            usable(old(self).0.control) && slot_index >= old(self).0.control.spec_nb_slot() ==> r
                == Err::<Vec<u8>, ErrorKind>(ErrorKind::InvalidInput) && final(self).0 == old(self).0,
            usable(old(self).0.control) && slot_index < old(self).0.control.spec_nb_slot() ==> {
                let o = old(self).0.control.slot_info@[slot_index as int];
                &&& r matches Ok(b) && b@ == final(self).0.spec_bytes()
                &&& usable(final(self).0.control)
                &&& final(self).0 == (BootloaderMessageAB {
                    control: BootloaderControl {
                        slot_info: final(self).0.control.slot_info,
                        ..old(self).0.control
                    },
                    ..old(self).0
                }).with_checksum()
                &&& final(self).0.control.slot_info@ == old(self).0.control.slot_info@.update(
                    slot_index as int,
                    final(self).0.control.slot_info@[slot_index as int],
                )
                &&& final(self).0.control.slot_info@[slot_index as int].spec_tries_remaining() == 0
                &&& final(self).0.control.slot_info@[slot_index as int].spec_priority()
                    == o.spec_priority()
                &&& final(self).0.control.slot_info@[slot_index as int].spec_successful_boot()
                    == o.spec_successful_boot()
                &&& final(self).0.control.slot_info@[slot_index as int].data1 == o.data1
            },
    {
        let nb = match self.control() {
            Ok(c) => c.nb_slot(),
            Err(e) => return Err(e),
        };
        if slot_index < nb as usize {
            let mut c = self.0.control;
            let ghost before = c;
            let mut m = c.slot_info[slot_index];
            m.set_tries_remaining(0);
            assert(0u8 & 0x07u8 == 0u8) by (bit_vector);
            c.slot_info[slot_index] = m;
            assert(c.slot_info@ =~= before.slot_info@.update(slot_index as int, m));
            self.0.control = c;
            Ok(self.persistable())
        } else {
            Err(ErrorKind::InvalidInput)
        }
    }

    /// The slot selected for the next boot: suffix `a` is slot 0, `b` slot 1,
    /// each followed by NUL padding; any other suffix is `InvalidData`.
    pub fn active_slot(&self) -> (r: Result<usize, ErrorKind>)
        ensures
            !usable(self.0.control) ==> r == Err::<usize, ErrorKind>(ErrorKind::InvalidData),
            usable(self.0.control) ==> r == (if self.0.control.slot_suffix@ == seq![
                0x61u8,
                0u8,
                0u8,
                0u8,
            ] {
                Ok::<usize, ErrorKind>(0)
            } else if self.0.control.slot_suffix@ == seq![0x62u8, 0u8, 0u8, 0u8] {
                Ok(1)
            } else {
                Err(ErrorKind::InvalidData)
            }),
    {
        let c = self.control()?;
        let s = c.slot_suffix;
        let padded = s[1] == 0 && s[2] == 0 && s[3] == 0;
        if padded && s[0] == 0x61 {
            assert(s@ =~= seq![0x61u8, 0u8, 0u8, 0u8]);
            Ok(0)
        } else if padded && s[0] == 0x62 {
            assert(s@ =~= seq![0x62u8, 0u8, 0u8, 0u8]);
            Ok(1)
        } else {
            assert(s@ != seq![0x61u8, 0u8, 0u8, 0u8] && s@ != seq![0x62u8, 0u8, 0u8, 0u8]) by {
                if s@ == seq![0x61u8, 0u8, 0u8, 0u8] || s@ == seq![0x62u8, 0u8, 0u8, 0u8] {
                    assert(s@[0] == s[0] && s@[1] == s[1] && s@[2] == s[2] && s@[3] == s[3]);
                }
            }
            Err(ErrorKind::InvalidData)
        }
    }
}

/// The slot named by the kernel command line `cmdline`.
pub fn slot_from_cmdline(cmdline: &str) -> (r: Result<usize, ErrorKind>)
    ensures
        r == spec_current_slot(cmdline@),
{
    let text = chars_of(cmdline);
    let tokens = split_words(text.as_slice());
    let ghost ts = words(cmdline@);
    let mut i: usize = 0;
    assert(ts.skip(0) =~= ts);
    while i < tokens.len()
        invariant
            i <= tokens@.len(),
            views(tokens@) == ts,
            ts == words(cmdline@),
            first_slot_value(ts) == first_slot_value(ts.skip(i as int)),
        decreases tokens@.len() - i,
    {
        assert(ts.skip(i as int)[0] == tokens@[i as int]@);
        assert(ts.skip(i as int).drop_first() =~= ts.skip(i + 1));
        let found = token_slot_value(tokens[i].as_slice());
        assert(first_slot_value(ts.skip(i as int)) == (if slot_value(ts.skip(i as int)[0]) is Some {
            slot_value(ts.skip(i as int)[0])
        } else {
            first_slot_value(ts.skip(i + 1))
        }));
        match found {
            Some(v) => {
                if v.len() == 1 && v[0] == 'a' {
                    assert(v@ =~= seq!['a']);
                    return Ok(0);
                } else if v.len() == 1 && v[0] == 'b' {
                    assert(v@ =~= seq!['b']);
                    return Ok(1);
                } else {
                    assert(v@ != seq!['a'] && v@ != seq!['b']) by {
                        if v@.len() == 1 {
                            assert(v@[0] == seq!['a'][0] ==> v@ =~= seq!['a']);
                        }
                    }
                    return Err(ErrorKind::InvalidData);
                }
            },
            None => {},
        }
        i = i + 1;
    }
    assert(ts.skip(i as int) =~= seq![]);
    Err(ErrorKind::NotFound)
}

} // verus!
