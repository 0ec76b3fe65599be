//! Parsing of the fstab: one entry per line of five whitespace-separated
//! fields, with slot-suffix substitution and mount flags.
use vstd::prelude::*;

use crate::error::ErrorKind;
use crate::text::{
    chars_eq, chars_of, push_char, push_chars, split_by, split_chars, split_words, string_of,
    views, words,
};

verus! {

/// Kernel mount flags (the values of `<sys/mount.h>`).
pub const MS_RDONLY: u64 = 0x01;

pub const MS_NOSUID: u64 = 0x02;

pub const MS_NODEV: u64 = 0x04;

pub const MS_NOEXEC: u64 = 0x08;

/// Writes to the filesystem are synchronous.
pub const MS_SYNCHRONOUS: u64 = 0x10;

pub const MS_MANDLOCK: u64 = 0x40;

pub const MS_DIRSYNC: u64 = 0x80;

pub const MS_NOATIME: u64 = 0x0400;

pub const MS_NODIRATIME: u64 = 0x0800;

pub const MS_BIND: u64 = 0x1000;

pub const MS_MOVE: u64 = 0x2000;

pub const MS_SILENT: u64 = 0x8000;

pub const MS_STRICTATIME: u64 = 0x0100_0000;

pub const MS_LAZYTIME: u64 = 0x0200_0000;

/// Flags for the special handling of an fstab entry.
#[derive(Debug, Clone)]
pub enum FsManagerFlags {
    /// Mount this partition during early boot.
    FirstStageMount,
    /// The device path gets the active slot's suffix.
    SlotSelect,
    /// A logical partition (device-mapper).
    Logical,
    /// Protected with metadata of the verity partition.
    Verity,
    /// Any other flag, kept as written.
    Other(String),
}

/// `f` is the flag that the token `t` names.
pub open spec fn flag_of_token(f: FsManagerFlags, t: Seq<char>) -> bool {
    if t == "slotselect"@ {
        f is SlotSelect
    } else if t == "first_stage_mount"@ {
        f is FirstStageMount
    } else if t == "verity"@ {
        f is Verity
    } else if t == "logical"@ {
        f is Logical
    } else {
        f matches FsManagerFlags::Other(s) && s@ == t
    }
}

/// The flag bits that one mount option token stands for.
pub open spec fn spec_mount_option(t: Seq<char>) -> u64 {
    if t == "ro"@ {
        MS_RDONLY
    } else if t == "dirsync"@ {
        MS_DIRSYNC
    } else if t == "lazytime"@ {
        MS_LAZYTIME
    } else if t == "mandlock"@ {
        MS_MANDLOCK
    } else if t == "noatime"@ {
        MS_NOATIME
    } else if t == "nodev"@ {
        MS_NODEV
    } else if t == "nodiratime"@ {
        MS_NODIRATIME
    } else if t == "noexec"@ {
        MS_NOEXEC
    } else if t == "nosuid"@ {
        MS_NOSUID
    } else if t == "silent"@ {
        MS_SILENT
    } else if t == "strictatime"@ {
        MS_STRICTATIME
    } else if t == "sync"@ {
        MS_SYNCHRONOUS
    } else {
        0
    }
}

/// The union of the flag bits of all option tokens.
pub open spec fn spec_mount_options(ts: Seq<Seq<char>>) -> u64
    decreases ts.len(),
{
    if ts.len() == 0 {
        0
    } else {
        spec_mount_options(ts.drop_last()) | spec_mount_option(ts.last())
    }
}

/// A line that describes an entry: not a comment, exactly five fields.
pub open spec fn is_entry_line(line: Seq<char>) -> bool {
    !(line.len() > 0 && line[0] == '#') && words(line).len() == 5
}

/// The entry lines among `lines`, in order.
pub open spec fn entry_lines(lines: Seq<Seq<char>>) -> Seq<Seq<char>>
    decreases lines.len(),
{
    if lines.len() == 0 {
        seq![]
    } else {
        let p = entry_lines(lines.drop_last());
        if is_entry_line(lines.last()) {
            p.push(lines.last())
        } else {
            p
        }
    }
}

/// Some token of `ts` is `slotselect`.
pub open spec fn selects_slot(ts: Seq<Seq<char>>) -> bool {
    exists|i: int| 0 <= i < ts.len() && ts[i] == "slotselect"@
}

/// The device path of an entry line: the first field, followed by `_` and
/// the suffix when the flags select a slot.
pub open spec fn spec_fs_spec(line: Seq<char>, suffix: Seq<char>) -> Seq<char> {
    let w = words(line);
    if selects_slot(split_by(w[4], ',')) {
        w[0] + seq!['_'] + suffix
    } else {
        w[0]
    }
}

/// `e` is the entry that the entry line `line` describes.
pub open spec fn describes(e: FsEntry, line: Seq<char>, suffix: Seq<char>) -> bool {
    let w = words(line);
    let flags = split_by(w[4], ',');
    &&& e.fs_spec@ == spec_fs_spec(line, suffix)
    &&& e.mountpoint@ == w[1]
    &&& e.vfs_type@ == w[2]
    &&& e.mount_options == spec_mount_options(split_by(w[3], ','))
    &&& e.fs_manager_flags@.len() == flags.len()
    &&& forall|i: int|
        0 <= i < flags.len() ==> flag_of_token(#[trigger] e.fs_manager_flags@[i], flags[i])
}

impl FsManagerFlags {
    /// The flag named by the token `t`.
    pub fn from_chars(t: &[char]) -> (r: Self)
        ensures
            flag_of_token(r, t@),
    {
        if chars_eq(t, chars_of("slotselect").as_slice()) {
            FsManagerFlags::SlotSelect
        } else if chars_eq(t, chars_of("first_stage_mount").as_slice()) {
            FsManagerFlags::FirstStageMount
        } else if chars_eq(t, chars_of("verity").as_slice()) {
            FsManagerFlags::Verity
        } else if chars_eq(t, chars_of("logical").as_slice()) {
            FsManagerFlags::Logical
        } else {
            FsManagerFlags::Other(string_of(t))
        }
    }

    /// The flag named by the token `s`; every token names one.
    pub fn from_str(s: &str) -> (r: Result<Self, ErrorKind>)
        ensures
            r matches Ok(f) && flag_of_token(f, s@),
    {
        let t = chars_of(s);
        Ok(Self::from_chars(t.as_slice()))
    }
}

/// One entry of the fstab.
#[derive(Debug, Clone)]
pub struct FsEntry {
    /// The device path.
    pub fs_spec: String,
    /// The mount point.
    pub mountpoint: String,
    /// The filesystem type.
    pub vfs_type: String,
    /// Mount options, as kernel mount flags.
    pub mount_options: u64,
    /// Flags for special handling of this entry.
    pub fs_manager_flags: Vec<FsManagerFlags>,
}

impl FsEntry {
    /// Parses the fstab text `contents`. Comment lines (starting with `#`)
    /// and lines without exactly five whitespace-separated fields are
    /// skipped. A slot-selected device path gets `_` and `slot_suffix`
    /// appended.
    pub fn parse_entries(contents: &str, slot_suffix: &str) -> (r: Result<Vec<FsEntry>, ErrorKind>)
        ensures
            r matches Ok(v) && v@.len() == entry_lines(split_by(contents@, '\n')).len() && forall|
                k: int,
            |
                0 <= k < v@.len() ==> describes(
                    #[trigger] v@[k],
                    entry_lines(split_by(contents@, '\n'))[k],
                    slot_suffix@,
                ),
    {
        let text = chars_of(contents);
        let suffix = chars_of(slot_suffix);
        let lines = split_chars(text.as_slice(), '\n');
        let ghost all = split_by(contents@, '\n');
        let mut entries: Vec<FsEntry> = Vec::new();
        let mut i: usize = 0;
        while i < lines.len()
            invariant
                i <= lines@.len(),
                views(lines@) == all,
                suffix@ == slot_suffix@,
                entries@.len() == entry_lines(all.take(i as int)).len(),
                forall|k: int|
                    0 <= k < entries@.len() ==> describes(
                        #[trigger] entries@[k],
                        entry_lines(all.take(i as int))[k],
                        slot_suffix@,
                    ),
            decreases lines@.len() - i,
        {
            let line = &lines[i];
            assert(all.take(i + 1).drop_last() =~= all.take(i as int));
            assert(all[i as int] == line@);
            let comment = line.len() > 0 && line[0] == '#';
            if !comment {
                let w = split_words(line.as_slice());
                if w.len() == 5 {
                    let e = Self::parse_line(&w, suffix.as_slice());
                    assert(words(line@) == views(w@));
                    entries.push(e);
                }
            }
            i = i + 1;
        }
        assert(all.take(lines@.len() as int) =~= all);
        Ok(entries)
    }

    /// The entry described by the five fields `w`.
    fn parse_line(w: &Vec<Vec<char>>, suffix: &[char]) -> (e: FsEntry)
        requires
            w@.len() == 5,
        ensures
            ({
                let v = views(w@);
                let flags = split_by(v[4], ',');
                &&& e.fs_spec@ == (if selects_slot(flags) {
                    v[0] + seq!['_'] + suffix@
                } else {
                    v[0]
                })
                &&& e.mountpoint@ == v[1]
                &&& e.vfs_type@ == v[2]
                &&& e.mount_options == spec_mount_options(split_by(v[3], ','))
                &&& e.fs_manager_flags@.len() == flags.len()
                &&& forall|i: int|
                    0 <= i < flags.len() ==> flag_of_token(
                        #[trigger] e.fs_manager_flags@[i],
                        flags[i],
                    )
            }),
    {
        let ghost v = views(w@);
        let toks = split_chars(w[4].as_slice(), ',');
        let ghost ft = split_by(v[4], ',');
        assert(w[4]@ == v[4]);
        let mut flags: Vec<FsManagerFlags> = Vec::new();
        let mut slot = false;
        let mut i: usize = 0;
        while i < toks.len()
            invariant
                i <= toks@.len(),
                views(toks@) == ft,
                flags@.len() == i,
                forall|j: int| 0 <= j < i ==> flag_of_token(#[trigger] flags@[j], ft[j]),
                slot == exists|j: int| 0 <= j < i && ft[j] == "slotselect"@,
            decreases toks@.len() - i,
        {
            assert(ft[i as int] == toks[i as int]@);
            let f = FsManagerFlags::from_chars(toks[i].as_slice());
            let is_slot = match f {
                FsManagerFlags::SlotSelect => true,
                _ => false,
            };
            proof {
                if is_slot {
                    assert(ft[i as int] == "slotselect"@);
                }
                if ft[i as int] == "slotselect"@ {
                    assert(is_slot);
                }
            }
            slot = slot || is_slot;
            flags.push(f);
            i = i + 1;
        }
        let mut fs_spec = string_of(w[0].as_slice());
        if slot {
            push_char(&mut fs_spec, '_');
            push_chars(&mut fs_spec, suffix);
        }
        let opts = split_chars(w[3].as_slice(), ',');
        assert(w[3]@ == v[3]);
        let mount_options = Self::mount_options_of(&opts);
        assert(w[0]@ == v[0]);
        assert(w[1]@ == v[1]);
        assert(w[2]@ == v[2]);
        FsEntry {
            fs_spec,
            mountpoint: string_of(w[1].as_slice()),
            vfs_type: string_of(w[2].as_slice()),
            mount_options,
            fs_manager_flags: flags,
        }
    }

    /// The union of the flag bits of the option tokens `opts`.
    fn mount_options_of(opts: &Vec<Vec<char>>) -> (r: u64)
        ensures
            r == spec_mount_options(views(opts@)),
    {
        let mut r: u64 = 0;
        let mut i: usize = 0;
        while i < opts.len()
            invariant
                i <= opts@.len(),
                r == spec_mount_options(views(opts@).take(i as int)),
            decreases opts@.len() - i,
        {
            assert(views(opts@).take(i + 1).drop_last() =~= views(opts@).take(i as int));
            r = r | Self::mount_option_bits(opts[i].as_slice());
            i = i + 1;
        }
        assert(views(opts@).take(opts@.len() as int) =~= views(opts@));
        r
    }

    /// The flag bits that the mount option `option` stands for; 0 for an
    /// option without a flag.
    pub fn get_mount_option(option: &str) -> (r: u64)
        ensures
            r == spec_mount_option(option@),
    {
        Self::mount_option_bits(chars_of(option).as_slice())
    }

    fn mount_option_bits(option: &[char]) -> (r: u64)
        ensures
            r == spec_mount_option(option@),
    {
        if chars_eq(option, chars_of("ro").as_slice()) {
            MS_RDONLY
        } else if chars_eq(option, chars_of("dirsync").as_slice()) {
            MS_DIRSYNC
        } else if chars_eq(option, chars_of("lazytime").as_slice()) {
            MS_LAZYTIME
        } else if chars_eq(option, chars_of("mandlock").as_slice()) {
            MS_MANDLOCK
        } else if chars_eq(option, chars_of("noatime").as_slice()) {
            MS_NOATIME
        } else if chars_eq(option, chars_of("nodev").as_slice()) {
            MS_NODEV
        } else if chars_eq(option, chars_of("nodiratime").as_slice()) {
            MS_NODIRATIME
        } else if chars_eq(option, chars_of("noexec").as_slice()) {
            MS_NOEXEC
        } else if chars_eq(option, chars_of("nosuid").as_slice()) {
            MS_NOSUID
        } else if chars_eq(option, chars_of("silent").as_slice()) {
            MS_SILENT
        } else if chars_eq(option, chars_of("strictatime").as_slice()) {
            MS_STRICTATIME
        } else if chars_eq(option, chars_of("sync").as_slice()) {
            MS_SYNCHRONOUS
        } else {
            0
        }
    }

    /// Marked for the first-stage mount.
    pub fn is_first_stage_mount(&self) -> (r: bool)
        ensures
            r == exists|i: int|
                0 <= i < self.fs_manager_flags@.len()
                    && #[trigger] self.fs_manager_flags@[i] is FirstStageMount,
    {
        let mut i: usize = 0;
        while i < self.fs_manager_flags.len()
            invariant
                i <= self.fs_manager_flags@.len(),
                forall|j: int| 0 <= j < i ==> !(#[trigger] self.fs_manager_flags@[j] is FirstStageMount),
            decreases self.fs_manager_flags@.len() - i,
        {
            if let FsManagerFlags::FirstStageMount = self.fs_manager_flags[i] {
                return true;
            }
            i = i + 1;
        }
        false
    }

    /// Its device path carries the slot suffix.
    pub fn is_slot_selected(&self) -> (r: bool)
        ensures
            r == exists|i: int|
                0 <= i < self.fs_manager_flags@.len()
                    && #[trigger] self.fs_manager_flags@[i] is SlotSelect,
    {
        let mut i: usize = 0;
        while i < self.fs_manager_flags.len()
            invariant
                i <= self.fs_manager_flags@.len(),
                forall|j: int| 0 <= j < i ==> !(#[trigger] self.fs_manager_flags@[j] is SlotSelect),
            decreases self.fs_manager_flags@.len() - i,
        {
            if let FsManagerFlags::SlotSelect = self.fs_manager_flags[i] {
                return true;
            }
            i = i + 1;
        }
        false
    }

    /// A logical partition.
    pub fn is_logical(&self) -> (r: bool)
        ensures
            r == exists|i: int|
                0 <= i < self.fs_manager_flags@.len()
                    && #[trigger] self.fs_manager_flags@[i] is Logical,
    {
        let mut i: usize = 0;
        while i < self.fs_manager_flags.len()
            invariant
                i <= self.fs_manager_flags@.len(),
                forall|j: int| 0 <= j < i ==> !(#[trigger] self.fs_manager_flags@[j] is Logical),
            decreases self.fs_manager_flags@.len() - i,
        {
            if let FsManagerFlags::Logical = self.fs_manager_flags[i] {
                return true;
            }
            i = i + 1;
        }
        false
    }

    /// Protected by dm-verity.
    pub fn is_verity_protected(&self) -> (r: bool)
        ensures
            r == exists|i: int|
                0 <= i < self.fs_manager_flags@.len()
                    && #[trigger] self.fs_manager_flags@[i] is Verity,
    {
        let mut i: usize = 0;
        while i < self.fs_manager_flags.len()
            invariant
                i <= self.fs_manager_flags@.len(),
                forall|j: int| 0 <= j < i ==> !(#[trigger] self.fs_manager_flags@[j] is Verity),
            decreases self.fs_manager_flags@.len() - i,
        {
            if let FsManagerFlags::Verity = self.fs_manager_flags[i] {
                return true;
            }
            i = i + 1;
        }
        false
    }
}

} // verus!
