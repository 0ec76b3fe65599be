//! Finding and naming the devices of the fstab entries, and the mounts to
//! move under the new root.
use vstd::prelude::*;

use crate::error::{CoreError, ErrorKind};
use crate::fstab::FsEntry;
use crate::path::{components, path_components};
use crate::text::{chars_eq, chars_of, chars_start_with, decimal, push_chars, push_decimal, views};
use crate::uevent::{UEvent, UEventGenerateAction};
use vstd::slice::slice_subrange;

verus! {

/// Where the partitions are found by name.
pub const VBMETA_PARTITION_NAME_WITHOUT_SUFFIX: &'static str = "/dev/block/by-name/vbmeta";

/// The location of the fstab.
pub const FSTAB_LOCATION: &'static str = "/etc/fstab";

/// Recognises the uevent of an awaited device: by partition name, or by
/// the kernel's device name.
#[derive(Debug, Clone)]
pub struct DeviceMatcher {
    pub by_partition_name: bool,
    pub name: String,
}

impl DeviceMatcher {
    /// The event is the awaited one.
    pub open spec fn spec_matches(&self, e: crate::uevent::UEventView) -> bool {
        if self.by_partition_name {
            e.partition_name == Some(self.name@)
        } else {
            e.devname == Some(self.name@)
        }
    }

    /// `Stop` on the awaited device's event, `Continue` on any other.
    pub fn check(&self, event: &UEvent) -> (r: UEventGenerateAction)
        ensures
            r == (if self.spec_matches(event@) {
                UEventGenerateAction::Stop
            } else {
                UEventGenerateAction::Continue
            }),
    {
        let found = if self.by_partition_name {
            event.get_partition_name()
        } else {
            event.get_devname()
        };
        match found {
            Some(n) => {
                let a = chars_of(n);
                let b = chars_of(self.name.as_str());
                if chars_eq(a.as_slice(), b.as_slice()) {
                    UEventGenerateAction::Stop
                } else {
                    UEventGenerateAction::Continue
                }
            },
            None => UEventGenerateAction::Continue,
        }
    }
}

/// How to get the device of an fstab entry.
#[derive(Debug, Clone)]
pub enum DeviceRequest {
    /// A pseudo filesystem (`tmpfs`): there is no device to wait for.
    Pseudo,
    /// Replay the uevents under `search_dir` until `matcher` stops on the
    /// device; `node` is the path that must then exist.
    Search { matcher: DeviceMatcher, search_dir: String, node: String },
}

/// The components `/`, `dev`, `block`.
pub open spec fn block_dir_components() -> Seq<Seq<char>> {
    seq![seq!['/'], "dev"@, "block"@]
}

/// What `device_request` yields for an fstab device path with components `c`.
pub open spec fn spec_device_request(c: Seq<Seq<char>>, r: Result<DeviceRequest, ErrorKind>) -> bool {
    if c == seq!["tmpfs"@] {
        r matches Ok(DeviceRequest::Pseudo)
    } else if !(c.len() >= 3 && c.take(3) == block_dir_components()) {
        r == Err::<DeviceRequest, ErrorKind>(ErrorKind::InvalidInput)
    } else if c.len() < 4 || (c[3] == "by-name"@ && c.len() < 5) {
        r == Err::<DeviceRequest, ErrorKind>(ErrorKind::NotFound)
    } else if c[3] == "by-name"@ {
        r matches Ok(DeviceRequest::Search { matcher, search_dir, node }) && matcher.by_partition_name
            && matcher.name@ == c[4] && search_dir@ == "/sys/class/block"@ && node@
            == "/dev/block/by-name/"@ + c[4]
    } else {
        r matches Ok(DeviceRequest::Search { matcher, search_dir, node }) && !matcher.by_partition_name
            && matcher.name@ == c[3] && search_dir@ == "/sys/class/block/"@ + c[3] && node@
            == "/dev/block/"@ + c[3]
    }
}

/// How to get the device at the fstab path `fs_spec`: nothing for `tmpfs`;
/// for `/dev/block/by-name/<partition>` a search of `/sys/class/block` by
/// partition name; for `/dev/block/<device>` a search of
/// `/sys/class/block/<device>` by device name. A path outside `/dev/block`
/// is refused with `InvalidInput`; one that names no device with `NotFound`.
pub fn device_request(fs_spec: &str) -> (r: Result<DeviceRequest, ErrorKind>)
    ensures
        spec_device_request(path_components(fs_spec@), r),
{
    let text = chars_of(fs_spec);
    let c = components(text.as_slice());
    let ghost cv = views(c@);
    let tmpfs = chars_of("tmpfs");
    if c.len() == 1 && chars_eq(c[0].as_slice(), tmpfs.as_slice()) {
        assert(cv =~= seq!["tmpfs"@]);
        return Ok(DeviceRequest::Pseudo);
    }
    assert(cv != seq!["tmpfs"@]) by {
        if cv.len() == 1 {
            assert(cv[0] == c@[0]@);
        }
    }
    let root = vec!['/'];
    let dev = chars_of("dev");
    let block = chars_of("block");
    assert(root@ == seq!['/']);
    let in_block = c.len() >= 3 && chars_eq(c[0].as_slice(), root.as_slice()) && chars_eq(
        c[1].as_slice(),
        dev.as_slice(),
    ) && chars_eq(c[2].as_slice(), block.as_slice());
    proof {
        if c@.len() >= 3 {
            assert(cv[0] == c@[0]@ && cv[1] == c@[1]@ && cv[2] == c@[2]@);
            if cv.take(3) == block_dir_components() {
                assert(cv.take(3)[0] == cv[0] && cv.take(3)[1] == cv[1] && cv.take(3)[2] == cv[2]);
            }
            if in_block {
                assert(cv.take(3) =~= block_dir_components());
            }
        }
    }
    if !in_block {
        return Err(ErrorKind::InvalidInput);
    }
    if c.len() < 4 {
        return Err(ErrorKind::NotFound);
    }
    assert(cv[3] == c@[3]@);
    let by_name = chars_of("by-name");
    if chars_eq(c[3].as_slice(), by_name.as_slice()) {
        if c.len() < 5 {
            return Err(ErrorKind::NotFound);
        }
        assert(cv[4] == c@[4]@);
        let device = c[4].as_slice();
        let mut node = String::new();
        push_chars(&mut node, chars_of("/dev/block/by-name/").as_slice());
        push_chars(&mut node, device);
        let mut search_dir = String::new();
        push_chars(&mut search_dir, chars_of("/sys/class/block").as_slice());
        let mut name = String::new();
        push_chars(&mut name, device);
        let matcher = DeviceMatcher { by_partition_name: true, name };
        Ok(DeviceRequest::Search { matcher, search_dir, node })
    } else {
        let device = c[3].as_slice();
        let mut node = String::new();
        push_chars(&mut node, chars_of("/dev/block/").as_slice());
        push_chars(&mut node, device);
        let mut search_dir = String::new();
        push_chars(&mut search_dir, chars_of("/sys/class/block/").as_slice());
        push_chars(&mut search_dir, device);
        let mut name = String::new();
        push_chars(&mut name, device);
        let matcher = DeviceMatcher { by_partition_name: false, name };
        Ok(DeviceRequest::Search { matcher, search_dir, node })
    }
}

/// The entry is verity-protected and mounted in the first stage.
pub open spec fn needs_verity_early(e: FsEntry) -> bool {
    &&& exists|j: int| 0 <= j < e.fs_manager_flags@.len() && #[trigger] e.fs_manager_flags@[j] is Verity
    &&& exists|j: int|
        0 <= j < e.fs_manager_flags@.len() && #[trigger] e.fs_manager_flags@[j] is FirstStageMount
}

/// Some entry is both verity-protected and mounted in the first stage.
pub fn should_prepare_verity(fstab_entries: &[FsEntry]) -> (r: bool)
    ensures
        r == exists|i: int| 0 <= i < fstab_entries@.len() && needs_verity_early(#[trigger] fstab_entries@[i]),
{
    let mut i: usize = 0;
    while i < fstab_entries.len()
        invariant
            i <= fstab_entries@.len(),
            forall|k: int| 0 <= k < i ==> !needs_verity_early(#[trigger] fstab_entries@[k]),
        decreases fstab_entries@.len() - i,
    {
        if fstab_entries[i].is_verity_protected() && fstab_entries[i].is_first_stage_mount() {
            return true;
        }
        i = i + 1;
    }
    false
}

/// The index of the first entry mounted on `/`.
pub fn find_root_entry(fstab_entries: &[FsEntry]) -> (r: Option<usize>)
    ensures
        match r {
            Some(i) => i < fstab_entries@.len() && fstab_entries@[i as int].mountpoint@ == "/"@
                && forall|k: int| 0 <= k < i ==> fstab_entries@[k].mountpoint@ != "/"@,
            None => forall|k: int|
                0 <= k < fstab_entries@.len() ==> fstab_entries@[k].mountpoint@ != "/"@,
        },
{
    let root = chars_of("/");
    let mut i: usize = 0;
    while i < fstab_entries.len()
        invariant
            i <= fstab_entries@.len(),
            root@ == "/"@,
            forall|k: int| 0 <= k < i ==> fstab_entries@[k].mountpoint@ != "/"@,
        decreases fstab_entries@.len() - i,
    {
        let m = chars_of(fstab_entries[i].mountpoint.as_str());
        if chars_eq(m.as_slice(), root.as_slice()) {
            return Some(i);
        }
        i = i + 1;
    }
    None
}

/// The verity partition of a slot: `/dev/block/by-name/vbmeta_<suffix>`.
pub fn verity_partition_name(suffix: &str) -> (r: String)
    ensures
        r@ == VBMETA_PARTITION_NAME_WITHOUT_SUFFIX@ + seq!['_'] + suffix@,
{
    let mut r = String::new();
    push_chars(&mut r, chars_of(VBMETA_PARTITION_NAME_WITHOUT_SUFFIX).as_slice());
    push_chars(&mut r, vec!['_'].as_slice());
    push_chars(&mut r, chars_of(suffix).as_slice());
    r
}

/// The name of the `index`-th device-mapper device: `dm-<index>`.
pub fn dm_device_name(index: u64) -> (r: String)
    ensures
        r@ == "dm-"@ + decimal(index as nat),
{
    let mut r = String::new();
    push_chars(&mut r, chars_of("dm-").as_slice());
    push_decimal(&mut r, index);
    r
}

/// Attempts to find the root device before mounting it regardless.
pub const ROOT_DEVICE_ATTEMPTS: u32 = 5;

/// What to do after an attempt to find the root device.
#[derive(Debug, Clone, Copy, PartialEq, Eq, Structural)]
pub enum RootAttempt {
    /// Go on and mount the root.
    Mount,
    /// Sleep a millisecond and look again.
    RetryAfterSleep,
}

/// After attempt `attempt` (counted from 0) found the root device `ready`
/// or not: mount once it is ready or after the last attempt, else retry.
pub fn root_device_attempt(attempt: u32, ready: bool) -> (r: RootAttempt)
    ensures
        r == (if ready || attempt + 1 >= ROOT_DEVICE_ATTEMPTS {
            RootAttempt::Mount
        } else {
            RootAttempt::RetryAfterSleep
        }),
{
    if ready || attempt >= ROOT_DEVICE_ATTEMPTS - 1 {
        RootAttempt::Mount
    } else {
        RootAttempt::RetryAfterSleep
    }
}

/// One step of the first-stage mount. `dm_index`, when given, is the
/// number `N` of the `dm-<N>` verity device to mount instead of the entry's
/// own device.
#[derive(Debug, Clone, Copy, PartialEq, Eq, Structural)]
pub enum MountStep {
    /// Mount entry `entry` (the root) at `/new_root`.
    Root { entry: usize, dm_index: Option<u64> },
    /// Move the existing mounts under `/new_root` and make it `/`.
    Pivot,
    /// Mount entry `entry` at its own mount point.
    Entry { entry: usize, dm_index: Option<u64> },
}

/// The entry is mounted on `/`.
pub open spec fn is_root_mount(e: FsEntry) -> bool {
    e.mountpoint@ == "/"@
}

/// The entry is verity-protected.
pub open spec fn has_verity(e: FsEntry) -> bool {
    exists|j: int| 0 <= j < e.fs_manager_flags@.len() && #[trigger] e.fs_manager_flags@[j] is Verity
}

/// The entry is marked for the first-stage mount.
pub open spec fn has_first_stage(e: FsEntry) -> bool {
    exists|j: int|
        0 <= j < e.fs_manager_flags@.len() && #[trigger] e.fs_manager_flags@[j] is FirstStageMount
}

/// `i` is the first entry mounted on `/`.
pub open spec fn is_first_root(es: Seq<FsEntry>, i: int) -> bool {
    0 <= i < es.len() && is_root_mount(es[i]) && forall|k: int| 0 <= k < i ==> !is_root_mount(es[k])
}

/// The root is mounted before the pivot: the first entry on `/` is marked
/// for the first-stage mount.
pub open spec fn root_is_mounted(es: Seq<FsEntry>) -> bool {
    exists|i: int| is_first_root(es, i) && has_first_stage(es[i])
}

/// The mounted root takes the first verity device.
pub open spec fn root_takes_dm(es: Seq<FsEntry>) -> bool {
    exists|i: int| is_first_root(es, i) && has_first_stage(es[i]) && has_verity(es[i])
}

/// Entries before `n` that are not mounted on `/`.
pub open spec fn others_before(es: Seq<FsEntry>, n: int) -> nat
    decreases n,
{
    if n <= 0 {
        0
    } else {
        others_before(es, n - 1) + if !is_root_mount(es[n - 1]) {
            1nat
        } else {
            0nat
        }
    }
}

/// Verity-protected entries before `n` that are not mounted on `/`.
pub open spec fn verity_others_before(es: Seq<FsEntry>, n: int) -> nat
    decreases n,
{
    if n <= 0 {
        0
    } else {
        verity_others_before(es, n - 1) + if !is_root_mount(es[n - 1]) && has_verity(es[n - 1]) {
            1nat
        } else {
            0nat
        }
    }
}

/// An entry after the pivot needs a verity device, but no verity device
/// can be built because no first-stage entry is verity-protected.
pub open spec fn verity_unavailable(es: Seq<FsEntry>) -> bool {
    &&& exists|j: int| 0 <= j < es.len() && !is_root_mount(es[j]) && has_verity(#[trigger] es[j])
    &&& !exists|i: int| 0 <= i < es.len() && needs_verity_early(#[trigger] es[i])
}

/// The step that mounts entry `i` after the pivot, when the verity devices
/// of the root take the first `base` numbers.
pub open spec fn entry_step(es: Seq<FsEntry>, base: int, i: int) -> MountStep {
    MountStep::Entry {
        entry: i as usize,
        dm_index: if has_verity(es[i]) {
            Some((base + verity_others_before(es, i)) as u64)
        } else {
            None
        },
    }
}

/// Every entry before `n` that is not on `/` has its step in `steps`, at
/// position `k + 1` plus the number of such entries before it.
#[verifier::opaque]
pub open spec fn entries_placed(
    es: Seq<FsEntry>,
    base: int,
    k: int,
    steps: Seq<MountStep>,
    n: int,
) -> bool {
    forall|i: int|
        0 <= i < n && !is_root_mount(#[trigger] es[i]) ==> steps[k + 1 + others_before(es, i)]
            == entry_step(es, base, i)
}

/// The plan `steps` for the entries `es`: the root at `/new_root` when it is
/// marked for the first-stage mount, then the pivot, then every entry not
/// on `/` in file order. Verity-protected entries get `dm-<N>` devices,
/// numbered from 0 in the order they are mounted.
pub open spec fn is_first_stage_plan(es: Seq<FsEntry>, steps: Seq<MountStep>) -> bool {
    let k: int = if root_is_mounted(es) {
        1
    } else {
        0
    };
    let base: int = if root_takes_dm(es) {
        1
    } else {
        0
    };
    &&& steps.len() == k + 1 + others_before(es, es.len() as int)
    &&& forall|i: int|
        is_first_root(es, i) && has_first_stage(es[i]) ==> steps[0] == (MountStep::Root {
            entry: i as usize,
            dm_index: if has_verity(es[i]) {
                Some(0u64)
            } else {
                None
            },
        })
    &&& steps[k] == MountStep::Pivot
    &&& entries_placed(es, base, k, steps, es.len() as int)
}

proof fn lemma_counts_bounded(es: Seq<FsEntry>, n: int)
    requires
        0 <= n <= es.len(),
    ensures
        verity_others_before(es, n) <= others_before(es, n) <= n,
    decreases n,
{
    if n > 0 {
        lemma_counts_bounded(es, n - 1);
    }
}

proof fn lemma_place_entry(
    es: Seq<FsEntry>,
    base: int,
    k: int,
    before: Seq<MountStep>,
    after: Seq<MountStep>,
    j: int,
)
    requires
        0 <= j < es.len(),
        0 <= k,
        !is_root_mount(es[j]),
        entries_placed(es, base, k, before, j),
        before.len() == k + 1 + others_before(es, j),
        after == before.push(entry_step(es, base, j)),
    ensures
        entries_placed(es, base, k, after, j + 1),
{
    reveal(entries_placed);
    assert forall|i: int|
        0 <= i < j + 1 && !is_root_mount(#[trigger] es[i]) implies after[k + 1 + others_before(es, i)]
        == entry_step(es, base, i) by {
        if i < j {
            lemma_others_monotone(es, i + 1, j);
        }
    }
}

proof fn lemma_skip_entry(es: Seq<FsEntry>, base: int, k: int, steps: Seq<MountStep>, j: int)
    requires
        0 <= j < es.len(),
        is_root_mount(es[j]),
        entries_placed(es, base, k, steps, j),
    ensures
        entries_placed(es, base, k, steps, j + 1),
{
    reveal(entries_placed);
}

/// The steps of the first-stage mount of the fstab entries. Fails with
/// `InvalidArgument` when no entry mounts `/` or the first one that does is
/// not marked for the first-stage mount, and then with `DMError` when an
/// entry mounted after the pivot is verity-protected but no verity device
/// can be built.
pub fn first_stage_plan(fstab_entries: &Vec<FsEntry>) -> (r: Result<Vec<MountStep>, CoreError>)
    requires
        fstab_entries@.len() < usize::MAX,
    ensures
        match r {
            Ok(steps) => root_is_mounted(fstab_entries@) && !verity_unavailable(fstab_entries@)
                && is_first_stage_plan(fstab_entries@, steps@),
            Err(e) => (!root_is_mounted(fstab_entries@) && e == CoreError::InvalidArgument) || (
            root_is_mounted(fstab_entries@) && verity_unavailable(fstab_entries@) && e
                == CoreError::DMError),
        },
{
    let ghost es = fstab_entries@;
    let prepared = should_prepare_verity(fstab_entries.as_slice());
    let mut steps: Vec<MountStep> = Vec::new();
    let mut next_dm: u64 = 0;
    let root = find_root_entry(fstab_entries.as_slice());
    let mut mounted = false;
    if let Some(i) = root {
        if fstab_entries[i].is_first_stage_mount() {
            let dm_index = if fstab_entries[i].is_verity_protected() {
                next_dm = 1;
                Some(0u64)
            } else {
                None
            };
            steps.push(MountStep::Root { entry: i, dm_index });
            mounted = true;
        }
    }
    proof {
        match root {
            Some(i) => {
                assert(is_first_root(es, i as int));
                assert(forall|i2: int| is_first_root(es, i2) ==> i2 == i);
            },
            None => {
                assert(forall|i2: int| !is_first_root(es, i2));
            },
        }
    }
    assert(mounted == root_is_mounted(es));
    assert((next_dm == 1) == root_takes_dm(es));
    if !mounted {
        return Err(CoreError::InvalidArgument);
    }
    steps.push(MountStep::Pivot);
    let ghost k: int = if mounted {
        1
    } else {
        0
    };
    let ghost base = next_dm as int;
    let ghost head = steps@;
    proof {
        reveal(entries_placed);
    }
    assert(entries_placed(es, base, k, steps@, 0));
    let mut j: usize = 0;
    while j < fstab_entries.len()
        invariant
            j <= es.len() < usize::MAX,
            es == fstab_entries@,
            k == 1,
            root_is_mounted(es),
            0 <= base <= 1,
            prepared == exists|i: int| 0 <= i < es.len() && needs_verity_early(#[trigger] es[i]),
            head.len() == k + 1,
            steps@.len() == k + 1 + others_before(es, j as int),
            steps@.take(k + 1) == head,
            next_dm == base + verity_others_before(es, j as int),
            next_dm <= j + 1,
            !prepared ==> forall|i: int|
                0 <= i < j ==> !(!is_root_mount(es[i]) && has_verity(#[trigger] es[i])),
            entries_placed(es, base, k, steps@, j as int),
        decreases es.len() - j,
    {
        proof {
            lemma_counts_bounded(es, j as int);
        }
        let mp = chars_of(fstab_entries[j].mountpoint.as_str());
        let on_root = chars_eq(mp.as_slice(), chars_of("/").as_slice());
        if !on_root {
            let verity = fstab_entries[j].is_verity_protected();
            let dm_index = if verity {
                if !prepared {
                    return Err(CoreError::DMError);
                }
                let n = next_dm;
                next_dm = next_dm + 1;
                Some(n)
            } else {
                None
            };
            let ghost before = steps@;
            steps.push(MountStep::Entry { entry: j, dm_index });
            proof {
                assert(steps@ == before.push(entry_step(es, base, j as int)));
                lemma_place_entry(es, base, k, before, steps@, j as int);
                assert(steps@.take(k + 1) =~= before.take(k + 1));
            }
        } else {
            proof {
                lemma_skip_entry(es, base, k, steps@, j as int);
            }
        }
        j = j + 1;
    }
    proof {
        assert(head[0] == steps@.take(k + 1)[0]);
        assert(head[k] == steps@.take(k + 1)[k]);
    }
    Ok(steps)
}

proof fn lemma_others_monotone(es: Seq<FsEntry>, a: int, b: int)
    requires
        0 <= a <= b <= es.len(),
    ensures
        others_before(es, a) <= others_before(es, b),
    decreases b - a,
{
    if a < b {
        lemma_others_monotone(es, a, b - 1);
    }
}

/// The mounts of `mounts` to move under a new root: neither `/` nor
/// `skip`, and not starting with the text of a mount already chosen.
pub open spec fn mounts_to_move(mounts: Seq<Seq<char>>, skip: Seq<char>) -> Seq<Seq<char>>
    decreases mounts.len(),
{
    if mounts.len() == 0 {
        seq![]
    } else {
        let chosen = mounts_to_move(mounts.drop_last(), skip);
        let m = mounts.last();
        if m == "/"@ || m == skip || exists|k: int|
            0 <= k < chosen.len() && chosen[k].len() <= m.len() && m.take(chosen[k].len() as int)
                == chosen[k] {
            chosen
        } else {
            chosen.push(m)
        }
    }
}

/// The mounts, in the order given, that must be moved under the new root
/// `skip`: the root itself and `skip` stay, and a mount whose path starts
/// with a chosen one moves along with it.
pub fn get_all_mounts(mounts: &Vec<String>, skip: &str) -> (r: Vec<String>)
    ensures
        views_of_strings(r@) == mounts_to_move(views_of_strings(mounts@), skip@),
{
    let ghost ms = views_of_strings(mounts@);
    let skip_chars = chars_of(skip);
    let root = chars_of("/");
    let mut chosen: Vec<Vec<char>> = Vec::new();
    let mut out: Vec<String> = Vec::new();
    let mut i: usize = 0;
    assert(ms.take(0) =~= Seq::<Seq<char>>::empty());
    while i < mounts.len()
        invariant
            i <= mounts@.len(),
            ms == views_of_strings(mounts@),
            skip_chars@ == skip@,
            root@ == "/"@,
            views(chosen@) == mounts_to_move(ms.take(i as int), skip@),
            views_of_strings(out@) == views(chosen@),
        decreases mounts@.len() - i,
    {
        assert(ms.take(i + 1).drop_last() =~= ms.take(i as int));
        assert(ms[i as int] == mounts@[i as int]@);
        let m = chars_of(mounts[i].as_str());
        let mut keep = !chars_eq(m.as_slice(), root.as_slice()) && !chars_eq(
            m.as_slice(),
            skip_chars.as_slice(),
        );
        let mut k: usize = 0;
        while k < chosen.len()
            invariant
                k <= chosen@.len(),
                keep ==> m@ != "/"@ && m@ != skip@,
                keep ==> forall|j: int|
                    0 <= j < k ==> !(chosen@[j]@.len() <= m@.len() && m@.take(
                        chosen@[j]@.len() as int,
                    ) == chosen@[j]@),
                !keep ==> (m@ == "/"@ || m@ == skip@ || exists|j: int|
                    0 <= j < chosen@.len() && chosen@[j]@.len() <= m@.len() && m@.take(
                        chosen@[j]@.len() as int,
                    ) == chosen@[j]@),
                root@ == "/"@,
                skip_chars@ == skip@,
            decreases chosen@.len() - k,
        {
            if chars_start_with(m.as_slice(), chosen[k].as_slice()) {
                keep = false;
            }
            k = k + 1;
        }
        proof {
            let cv = views(chosen@);
            assert(forall|j: int| 0 <= j < chosen@.len() ==> cv[j] == chosen@[j]@);
            if keep {
                assert(!(exists|j: int|
                    0 <= j < cv.len() && cv[j].len() <= m@.len() && m@.take(cv[j].len() as int)
                        == cv[j]));
            } else if !(m@ == "/"@ || m@ == skip@) {
                let j = choose|j: int|
                    0 <= j < chosen@.len() && chosen@[j]@.len() <= m@.len() && m@.take(
                        chosen@[j]@.len() as int,
                    ) == chosen@[j]@;
                assert(cv[j] == chosen@[j]@);
            }
        }
        proof {
            let prev = mounts_to_move(ms.take(i as int), skip@);
            assert(ms.take(i + 1).last() == m@);
            assert(prev == views(chosen@));
            if keep {
                assert(mounts_to_move(ms.take(i + 1), skip@) == prev.push(m@));
            } else {
                assert(mounts_to_move(ms.take(i + 1), skip@) == prev);
            }
        }
        if keep {
            let s = mounts[i].clone();
            let ghost mv = m@;
            proof {
                assert(views(chosen@.push(m)) =~= views(chosen@).push(mv));
                assert(views_of_strings(out@.push(s)) =~= views_of_strings(out@).push(s@));
            }
            chosen.push(m);
            out.push(s);
        }
        i = i + 1;
    }
    assert(ms.take(mounts@.len() as int) =~= ms);
    out
}

/// `s` without its leading slashes.
pub open spec fn trim_leading_slashes(s: Seq<char>) -> Seq<char>
    decreases s.len(),
{
    if s.len() > 0 && s[0] == '/' {
        trim_leading_slashes(s.drop_first())
    } else {
        s
    }
}

/// `Path::join` of a base and a relative path: a separator goes between
/// them unless the base is empty or already ends with one.
pub open spec fn join_relative(base: Seq<char>, rel: Seq<char>) -> Seq<char> {
    if base.len() > 0 && base.last() != '/' {
        base + seq!['/'] + rel
    } else {
        base + rel
    }
}

/// Where the mount at `mount` goes under the new root `new_root`.
pub fn moved_mount_path(new_root: &str, mount: &str) -> (r: String)
    ensures
        r@ == join_relative(new_root@, trim_leading_slashes(mount@)),
{
    let m = chars_of(mount);
    let mut start: usize = 0;
    assert(m@.skip(0) =~= m@);
    while start < m.len() && m[start] == '/'
        invariant
            start <= m@.len(),
            trim_leading_slashes(m@) == trim_leading_slashes(m@.skip(start as int)),
        decreases m@.len() - start,
    {
        assert(m@.skip(start as int).drop_first() =~= m@.skip(start + 1));
        start = start + 1;
    }
    let rel = slice_subrange(m.as_slice(), start, m.len());
    assert(rel@ =~= m@.skip(start as int));
    let base = chars_of(new_root);
    let mut r = String::new();
    push_chars(&mut r, base.as_slice());
    if base.len() > 0 && base[base.len() - 1] != '/' {
        push_chars(&mut r, vec!['/'].as_slice());
    }
    push_chars(&mut r, rel);
    r
}

/// The character sequences held by a sequence of strings.
pub open spec fn views_of_strings(v: Seq<String>) -> Seq<Seq<char>> {
    Seq::new(v.len(), |i: int| v[i]@)
}

} // verus!
