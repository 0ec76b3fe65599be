//! Kernel uevents: parsing of netlink payloads, the sender filter, and the
//! predicate that recognises an awaited device.
use vstd::prelude::*;
use vstd::string::StringSliceAdditionalSpecFns;

use crate::error::ErrorKind;
use crate::text::{lemma_split_concat, lemma_split_without_sep, bytes_eq, parse_i32, parse_u64, split_by, split_bytes, spec_parse_i32,
    spec_parse_u64, str_eq, views, push_char};

pub mod handle_events;

verus! {

/// What the kernel reports to have happened to a device.
#[derive(Debug, Clone, Copy, PartialEq, Eq, Structural)]
pub enum Action {
    Unknown,
    Add,
    Change,
    Remove,
}

/// The kind of device node an event describes.
#[derive(Debug, Clone, Copy, PartialEq, Eq, Structural)]
pub enum DeviceKind {
    Block,
    Char,
}

/// A parsed uevent, as plain values.
pub ghost struct UEventView {
    pub action: Action,
    pub dev_path: Seq<char>,
    pub subsystem: Option<Seq<char>>,
    pub firmware: Option<Seq<char>>,
    pub major: Option<u64>,
    pub minor: Option<u64>,
    pub devname: Option<Seq<char>>,
    pub partition_number: Option<i32>,
    pub partition_name: Option<Seq<char>>,
    pub modalias: Option<Seq<char>>,
}

/// A parsed uevent.
#[derive(Debug)]
pub struct UEvent {
    pub(crate) action: Action,
    pub(crate) dev_path: String,
    pub(crate) maybe_subsystem: Option<String>,
    pub(crate) maybe_firmware: Option<String>,
    pub(crate) maybe_major: Option<u64>,
    pub(crate) maybe_minor: Option<u64>,
    pub(crate) maybe_devname: Option<String>,
    pub(crate) maybe_partitionnum: Option<i32>,
    pub(crate) maybe_partitionname: Option<String>,
    pub(crate) maybe_modalias: Option<String>,
}

pub open spec fn opt_view(o: Option<String>) -> Option<Seq<char>> {
    match o {
        Some(s) => Some(s@),
        None => None,
    }
}

impl View for UEvent {
    type V = UEventView;

    closed spec fn view(&self) -> UEventView {
        UEventView {
            action: self.action,
            dev_path: self.dev_path@,
            subsystem: opt_view(self.maybe_subsystem),
            firmware: opt_view(self.maybe_firmware),
            major: self.maybe_major,
            minor: self.maybe_minor,
            devname: opt_view(self.maybe_devname),
            partition_number: self.maybe_partitionnum,
            partition_name: opt_view(self.maybe_partitionname),
            modalias: opt_view(self.maybe_modalias),
        }
    }
}

/// What `String::from_utf8_lossy` makes of a byte sequence.
pub uninterp spec fn utf8_lossy(b: Seq<u8>) -> Seq<char>;

/// Relies on `String::from_utf8_lossy`: the text depends on the bytes
/// alone, and valid UTF-8 (so ASCII) comes back unchanged.
#[verifier::external_body]
fn lossy_string(b: &[u8]) -> (r: String)
    ensures
        r@ == utf8_lossy(b@),
        (forall|i: int| 0 <= i < b@.len() ==> b@[i] < 0x80) ==> r@ == Seq::new(
            b@.len(),
            |i: int| b@[i] as char,
        ),
{
    String::from_utf8_lossy(b).into_owned()
}

/// The text of a value: ASCII bytes read as characters one for one, any
/// other byte sequence as `String::from_utf8_lossy` makes it.
pub open spec fn lossy_text(b: Seq<u8>) -> Seq<char> {
    if forall|i: int| 0 <= i < b.len() ==> b[i] < 0x80 {
        Seq::new(b.len(), |i: int| b[i] as char)
    } else {
        utf8_lossy(b)
    }
}

/// The text of the bytes `b`.
fn text_of(b: &[u8]) -> (r: String)
    ensures
        r@ == lossy_text(b@),
{
    lossy_string(b)
}

/// A byte kept by the partition-name sanitiser: `[A-Za-z0-9_.-]`.
pub open spec fn is_name_byte(b: u8) -> bool {
    (0x61 <= b && b <= 0x7a) || (0x41 <= b && b <= 0x5a) || (0x30 <= b && b <= 0x39) || b == 0x5f
        || b == 0x2d || b == 0x2e
}

/// The sanitised form of a partition name: each byte outside
/// `[A-Za-z0-9_.-]` becomes `_`.
pub open spec fn sanitized(b: Seq<u8>) -> Seq<char> {
    Seq::new(b.len(), |i: int| if is_name_byte(b[i]) { b[i] as char } else { '_' })
}

/// The event before any line of a payload is read.
pub open spec fn empty_event() -> UEventView {
    UEventView {
        action: Action::Unknown,
        dev_path: Seq::empty(),
        subsystem: None,
        firmware: None,
        major: None,
        minor: None,
        devname: None,
        partition_number: None,
        partition_name: None,
        modalias: None,
    }
}

/// The action an `ACTION` value names.
pub open spec fn action_of(v: Seq<u8>) -> Action {
    if v == "add".spec_bytes() {
        Action::Add
    } else if v == "remove".spec_bytes() {
        Action::Remove
    } else if v == "change".spec_bytes() {
        Action::Change
    } else {
        Action::Unknown
    }
}

/// The event after the line `KEY=VALUE` given by `key` and `value`; an
/// unknown key leaves it unchanged.
pub open spec fn apply_field(e: UEventView, key: Seq<u8>, value: Seq<u8>) -> UEventView {
    if key == "ACTION".spec_bytes() {
        UEventView { action: action_of(value), ..e }
    } else if key == "DEVPATH".spec_bytes() {
        UEventView { dev_path: lossy_text(value), ..e }
    } else if key == "SUBSYSTEM".spec_bytes() {
        UEventView { subsystem: Some(lossy_text(value)), ..e }
    } else if key == "MAJOR".spec_bytes() {
        UEventView { major: spec_parse_u64(value), ..e }
    } else if key == "MINOR".spec_bytes() {
        UEventView { minor: spec_parse_u64(value), ..e }
    } else if key == "DEVNAME".spec_bytes() {
        UEventView { devname: Some(lossy_text(value)), ..e }
    } else if key == "FIRMWARE".spec_bytes() {
        UEventView { firmware: Some(lossy_text(value)), ..e }
    } else if key == "PARTN".spec_bytes() {
        UEventView {
            partition_number: Some(
                match spec_parse_i32(value) {
                    Some(n) => n,
                    None => 0,
                },
            ),
            ..e
        }
    } else if key == "PARTNAME".spec_bytes() {
        UEventView { partition_name: Some(sanitized(value)), ..e }
    } else if key == "MODALIAS".spec_bytes() {
        UEventView { modalias: Some(lossy_text(value)), ..e }
    } else {
        e
    }
}

/// The event after one line: a line that is not exactly `KEY=VALUE` (one
/// `=`) is ignored.
pub open spec fn apply_line(e: UEventView, line: Seq<u8>) -> UEventView {
    let parts = split_by(line, 0x3d);
    if parts.len() == 2 {
        apply_field(e, parts[0], parts[1])
    } else {
        e
    }
}

/// The event that the lines build, in order.
pub open spec fn apply_lines(lines: Seq<Seq<u8>>) -> UEventView
    decreases lines.len(),
{
    if lines.len() == 0 {
        empty_event()
    } else {
        apply_line(apply_lines(lines.drop_last()), lines.last())
    }
}

/// The event a payload describes: NUL-separated lines after a header line.
pub open spec fn payload_event(buf: Seq<u8>) -> UEventView {
    apply_lines(split_by(buf, 0u8).drop_first())
}

/// The payload parses: it names a known action.
pub open spec fn payload_parses(buf: Seq<u8>) -> bool {
    payload_event(buf).action != Action::Unknown
}

/// The sender of a netlink message.
#[derive(Debug, Clone, Copy, PartialEq, Eq, Structural)]
pub struct NetlinkSender {
    pub groups: u32,
    pub pid: u32,
}

/// A message the kernel broadcast: it carries credentials, all of uid 0,
/// and comes from a multicast group with port id 0.
pub open spec fn from_kernel(cred_uids: Seq<u32>, sender: Option<NetlinkSender>) -> bool {
    &&& cred_uids.len() > 0
    &&& forall|i: int| 0 <= i < cred_uids.len() ==> cred_uids[i] == 0
    &&& sender matches Some(s) && s.groups != 0 && s.pid == 0
}

/// The sanitised partition name of `input`: each byte outside
/// `[A-Za-z0-9_.-]` becomes `_`.
pub fn sanitize_name(input: &[u8]) -> (r: String)
    ensures
        r@ == sanitized(input@),
{
    let mut sanitized_name = String::new();
    let mut i: usize = 0;
    while i < input.len()
        invariant
            i <= input@.len(),
            sanitized_name@ == sanitized(input@.take(i as int)),
        decreases input@.len() - i,
    {
        let b = input[i];
        let keep = (0x61 <= b && b <= 0x7a) || (0x41 <= b && b <= 0x5a) || (0x30 <= b && b
            <= 0x39) || b == 0x5f || b == 0x2d || b == 0x2e;
        if keep {
            push_char(&mut sanitized_name, b as char);
        } else {
            push_char(&mut sanitized_name, '_');
        }
        i = i + 1;
        assert(sanitized_name@ =~= sanitized(input@.take(i as int)));
    }
    assert(input@.take(input@.len() as int) =~= input@);
    sanitized_name
}

impl UEvent {
    /// The kernel's name for the device, if given.
    pub fn get_devname(&self) -> (r: Option<&str>)
        ensures
            match r {
                Some(s) => self@.devname == Some(s@),
                None => self@.devname is None,
            },
    {
        match &self.maybe_devname {
            Some(s) => Some(s.as_str()),
            None => None,
        }
    }

    /// The sanitised partition name, if given.
    pub fn get_partition_name(&self) -> (r: Option<&str>)
        ensures
            match r {
                Some(s) => self@.partition_name == Some(s@),
                None => self@.partition_name is None,
            },
    {
        match &self.maybe_partitionname {
            Some(s) => Some(s.as_str()),
            None => None,
        }
    }

    /// The action of the event.
    pub fn get_action(&self) -> (r: Action)
        ensures
            r == self@.action,
    {
        self.action
    }

    /// A block device for subsystem `block`, a character device otherwise.
    pub fn get_dev_type(&self) -> (r: DeviceKind)
        ensures
            r == (if self@.subsystem == Some("block"@) {
                DeviceKind::Block
            } else {
                DeviceKind::Char
            }),
    {
        if self.is_subsystem("block") {
            DeviceKind::Block
        } else {
            DeviceKind::Char
        }
    }

    /// Whether the event's subsystem is `name`.
    pub fn is_subsystem(&self, name: &str) -> (r: bool)
        ensures
            r == (self@.subsystem == Some(name@)),
    {
        match &self.maybe_subsystem {
            Some(s) => str_eq(s.as_str(), name),
            None => false,
        }
    }

    /// Parses a uevent payload: a header line, then NUL-separated
    /// `KEY=VALUE` lines. Unknown keys and malformed lines are ignored; a
    /// later line overrides an earlier one with the same key. Fails with
    /// `InvalidData` when no known action is named.
    pub fn try_from(buf: &[u8]) -> (r: Result<UEvent, ErrorKind>)
        ensures
            r is Ok <==> payload_parses(buf@),
            r matches Ok(e) ==> e@ == payload_event(buf@),
            r matches Err(k) ==> k == ErrorKind::InvalidData,
    {
        let all = split_bytes(buf, 0u8);
        proof {
            crate::text::lemma_split_by_len(buf@, 0u8);
        }
        let ghost lines = split_by(buf@, 0u8).drop_first();
        let mut ev = UEvent {
            action: Action::Unknown,
            dev_path: String::new(),
            maybe_subsystem: None,
            maybe_firmware: None,
            maybe_major: None,
            maybe_minor: None,
            maybe_devname: None,
            maybe_partitionnum: None,
            maybe_partitionname: None,
            maybe_modalias: None,
        };
        assert(ev@ == empty_event());
        assert(lines.take(0) =~= Seq::<Seq<u8>>::empty());
        let mut i: usize = 1;
        while i < all.len()
            invariant
                1 <= i <= all@.len(),
                views(all@) == split_by(buf@, 0u8),
                lines == split_by(buf@, 0u8).drop_first(),
                ev@ == apply_lines(lines.take(i - 1)),
            decreases all@.len() - i,
        {
            assert(lines.take(i as int).drop_last() =~= lines.take(i - 1));
            assert(lines.take(i as int).last() == all@[i as int]@);
            let parts = split_bytes(all[i].as_slice(), 0x3d);
            if parts.len() == 2 {
                Self::apply_field(&mut ev, parts[0].as_slice(), parts[1].as_slice());
            }
            i = i + 1;
        }
        assert(lines.take(all@.len() - 1) =~= lines);
        if ev.action == Action::Unknown {
            Err(ErrorKind::InvalidData)
        } else {
            Ok(ev)
        }
    }

    fn apply_field(ev: &mut UEvent, key: &[u8], value: &[u8])
        ensures
            final(ev)@ == apply_field(old(ev)@, key@, value@),
    {
        if bytes_eq(key, "ACTION".as_bytes()) {
            ev.action = if bytes_eq(value, "add".as_bytes()) {
                Action::Add
            } else if bytes_eq(value, "remove".as_bytes()) {
                Action::Remove
            } else if bytes_eq(value, "change".as_bytes()) {
                Action::Change
            } else {
                Action::Unknown
            };
        } else if bytes_eq(key, "DEVPATH".as_bytes()) {
            ev.dev_path = text_of(value);
        } else if bytes_eq(key, "SUBSYSTEM".as_bytes()) {
            ev.maybe_subsystem = Some(text_of(value));
        } else if bytes_eq(key, "MAJOR".as_bytes()) {
            ev.maybe_major = parse_u64(value);
        } else if bytes_eq(key, "MINOR".as_bytes()) {
            ev.maybe_minor = parse_u64(value);
        } else if bytes_eq(key, "DEVNAME".as_bytes()) {
            ev.maybe_devname = Some(text_of(value));
        } else if bytes_eq(key, "FIRMWARE".as_bytes()) {
            ev.maybe_firmware = Some(text_of(value));
        } else if bytes_eq(key, "PARTN".as_bytes()) {
            ev.maybe_partitionnum = Some(
                match parse_i32(value) {
                    Some(n) => n,
                    None => 0,
                },
            );
        } else if bytes_eq(key, "PARTNAME".as_bytes()) {
            ev.maybe_partitionname = Some(sanitize_name(value));
        } else if bytes_eq(key, "MODALIAS".as_bytes()) {
            ev.maybe_modalias = Some(text_of(value));
        }
    }
}

/// The bytes of an ASCII string are its characters, one byte each.
proof fn lemma_ascii_literal(s: &str, cs: Seq<char>)
    requires
        s@ =~= cs,
        vstd::utf8::is_ascii_chars(cs),
    ensures
        s.spec_bytes() == Seq::new(cs.len(), |i: int| cs[i] as u8),
{
    vstd::utf8::is_ascii_chars_encode_utf8(cs);
    assert(s.spec_bytes() =~= Seq::new(cs.len(), |i: int| cs[i] as u8));
}

/// The bytes of the keys and actions a payload is matched against.
proof fn lemma_key_bytes()
    ensures
        "ACTION".spec_bytes() == seq![65u8, 67u8, 84u8, 73u8, 79u8, 78u8],
        "add".spec_bytes() == seq![97u8, 100u8, 100u8],
        "remove".spec_bytes() == seq![114u8, 101u8, 109u8, 111u8, 118u8, 101u8],
        "change".spec_bytes() == seq![99u8, 104u8, 97u8, 110u8, 103u8, 101u8],
        "DEVPATH".spec_bytes() == seq![68u8, 69u8, 86u8, 80u8, 65u8, 84u8, 72u8],
        "SUBSYSTEM".spec_bytes() == seq![83u8, 85u8, 66u8, 83u8, 89u8, 83u8, 84u8, 69u8, 77u8],
        "MAJOR".spec_bytes() == seq![77u8, 65u8, 74u8, 79u8, 82u8],
        "MINOR".spec_bytes() == seq![77u8, 73u8, 78u8, 79u8, 82u8],
        "DEVNAME".spec_bytes() == seq![68u8, 69u8, 86u8, 78u8, 65u8, 77u8, 69u8],
        "FIRMWARE".spec_bytes() == seq![70u8, 73u8, 82u8, 77u8, 87u8, 65u8, 82u8, 69u8],
        "PARTN".spec_bytes() == seq![80u8, 65u8, 82u8, 84u8, 78u8],
        "PARTNAME".spec_bytes() == seq![80u8, 65u8, 82u8, 84u8, 78u8, 65u8, 77u8, 69u8],
        "MODALIAS".spec_bytes() == seq![77u8, 79u8, 68u8, 65u8, 76u8, 73u8, 65u8, 83u8],
{
    reveal_strlit("ACTION");
    lemma_ascii_literal("ACTION", seq!['A', 'C', 'T', 'I', 'O', 'N']);
    assert("ACTION".spec_bytes() =~= seq![65u8, 67u8, 84u8, 73u8, 79u8, 78u8]);
    reveal_strlit("add");
    lemma_ascii_literal("add", seq!['a', 'd', 'd']);
    assert("add".spec_bytes() =~= seq![97u8, 100u8, 100u8]);
    reveal_strlit("remove");
    lemma_ascii_literal("remove", seq!['r', 'e', 'm', 'o', 'v', 'e']);
    assert("remove".spec_bytes() =~= seq![114u8, 101u8, 109u8, 111u8, 118u8, 101u8]);
    reveal_strlit("change");
    lemma_ascii_literal("change", seq!['c', 'h', 'a', 'n', 'g', 'e']);
    assert("change".spec_bytes() =~= seq![99u8, 104u8, 97u8, 110u8, 103u8, 101u8]);
    reveal_strlit("DEVPATH");
    lemma_ascii_literal("DEVPATH", seq!['D', 'E', 'V', 'P', 'A', 'T', 'H']);
    assert("DEVPATH".spec_bytes() =~= seq![68u8, 69u8, 86u8, 80u8, 65u8, 84u8, 72u8]);
    reveal_strlit("SUBSYSTEM");
    lemma_ascii_literal("SUBSYSTEM", seq!['S', 'U', 'B', 'S', 'Y', 'S', 'T', 'E', 'M']);
    assert("SUBSYSTEM".spec_bytes() =~= seq![83u8, 85u8, 66u8, 83u8, 89u8, 83u8, 84u8, 69u8, 77u8]);
    reveal_strlit("MAJOR");
    lemma_ascii_literal("MAJOR", seq!['M', 'A', 'J', 'O', 'R']);
    assert("MAJOR".spec_bytes() =~= seq![77u8, 65u8, 74u8, 79u8, 82u8]);
    reveal_strlit("MINOR");
    lemma_ascii_literal("MINOR", seq!['M', 'I', 'N', 'O', 'R']);
    assert("MINOR".spec_bytes() =~= seq![77u8, 73u8, 78u8, 79u8, 82u8]);
    reveal_strlit("DEVNAME");
    lemma_ascii_literal("DEVNAME", seq!['D', 'E', 'V', 'N', 'A', 'M', 'E']);
    assert("DEVNAME".spec_bytes() =~= seq![68u8, 69u8, 86u8, 78u8, 65u8, 77u8, 69u8]);
    reveal_strlit("FIRMWARE");
    lemma_ascii_literal("FIRMWARE", seq!['F', 'I', 'R', 'M', 'W', 'A', 'R', 'E']);
    assert("FIRMWARE".spec_bytes() =~= seq![70u8, 73u8, 82u8, 77u8, 87u8, 65u8, 82u8, 69u8]);
    reveal_strlit("PARTN");
    lemma_ascii_literal("PARTN", seq!['P', 'A', 'R', 'T', 'N']);
    assert("PARTN".spec_bytes() =~= seq![80u8, 65u8, 82u8, 84u8, 78u8]);
    reveal_strlit("PARTNAME");
    lemma_ascii_literal("PARTNAME", seq!['P', 'A', 'R', 'T', 'N', 'A', 'M', 'E']);
    assert("PARTNAME".spec_bytes() =~= seq![80u8, 65u8, 82u8, 84u8, 78u8, 65u8, 77u8, 69u8]);
    reveal_strlit("MODALIAS");
    lemma_ascii_literal("MODALIAS", seq!['M', 'O', 'D', 'A', 'L', 'I', 'A', 'S']);
    assert("MODALIAS".spec_bytes() =~= seq![77u8, 79u8, 68u8, 65u8, 76u8, 73u8, 65u8, 83u8]);
}

/// The lines of a payload made of a header and two NUL-terminated lines.
proof fn lemma_two_line_payload(header: Seq<u8>, first: Seq<u8>, second: Seq<u8>)
    requires
        forall|i: int| 0 <= i < header.len() ==> header[i] != 0,
        forall|i: int| 0 <= i < first.len() ==> first[i] != 0,
        forall|i: int| 0 <= i < second.len() ==> second[i] != 0,
    ensures
        split_by(header + seq![0u8] + first + seq![0u8] + second + seq![0u8], 0u8).drop_first()
            == seq![first, second, Seq::<u8>::empty()],
{
    let empty = Seq::<u8>::empty();
    let buf = header + seq![0u8] + first + seq![0u8] + second + seq![0u8];
    assert(buf =~= header.push(0u8) + (first.push(0u8) + (second.push(0u8) + empty)));
    lemma_split_concat(second, empty, 0u8);
    lemma_split_concat(first, second.push(0u8) + empty, 0u8);
    lemma_split_concat(header, first.push(0u8) + (second.push(0u8) + empty), 0u8);
    lemma_split_without_sep(header, 0u8);
    lemma_split_without_sep(first, 0u8);
    lemma_split_without_sep(second, 0u8);
    assert(split_by(buf, 0u8).drop_first() =~= seq![first, second, empty]);
}

/// A `KEY=VALUE` line with one `=` splits into the key and the value.
proof fn lemma_key_value(key: Seq<u8>, value: Seq<u8>)
    requires
        forall|i: int| 0 <= i < key.len() ==> key[i] != 0x3d,
        forall|i: int| 0 <= i < value.len() ==> value[i] != 0x3d,
    ensures
        split_by(key + seq![0x3du8] + value, 0x3du8) == seq![key, value],
{
    assert(key + seq![0x3du8] + value =~= key.push(0x3du8) + value);
    lemma_split_concat(key, value, 0x3du8);
    lemma_split_without_sep(key, 0x3du8);
    lemma_split_without_sep(value, 0x3du8);
    assert(seq![key] + seq![value] =~= seq![key, value]);
}

/// `ACTION=add` sets the action to `add`; `PARTNAME=<v>` sets the
/// sanitised partition name and nothing else.
proof fn lemma_fields_of_lines(e: UEventView, v: Seq<u8>)
    ensures
        apply_field(e, "ACTION".spec_bytes(), "add".spec_bytes()).action == Action::Add,
        apply_field(e, "PARTNAME".spec_bytes(), v) == (UEventView {
            partition_name: Some(sanitized(v)),
            ..e
        }),
{
    lemma_key_bytes();
    let k = "PARTNAME".spec_bytes();
    assert(k != "ACTION".spec_bytes() && k != "DEVPATH".spec_bytes() && k != "SUBSYSTEM".spec_bytes()
        && k != "MAJOR".spec_bytes() && k != "MINOR".spec_bytes() && k != "DEVNAME".spec_bytes()
        && k != "PARTN".spec_bytes()) by {
        assert(k.len() == 8);
    }
    assert(k != "FIRMWARE".spec_bytes()) by {
        assert(k[0] != "FIRMWARE".spec_bytes()[0]);
    }
}

/// The keys `ACTION` and `PARTNAME` and the value `add` hold neither NUL nor `=`.
proof fn lemma_line_bytes_plain()
    ensures
        forall|i: int|
            0 <= i < "ACTION".spec_bytes().len() ==> "ACTION".spec_bytes()[i] != 0
                && "ACTION".spec_bytes()[i] != 0x3d,
        forall|i: int|
            0 <= i < "add".spec_bytes().len() ==> "add".spec_bytes()[i] != 0 && "add".spec_bytes()[i]
                != 0x3d,
        forall|i: int|
            0 <= i < "PARTNAME".spec_bytes().len() ==> "PARTNAME".spec_bytes()[i] != 0
                && "PARTNAME".spec_bytes()[i] != 0x3d,
{
    lemma_key_bytes();
}

/// A payload whose lines after the header are `ACTION=add` and
/// `PARTNAME=<v>` parses to an `add` event whose partition name is `v`
/// sanitised: every byte outside `[A-Za-z0-9_.-]` becomes `_`.
pub proof fn lemma_partition_name_in_payload(header: Seq<u8>, v: Seq<u8>)
    requires
        forall|i: int| 0 <= i < header.len() ==> header[i] != 0,
        forall|i: int| 0 <= i < v.len() ==> v[i] != 0 && v[i] != 0x3d,
    ensures
        ({
            let buf = header + seq![0u8] + "ACTION".spec_bytes() + seq![0x3du8] + "add".spec_bytes()
                + seq![0u8] + "PARTNAME".spec_bytes() + seq![0x3du8] + v + seq![0u8];
            &&& payload_parses(buf)
            &&& payload_event(buf).action == Action::Add
            &&& payload_event(buf).partition_name == Some(sanitized(v))
        }),
{
    let key_a = "ACTION".spec_bytes();
    let val_a = "add".spec_bytes();
    let key_p = "PARTNAME".spec_bytes();
    lemma_line_bytes_plain();
    let line_a = key_a + seq![0x3du8] + val_a;
    let line_p = key_p + seq![0x3du8] + v;
    assert forall|i: int| 0 <= i < line_a.len() implies line_a[i] != 0 by {
        if i > key_a.len() {
            assert(line_a[i] == val_a[i - key_a.len() - 1]);
        }
    }
    assert forall|i: int| 0 <= i < line_p.len() implies line_p[i] != 0 by {
        if i > key_p.len() {
            assert(line_p[i] == v[i - key_p.len() - 1]);
        }
    }
    let buf = header + seq![0u8] + key_a + seq![0x3du8] + val_a + seq![0u8] + key_p + seq![0x3du8] + v
        + seq![0u8];
    assert(buf =~= header + seq![0u8] + line_a + seq![0u8] + line_p + seq![0u8]);
    lemma_two_line_payload(header, line_a, line_p);
    lemma_key_value(key_a, val_a);
    lemma_key_value(key_p, v);
    let empty = Seq::<u8>::empty();
    let lines = split_by(buf, 0u8).drop_first();
    assert(split_by(empty, 0x3du8) =~= seq![empty]);
    assert(lines.drop_last() =~= seq![line_a, line_p]);
    assert(lines.drop_last().drop_last() =~= seq![line_a]);
    assert(lines.drop_last().drop_last().drop_last() =~= Seq::<Seq<u8>>::empty());
    let e1 = apply_line(empty_event(), line_a);
    lemma_fields_of_lines(empty_event(), v);
    lemma_fields_of_lines(e1, v);
    let e2 = apply_line(e1, line_p);
    assert(apply_lines(lines.drop_last().drop_last().drop_last()) == empty_event());
    assert(apply_lines(lines.drop_last().drop_last()) == e1);
    assert(apply_lines(lines.drop_last()) == e2);
    assert(apply_line(e2, empty) == e2);
    assert(apply_lines(lines) == e2);
}

/// Accepts a netlink message only when the kernel broadcast it, then parses
/// its payload. `cred_uids` are the uids of the credentials that came with
/// the message, `sender` its source address when it is a netlink one.
/// Fails with `PermissionDenied` for any other sender and with
/// `InvalidData` for a payload that names no known action.
pub fn uevent_from_message(cred_uids: &[u32], sender: Option<NetlinkSender>, payload: &[u8]) -> (r:
    Result<UEvent, ErrorKind>)
    ensures
        !from_kernel(cred_uids@, sender) ==> (r matches Err(k) && k == ErrorKind::PermissionDenied),
        from_kernel(cred_uids@, sender) ==> (r is Ok <==> payload_parses(payload@)),
        from_kernel(cred_uids@, sender) ==> (r matches Ok(e) ==> e@ == payload_event(payload@)),
        from_kernel(cred_uids@, sender) ==> (r matches Err(k) ==> k == ErrorKind::InvalidData),
{
    let mut i: usize = 0;
    while i < cred_uids.len()
        invariant
            i <= cred_uids@.len(),
            forall|j: int| 0 <= j < i ==> cred_uids@[j] == 0,
        decreases cred_uids@.len() - i,
    {
        if cred_uids[i] != 0 {
            return Err(ErrorKind::PermissionDenied);
        }
        i = i + 1;
    }
    if cred_uids.len() == 0 {
        return Err(ErrorKind::PermissionDenied);
    }
    match sender {
        Some(s) => {
            if s.groups == 0 || s.pid != 0 {
                Err(ErrorKind::PermissionDenied)
            } else {
                UEvent::try_from(payload)
            }
        },
        None => Err(ErrorKind::PermissionDenied),
    }
}

/// The deepest sysfs directory a replay enters, in path components.
pub const MAX_REPLAY_COMPONENTS: usize = 5;

/// A replay enters a directory of at most `MAX_REPLAY_COMPONENTS` path
/// components, and nothing else.
pub fn should_replay(is_dir: bool, components: usize) -> (r: bool)
    ensures
        r == (is_dir && components <= MAX_REPLAY_COMPONENTS),
{
    is_dir && components <= MAX_REPLAY_COMPONENTS
}

/// An entry below the replayed directory is replayed in turn when it is not
/// a plain file and holds both a `uevent` and a `dev` file.
pub fn is_replay_child(is_file: bool, has_uevent: bool, has_dev: bool, is_start: bool) -> (r: bool)
    ensures
        r == (!is_file && has_uevent && has_dev && !is_start),
{
    !is_file && has_uevent && has_dev && !is_start
}

/// What a replay callback tells the sysfs walk to do next.
#[derive(Debug, Clone, Copy, PartialEq, Eq, Structural)]
pub enum UEventGenerateAction {
    Stop,
    Continue,
}

/// What the sysfs replay of one directory learned last.
#[derive(Debug, Clone, Copy, PartialEq, Eq, Structural)]
pub enum ReplayEvent {
    /// Writing `add` into the directory's `uevent` file succeeded or not.
    Wrote(bool),
    /// `poll` on the socket reported this many ready descriptors, or failed.
    Polled(Option<u32>),
    /// A uevent was received and accepted, or not.
    Received(bool),
    /// The predicate's answer on the event just received.
    Answered(UEventGenerateAction),
    /// What the replay of a child directory returned.
    ChildDone(UEventGenerateAction),
}

/// What the sysfs replay of one directory does next.
#[derive(Debug, Clone, Copy, PartialEq, Eq, Structural)]
pub enum ReplayAction {
    /// Poll the socket, with the drain timeout.
    Poll,
    /// Receive one uevent.
    Receive,
    /// Hand the received event to the predicate.
    AskPredicate,
    /// Replay the next child directory, or finish with `Continue` when none is left.
    NextChild,
    /// Return this answer from the replay of the directory.
    Finish(UEventGenerateAction),
}

/// One decision of the replay of a directory: after the `add` write, drain
/// the socket until `poll` reports nothing (or fails), asking the predicate
/// about every event received; stop at once when it answers `Stop`; then
/// replay the children in turn, passing a child's `Stop` upward.
pub fn replay_step(ev: ReplayEvent) -> (r: ReplayAction)
    ensures
        r == spec_replay_step(ev),
{
    match ev {
        ReplayEvent::Wrote(ok) => if ok {
            ReplayAction::Poll
        } else {
            ReplayAction::NextChild
        },
        ReplayEvent::Polled(n) => match n {
            Some(count) => if count == 0 {
                ReplayAction::NextChild
            } else {
                ReplayAction::Receive
            },
            None => ReplayAction::NextChild,
        },
        ReplayEvent::Received(ok) => if ok {
            ReplayAction::AskPredicate
        } else {
            ReplayAction::Poll
        },
        ReplayEvent::Answered(a) => match a {
            UEventGenerateAction::Stop => ReplayAction::Finish(UEventGenerateAction::Stop),
            UEventGenerateAction::Continue => ReplayAction::Poll,
        },
        ReplayEvent::ChildDone(a) => match a {
            UEventGenerateAction::Stop => ReplayAction::Finish(UEventGenerateAction::Stop),
            UEventGenerateAction::Continue => ReplayAction::NextChild,
        },
    }
}

/// The predicate's answers during a drain, in order, lead the replay to
/// finish with `Stop` right after the first `Stop` answer and to ask
/// nothing more: every answer before it led back to polling.
pub proof fn lemma_replay_stops_at_first_stop(answers: Seq<UEventGenerateAction>, k: int)
    requires
        0 <= k < answers.len(),
        answers[k] == UEventGenerateAction::Stop,
        forall|j: int| 0 <= j < k ==> answers[j] == UEventGenerateAction::Continue,
    ensures
        forall|j: int|
            0 <= j < k ==> spec_replay_step(ReplayEvent::Answered(answers[j])) == ReplayAction::Poll,
        spec_replay_step(ReplayEvent::Answered(answers[k])) == ReplayAction::Finish(
            UEventGenerateAction::Stop,
        ),
{
}

/// The decision `replay_step` makes.
pub open spec fn spec_replay_step(ev: ReplayEvent) -> ReplayAction {
    match ev {
        ReplayEvent::Wrote(ok) => if ok {
            ReplayAction::Poll
        } else {
            ReplayAction::NextChild
        },
        ReplayEvent::Polled(n) => if n is None || n == Some(0u32) {
            ReplayAction::NextChild
        } else {
            ReplayAction::Receive
        },
        ReplayEvent::Received(ok) => if ok {
            ReplayAction::AskPredicate
        } else {
            ReplayAction::Poll
        },
        ReplayEvent::Answered(a) => if a == UEventGenerateAction::Stop {
            ReplayAction::Finish(UEventGenerateAction::Stop)
        } else {
            ReplayAction::Poll
        },
        ReplayEvent::ChildDone(a) => if a == UEventGenerateAction::Stop {
            ReplayAction::Finish(UEventGenerateAction::Stop)
        } else {
            ReplayAction::NextChild
        },
    }
}

} // verus!
