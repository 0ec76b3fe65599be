//! The dm-verity target of a protected partition.
use vstd::prelude::*;

use crate::error::CoreError;
use crate::path::{file_name, path_file_name};
use crate::text::{chars_eq, chars_of, decimal, push_chars, push_decimal, string_of};

verus! {

/// The hash-tree parameters recorded for one protected partition.
#[derive(Debug, Clone)]
pub struct VerityEntry {
    /// The partition's file name, as in `/dev/block/by-name/<name>`.
    pub partition_name: String,
    pub data_block_size: u32,
    pub hash_block_size: u32,
    pub num_blocks: u64,
    pub hash_start: u64,
    pub algorithm: String,
    pub digest: Vec<u8>,
    pub salt: Vec<u8>,
}

/// One segment of a device-mapper table.
#[derive(Debug, Clone)]
pub struct DmTarget {
    pub start: u64,
    pub length: u64,
    pub target_type: String,
    pub params: String,
}

/// The lowercase hexadecimal digit of a value below 16.
pub open spec fn hex_digit(n: nat) -> char {
    if n < 10 {
        ((n + 0x30) as u8) as char
    } else {
        ((n - 10 + 0x61) as u8) as char
    }
}

/// Each byte as two lowercase hexadecimal digits, high nibble first.
pub open spec fn hex_lower(b: Seq<u8>) -> Seq<char> {
    Seq::new(
        2 * b.len(),
        |i: int|
            if i % 2 == 0 {
                hex_digit((b[i / 2] / 16) as nat)
            } else {
                hex_digit((b[i / 2] % 16) as nat)
            },
    )
}

/// Relies on `hex::encode`: two lowercase hexadecimal digits per byte,
/// high nibble first.
#[verifier::external_body]
fn hex_encode(b: &[u8]) -> (r: String)
    ensures
        r@ == hex_lower(b@),
{
    hex::encode(b)
}

/// The table parameters of a verity target: version 1, the data and hash
/// devices, block sizes, block count, hash start, algorithm, digest and
/// salt, separated by spaces.
pub open spec fn spec_table_row(protected: Seq<char>, verity: Seq<char>, e: VerityEntry) -> Seq<char> {
    "1 "@ + protected + seq![' '] + verity + seq![' '] + decimal(e.data_block_size as nat) + seq![
        ' ',
    ] + decimal(e.hash_block_size as nat) + seq![' '] + decimal(e.num_blocks as nat) + seq![' ']
        + decimal(e.hash_start as nat) + seq![' '] + e.algorithm@ + seq![' '] + hex_lower(
        e.digest@,
    ) + seq![' '] + hex_lower(e.salt@)
}

/// The verity table parameters for `protected`, checked against the hash
/// tree on `verity`.
pub fn verity_table_row(protected: &str, verity: &str, entry: &VerityEntry) -> (r: String)
    ensures
        r@ == spec_table_row(protected@, verity@, *entry),
{
    let space = vec![' '];
    let mut r = String::new();
    push_chars(&mut r, chars_of("1 ").as_slice());
    push_chars(&mut r, chars_of(protected).as_slice());
    push_chars(&mut r, space.as_slice());
    push_chars(&mut r, chars_of(verity).as_slice());
    push_chars(&mut r, space.as_slice());
    push_decimal(&mut r, entry.data_block_size as u64);
    push_chars(&mut r, space.as_slice());
    push_decimal(&mut r, entry.hash_block_size as u64);
    push_chars(&mut r, space.as_slice());
    push_decimal(&mut r, entry.num_blocks);
    push_chars(&mut r, space.as_slice());
    push_decimal(&mut r, entry.hash_start);
    push_chars(&mut r, space.as_slice());
    push_chars(&mut r, chars_of(entry.algorithm.as_str()).as_slice());
    push_chars(&mut r, space.as_slice());
    let d = hex_encode(entry.digest.as_slice());
    push_chars(&mut r, chars_of(d.as_str()).as_slice());
    push_chars(&mut r, space.as_slice());
    let s = hex_encode(entry.salt.as_slice());
    push_chars(&mut r, chars_of(s.as_str()).as_slice());
    r
}

/// The single read-only segment that maps `size_bytes` of `protected`
/// through verity.
pub fn verity_target(protected: &str, verity: &str, size_bytes: u64, entry: &VerityEntry) -> (r:
    DmTarget)
    ensures
        r.start == 0,
        r.length == size_bytes,
        r.target_type@ == "verity"@,
        r.params@ == spec_table_row(protected@, verity@, *entry),
{
    DmTarget {
        start: 0,
        length: size_bytes,
        target_type: string_of(chars_of("verity").as_slice()),
        params: verity_table_row(protected, verity, entry),
    }
}

/// The entry recorded for the partition at the fstab path `fs_spec`,
/// looked up by the path's file name. A path without a file name is
/// refused with `InvalidArgument`; a partition without an entry gives
/// `DMError`.
pub fn find_verity_entry(entries: &Vec<VerityEntry>, fs_spec: &str) -> (r: Result<usize, CoreError>)
    ensures
        file_name(fs_spec@) is None ==> r == Err::<usize, CoreError>(CoreError::InvalidArgument),
        file_name(fs_spec@) matches Some(n) ==> match r {
            Ok(i) => i < entries@.len() && entries@[i as int].partition_name@ == n && forall|k: int|
                0 <= k < i ==> entries@[k].partition_name@ != n,
            Err(e) => e == CoreError::DMError && forall|k: int|
                0 <= k < entries@.len() ==> entries@[k].partition_name@ != n,
        },
{
    let name = match path_file_name(chars_of(fs_spec).as_slice()) {
        Some(n) => n,
        None => return Err(CoreError::InvalidArgument),
    };
    let mut i: usize = 0;
    while i < entries.len()
        invariant
            i <= entries@.len(),
            file_name(fs_spec@) == Some(name@),
            forall|k: int| 0 <= k < i ==> entries@[k].partition_name@ != name@,
        decreases entries@.len() - i,
    {
        let p = chars_of(entries[i].partition_name.as_str());
        if chars_eq(p.as_slice(), name.as_slice()) {
            return Ok(i);
        }
        i = i + 1;
    }
    Err(CoreError::DMError)
}

} // verus!
