//! File attributes given to the device nodes and directories created early.
use vstd::prelude::*;

verus! {

/// Owner, group and permission bits of a file.
#[derive(Debug, Clone, Copy, PartialEq, Eq, Structural)]
pub struct FileAttributes {
    pub owner: u32,
    pub group: u32,
    pub mode: u32,
}

/// Root-owned, readable and writable by the owner only.
pub fn root_only_attributes() -> (r: FileAttributes)
    ensures
        r == (FileAttributes { owner: 0, group: 0, mode: 0o600 }),
{
    FileAttributes { owner: 0, group: 0, mode: 0o600 }
}

/// The policy that decides the attributes of files created early.
pub trait DefaultAttributes {
    /// The attributes of the file at `path`; by default every file is
    /// owned by root with mode 0600.
    fn get_file_attributes(path: &str) -> FileAttributes {
        root_only_attributes()
    }
}

/// The policy that keeps the defaults.
pub struct DefaultImpl;

impl DefaultAttributes for DefaultImpl {

}

} // verus!
