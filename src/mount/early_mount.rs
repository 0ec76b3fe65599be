//! Reading what the early mounts need from the kernel's pseudo files.
use vstd::prelude::*;

use crate::text::{
    chars_eq, chars_of, parse_u32, spec_parse_u32, split_by, split_chars, trim, trim_chars, views,
};

verus! {

/// The major number of the device-mapper control node.
pub const DEVICE_MAPPER_MAJOR: u32 = 10;

/// For a line of `/proc/misc` (`<minor> <name>`, after trimming) that names
/// `device-mapper`: the parsed minor number.
pub open spec fn misc_line_minor(line: Seq<char>) -> Option<Option<u32>> {
    let fields = split_by(trim(line), ' ');
    if fields.len() >= 2 && fields[1] == "device-mapper"@ {
        Some(spec_parse_u32(fields[0]))
    } else {
        None
    }
}

/// The minor number given by the first line of `lines` that names
/// `device-mapper`; none when there is no such line or its number does not parse.
pub open spec fn first_device_mapper_minor(lines: Seq<Seq<char>>) -> Option<u32>
    decreases lines.len(),
{
    if lines.len() == 0 {
        None
    } else {
        match misc_line_minor(lines[0]) {
            Some(m) => m,
            None => first_device_mapper_minor(lines.drop_first()),
        }
    }
}

/// The minor number of the device-mapper control node, read from the text
/// of `/proc/misc`.
pub fn device_mapper_minor(proc_misc: &str) -> (r: Option<u32>)
    ensures
        r == first_device_mapper_minor(split_by(proc_misc@, '\n')),
{
    let text = chars_of(proc_misc);
    let lines = split_chars(text.as_slice(), '\n');
    let ghost ls = split_by(proc_misc@, '\n');
    let name = chars_of("device-mapper");
    let mut i: usize = 0;
    assert(ls.skip(0) =~= ls);
    while i < lines.len()
        invariant
            i <= lines@.len(),
            views(lines@) == ls,
            ls == split_by(proc_misc@, '\n'),
            name@ == "device-mapper"@,
            first_device_mapper_minor(ls) == first_device_mapper_minor(ls.skip(i as int)),
        decreases lines@.len() - i,
    {
        assert(ls.skip(i as int)[0] == lines@[i as int]@);
        assert(ls.skip(i as int).drop_first() =~= ls.skip(i + 1));
        let t = trim_chars(lines[i].as_slice());
        let fields = split_chars(t.as_slice(), ' ');
        if fields.len() >= 2 && chars_eq(fields[1].as_slice(), name.as_slice()) {
            assert(views(fields@)[1] == fields@[1]@ && views(fields@)[0] == fields@[0]@);
            return parse_u32(fields[0].as_slice());
        }
        proof {
            if views(fields@).len() >= 2 {
                assert(views(fields@)[1] == fields@[1]@);
            }
        }
        i = i + 1;
    }
    assert(ls.skip(i as int) =~= Seq::<Seq<char>>::empty());
    None
}

} // verus!
