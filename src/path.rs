//! Paths as component sequences, in the way `std::path::Path` reads a Unix path.
use vstd::prelude::*;

use crate::text::{chars_eq, split_by, split_chars, views};

verus! {

/// A segment that names something: not empty and not `.`.
pub open spec fn is_named_segment(s: Seq<char>) -> bool {
    s.len() > 0 && s != seq!['.']
}

/// The named segments of `segs`, in order.
pub open spec fn named_segments(segs: Seq<Seq<char>>) -> Seq<Seq<char>>
    decreases segs.len(),
{
    if segs.len() == 0 {
        seq![]
    } else {
        let p = named_segments(segs.drop_last());
        if is_named_segment(segs.last()) {
            p.push(segs.last())
        } else {
            p
        }
    }
}

/// The components of a path: `/` for the root of an absolute path, `.`
/// for a leading `./` of a relative one, then the segments between slashes
/// that are neither empty nor `.`.
pub open spec fn path_components(p: Seq<char>) -> Seq<Seq<char>> {
    let segs = split_by(p, '/');
    if p.len() > 0 && p[0] == '/' {
        seq![seq!['/']] + named_segments(segs)
    } else if segs[0] == seq!['.'] {
        seq![seq!['.']] + named_segments(segs.drop_first())
    } else {
        named_segments(segs)
    }
}

/// The last component of `p` when it is a name (not the root, `.` or `..`).
pub open spec fn file_name(p: Seq<char>) -> Option<Seq<char>> {
    let c = path_components(p);
    if c.len() > 0 && c.last() != seq!['/'] && c.last() != seq!['.'] && c.last() != seq!['.', '.'] {
        Some(c.last())
    } else {
        None
    }
}

proof fn lemma_named_segments_skip(segs: Seq<Seq<char>>, from: int, i: int)
    requires
        0 <= from <= i < segs.len(),
    ensures
        named_segments(segs.subrange(from, i + 1)) == if is_named_segment(segs[i]) {
            named_segments(segs.subrange(from, i)).push(segs[i])
        } else {
            named_segments(segs.subrange(from, i))
        },
{
    assert(segs.subrange(from, i + 1).drop_last() =~= segs.subrange(from, i));
}

/// The components of the path `p`.
pub fn components(p: &[char]) -> (r: Vec<Vec<char>>)
    ensures
        views(r@) == path_components(p@),
{
    let segs = split_chars(p, '/');
    proof {
        crate::text::lemma_split_by_len(p@, '/');
    }
    let mut out: Vec<Vec<char>> = Vec::new();
    let mut from: usize = 0;
    let dot = vec!['.'];
    assert(dot@ == seq!['.']);
    if p.len() > 0 && p[0] == '/' {
        let root = vec!['/'];
        assert(root@ == seq!['/']);
        out.push(root);
        assert(views(out@) =~= seq![seq!['/']]);
    } else if chars_eq(segs[0].as_slice(), dot.as_slice()) {
        let cur = vec!['.'];
        assert(cur@ == seq!['.']);
        out.push(cur);
        assert(views(out@) =~= seq![seq!['.']]);
        from = 1;
    } else {
        assert(views(out@) =~= Seq::<Seq<char>>::empty());
    }
    let ghost lead = views(out@);
    assert(views(segs@)[0] == segs@[0]@);

    let mut i: usize = from;
    assert(segs@.subrange(from as int, from as int) =~= Seq::<Vec<char>>::empty());
    assert(views(segs@).subrange(from as int, from as int) =~= Seq::<Seq<char>>::empty());
    assert(views(out@) =~= lead + named_segments(views(segs@).subrange(from as int, i as int)));
    while i < segs.len()
        invariant
            from <= i <= segs@.len(),
            dot@ == seq!['.'],
            views(segs@) == split_by(p@, '/'),
            segs@.len() >= 1,
            p@.len() > 0 && p@[0] == '/' ==> lead == seq![seq!['/']] && from == 0,
            !(p@.len() > 0 && p@[0] == '/') && views(segs@)[0] == seq!['.'] ==> lead == seq![
                seq!['.'],
            ] && from == 1,
            !(p@.len() > 0 && p@[0] == '/') && views(segs@)[0] != seq!['.'] ==> lead == Seq::<
                Seq<char>,
            >::empty() && from == 0,
            views(out@) == lead + named_segments(views(segs@).subrange(from as int, i as int)),
        decreases segs@.len() - i,
    {
        proof {
            lemma_named_segments_skip(views(segs@), from as int, i as int);
        }
        let keep = segs[i].len() > 0 && !chars_eq(segs[i].as_slice(), dot.as_slice());
        assert(keep == is_named_segment(views(segs@)[i as int]));
        if keep {
            let s = segs[i].clone();
            proof {
                assert(views(out@.push(s)) =~= views(out@).push(s@));
            }
            out.push(s);
        }
        i = i + 1;
    }
    proof {
        let vs = views(segs@);
        assert(vs.subrange(0, vs.len() as int) =~= vs);
        assert(vs.subrange(1, vs.len() as int) =~= vs.drop_first());
    }
    out
}

/// The file name of the path `p`: its last component, when that is a name.
pub fn path_file_name(p: &[char]) -> (r: Option<Vec<char>>)
    ensures
        match r {
            Some(v) => file_name(p@) == Some(v@),
            None => file_name(p@) is None,
        },
{
    let c = components(p);
    let n = c.len();
    if n == 0 {
        return None;
    }
    assert(views(c@).last() == c@[n - 1]@);
    let last = &c[n - 1];
    let root = vec!['/'];
    let cur = vec!['.'];
    let parent = vec!['.', '.'];
    assert(root@ == seq!['/'] && cur@ == seq!['.'] && parent@ == seq!['.', '.']);
    if chars_eq(last.as_slice(), root.as_slice()) || chars_eq(last.as_slice(), cur.as_slice())
        || chars_eq(last.as_slice(), parent.as_slice()) {
        None
    } else {
        Some(last.clone())
    }
}

} // verus!
