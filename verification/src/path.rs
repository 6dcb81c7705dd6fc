//! Path segments and how they are joined.

use vstd::prelude::*;
use vstd::string::*;

verus! {

/// A name that can stand as one segment of a path and names a directory of
/// its own below the one it is joined to: it is not empty, it is neither
/// `.` nor `..`, and it holds neither a separator nor a NUL.
pub open spec fn is_safe_segment(name: Seq<char>) -> bool {
    &&& name.len() > 0
    &&& name != seq!['.']
    &&& name != seq!['.', '.']
    &&& forall|i: int| 0 <= i < name.len() ==> name[i] != '/' && name[i] != '\0'
}

/// The path of `segment` below `base`. A separator is put between the two
/// unless `base` is empty or ends in one.
pub open spec fn child_path(base: Seq<char>, segment: Seq<char>) -> Seq<char> {
    if base.len() == 0 || base.last() == '/' {
        base + segment
    } else {
        base + seq!['/'] + segment
    }
}

/// Whether `name` is a safe path segment.
pub fn is_safe_name(name: &str) -> (safe: bool)
    ensures
        safe == is_safe_segment(name@),
{
    // The number of characters seen, counted up to three.
    let mut seen: u8 = 0;
    let mut only_dots = true;
    let mut clean = true;
    for c in iter: name.chars()
        invariant
            iter.seq() == name@,
            seen == if iter.index() < 3 { iter.index() } else { 3 },
            only_dots <==> forall|i: int| 0 <= i < iter.index() ==> name@[i] == '.',
            clean <==> forall|i: int|
                0 <= i < iter.index() ==> name@[i] != '/' && name@[i] != '\0',
    {
        if c == '/' || c == '\0' {
            clean = false;
        }
        if c != '.' {
            only_dots = false;
        }
        if seen < 3 {
            seen = seen + 1;
        }
    }
    proof {
        if only_dots && seen == 1 {
            assert(name@ =~= seq!['.']);
        }
        if only_dots && seen == 2 {
            assert(name@ =~= seq!['.', '.']);
        }
        if name@ == seq!['.'] {
            assert(name@.len() == 1 && name@[0] == '.');
        }
        if name@ == seq!['.', '.'] {
            assert(name@.len() == 2 && name@[0] == '.' && name@[1] == '.');
        }
    }
    clean && seen > 0 && !(only_dots && seen <= 2)
}

/// Joins `segment` to `base`.
pub fn join(base: &str, segment: &str) -> (path: String)
    ensures
        path@ == child_path(base@, segment@),
{
    proof {
        reveal_strlit("/");
    }
    let mut path = String::from_str(base);
    let length = base.unicode_len();
    if length > 0 && base.get_char(length - 1) != '/' {
        path.append("/");
    }
    path.append(segment);
    path
}

/// Below a path that ends in a safe segment, a joined segment always
/// follows a separator.
pub proof fn lemma_child_of_safe(base: Seq<char>, name: Seq<char>, segment: Seq<char>)
    requires
        is_safe_segment(name),
    ensures
        child_path(child_path(base, name), segment) == child_path(base, name) + seq!['/']
            + segment,
{
    let dir = child_path(base, name);
    assert(dir.last() == name.last());
}

} // verus!
