//! Extension extraction from plain file names.
//!
//! A file name splits at its last dot: what follows the dot is the
//! extension. A name without a dot has none, and neither has a name
//! whose only dot leads it (a hidden file such as `.config`), matching
//! how the standard library reads a path's extension.

use vstd::prelude::*;

verus! {

use vstd::string::StrSliceExecFns;

/// The position of the last `.` in `name`, or `-1` when there is none.
pub open spec fn last_dot(name: Seq<char>) -> int
    decreases name.len(),
{
    if name.len() == 0 {
        -1
    } else if name.last() == '.' {
        name.len() - 1
    } else {
        last_dot(name.drop_last())
    }
}

/// The extension of a file name: the characters after the last dot,
/// provided that dot exists and is not the leading character.
pub open spec fn spec_extension_of(name: Seq<char>) -> Option<Seq<char>> {
    if last_dot(name) >= 1 {
        Some(name.subrange(last_dot(name) + 1, name.len() as int))
    } else {
        None
    }
}

/// Extracts the extension of a file name, or `None` when the name has
/// no dot, or only a leading one.
pub fn extension_of(name: &str) -> (r: Option<String>)
    ensures
        match r {
            Some(e) => spec_extension_of(name@) == Some(e@),
            None => spec_extension_of(name@) is None,
        },
{
    let n = name.unicode_len();
    proof {
        assert(name@.take(n as int) =~= name@);
    }
    let mut j = n;
    while j > 0
        invariant
            j <= n,
            n == name@.len(),
            last_dot(name@) == last_dot(name@.take(j as int)),
        decreases j,
    {
        j = j - 1;
        proof {
            assert(name@.take(j as int + 1).last() == name@[j as int]);
            assert(name@.take(j as int + 1).drop_last() =~= name@.take(j as int));
        }
        if name.get_char(j) == '.' {
            if j == 0 {
                return None;
            }
            let ext = name.substring_char(j + 1, n);
            return Some(ext.to_owned());
        }
    }
    proof {
        assert(name@.take(0) =~= Seq::<char>::empty());
    }
    None
}

} // verus!
