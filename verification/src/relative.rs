//! Paths relative to the root of their tree, and how deep they lie in it.
//!
//! A path is text, and `/` stands between its components.

use crate::order::{compare_paths, PathOrder};
use vstd::prelude::*;
use vstd::std_specs::iter::IteratorSpec;

verus! {

/// The text with which every path under `root` begins: the root, ending in
/// one separator.
pub open spec fn root_prefix(root: Seq<char>) -> Seq<char> {
    if root.len() > 0 && root.last() == '/' {
        root
    } else {
        root.push('/')
    }
}

/// A path of a single component: a name without a separator.
pub open spec fn is_bare_name(entry: Seq<char>) -> bool {
    entry.len() > 0 && !entry.contains('/')
}

/// `entry` lies under `root`: it is the root's prefix and then something more.
pub open spec fn is_under(root: Seq<char>, entry: Seq<char>) -> bool {
    root_prefix(root).len() < entry.len() && entry.take(root_prefix(root).len() as int)
        == root_prefix(root)
}

/// The path of `entry` relative to `root`. A bare name is relative already
/// and stands for itself; an entry under the root loses the root's prefix; any
/// other entry is no entry of the tree.
pub open spec fn relative_to(root: Seq<char>, entry: Seq<char>) -> Option<Seq<char>> {
    if is_bare_name(entry) {
        Some(entry)
    } else if is_under(root, entry) {
        Some(entry.skip(root_prefix(root).len() as int))
    } else {
        None
    }
}

/// The number of separators in a path.
pub open spec fn separator_count(path: Seq<char>) -> nat
    decreases path.len(),
{
    if path.len() == 0 {
        0
    } else {
        separator_count(path.drop_last()) + if path.last() == '/' {
            1nat
        } else {
            0nat
        }
    }
}

/// The number of levels that a relative path lies below the root: 1 for an
/// immediate child, one more for each separator.
pub open spec fn path_depth(relative: Seq<char>) -> nat {
    separator_count(relative) + 1
}

/// A relative path lies within the depth limit; without a limit every path
/// does.
pub open spec fn within_depth(relative: Seq<char>, depth: Option<u8>) -> bool {
    match depth {
        None => true,
        Some(d) => path_depth(relative) <= d,
    }
}

/// Counts the separators in a path.
pub fn count_separators(path: &str) -> (count: usize)
    ensures
        count == separator_count(path@),
{
    broadcast use vstd::string::group_string_axioms;

    let len = path.unicode_len();
    let mut rest = path.chars();
    let mut count: usize = 0;
    let ghost mut i: int = 0;
    loop
        invariant
            0 <= i <= path@.len(),
            len == path@.len(),
            rest.obeys_prophetic_iter_laws(),
            rest.remaining() == path@.skip(i),
            count == separator_count(path@.take(i)),
            count <= i,
        decreases path@.len() - i,
    {
        match rest.next() {
            None => {
                proof {
                    assert(path@.take(i) =~= path@);
                }
                return count;
            },
            Some(c) => {
                proof {
                    assert(path@.take(i + 1).drop_last() =~= path@.take(i));
                    i = i + 1;
                }
                if c == '/' {
                    count += 1;
                }
            },
        }
    }
}

/// Says whether a relative path lies within the depth limit.
pub fn is_within_depth(relative: &str, depth: Option<u8>) -> (within: bool)
    ensures
        within == within_depth(relative@, depth),
{
    match depth {
        None => true,
        Some(d) => count_separators(relative) < d as usize,
    }
}

/// Says whether a path holds a separator.
pub fn contains_separator(path: &str) -> (found: bool)
    ensures
        found == path@.contains('/'),
{
    broadcast use vstd::string::group_string_axioms;

    let mut rest = path.chars();
    let ghost mut i: int = 0;
    loop
        invariant
            0 <= i <= path@.len(),
            rest.obeys_prophetic_iter_laws(),
            rest.remaining() == path@.skip(i),
            forall|k: int| 0 <= k < i ==> path@[k] != '/',
        decreases path@.len() - i,
    {
        match rest.next() {
            None => {
                return false;
            },
            Some(c) => {
                if c == '/' {
                    return true;
                }
                proof {
                    i = i + 1;
                }
            },
        }
    }
}

/// The path of `entry` relative to `root`, or `None` where `entry` is neither
/// a bare name nor under the root.
pub fn relative_path(root: &str, entry: &str) -> (relative: Option<String>)
    ensures
        match relative {
            Some(text) => relative_to(root@, entry@) == Some(text@),
            None => relative_to(root@, entry@) is None,
        },
{
    let entry_len = entry.unicode_len();
    if entry_len > 0 && !contains_separator(entry) {
        return Some(entry.to_owned());
    }
    let root_len = root.unicode_len();
    let closed = root_len > 0 && root.get_char(root_len - 1) == '/';
    if root_len >= entry_len {
        return None;
    }
    let prefix_len = if closed {
        root_len
    } else {
        root_len + 1
    };
    if prefix_len >= entry_len {
        return None;
    }
    let head = entry.substring_char(0, root_len);
    match compare_paths(head, root) {
        PathOrder::Same => {},
        _ => {
            proof {
                assert(entry@.take(prefix_len as int).take(root_len as int) =~= entry@.take(
                    root_len as int,
                ));
                assert(root_prefix(root@).take(root_len as int) =~= root@);
            }
            return None;
        },
    }
    if !closed {
        if entry.get_char(root_len) != '/' {
            proof {
                assert(entry@.take(prefix_len as int)[root_len as int] == entry@[root_len as int]);
            }
            return None;
        }
    }
    proof {
        assert(entry@.take(prefix_len as int) =~= root_prefix(root@));
    }
    Some(entry.substring_char(prefix_len, entry_len).to_owned())
}

} // verus!
