//! The patterns by which the entries of a tree are enumerated.

use vstd::prelude::*;

verus! {

/// The text `/*`, `levels` times over: one wildcard for each level below the
/// root.
pub open spec fn level_wildcards(levels: nat) -> Seq<char>
    decreases levels,
{
    if levels == 0 {
        Seq::empty()
    } else {
        level_wildcards((levels - 1) as nat) + "/*"@
    }
}

/// The pattern for the entries under `path`: without a depth, all of them,
/// at every level; with depth `d`, those exactly `d` levels below `path`.
pub open spec fn glob_pattern(path: Seq<char>, depth: Option<u8>) -> Seq<char> {
    match depth {
        None => path + "/**/*"@,
        Some(d) => path + level_wildcards(d as nat),
    }
}

/// The patterns that together enumerate the entries under `path` within a
/// depth limit: without a limit, the one pattern for all entries; with the
/// limit `d`, one pattern for each of the levels 1 to `d`, in this order. A
/// limit of 0 has no pattern, and so no entries.
pub open spec fn listing_patterns(path: Seq<char>, depth: Option<u8>) -> Seq<Seq<char>> {
    match depth {
        None => seq![glob_pattern(path, None)],
        Some(d) => Seq::new(d as nat, |k: int| path + level_wildcards((k + 1) as nat)),
    }
}

/// Builds the pattern for the entries under the directory `path_buf`:
/// without a depth, all of them; with depth `d`, those exactly `d` levels
/// below the directory, which for 0 is the directory itself.
pub fn glob_pattern_from_path_buf(path_buf: &str, depth: Option<u8>) -> (pattern: String)
    ensures
        pattern@ == glob_pattern(path_buf@, depth),
{
    let mut pattern = String::from_str(path_buf);
    match depth {
        None => {
            pattern.append("/**/*");
        },
        Some(d) => {
            let mut level: u8 = 0;
            while level < d
                invariant
                    0 <= level <= d,
                    pattern@ == path_buf@ + level_wildcards(level as nat),
                decreases d - level,
            {
                pattern.append("/*");
                level += 1;
            }
        },
    }
    pattern
}

/// Builds the patterns whose matches, taken together, are the entries of the
/// tree under `path_buf` within the depth limit. With a limit, the entries of
/// all levels down to the limit are wanted, and one pattern matches one level.
pub fn glob_patterns(path_buf: &str, depth: Option<u8>) -> (patterns: Vec<String>)
    ensures
        patterns.deep_view() == listing_patterns(path_buf@, depth),
{
    let mut patterns: Vec<String> = Vec::new();
    match depth {
        None => {
            patterns.push(glob_pattern_from_path_buf(path_buf, None));
        },
        Some(d) => {
            let mut level: u8 = 0;
            while level < d
                invariant
                    0 <= level <= d,
                    patterns.len() == level,
                    forall|k: int|
                        0 <= k < level ==> #[trigger] patterns.deep_view()[k] == path_buf@
                            + level_wildcards((k + 1) as nat),
                decreases d - level,
            {
                let ghost before = patterns.deep_view();
                level += 1;
                let pattern = glob_pattern_from_path_buf(path_buf, Some(level));
                patterns.push(pattern);
                proof {
                    assert(patterns.deep_view() =~= before.push(pattern@));
                }
            }
        },
    }
    patterns
}

} // verus!
