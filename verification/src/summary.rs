//! The counts of a diff and the line that sums it up.

use crate::diff::{added_paths, common_paths, removed_paths, ContentStatus, DiffEntry, DirDiff};
use vstd::prelude::*;

verus! {

/// How many entries of each kind a diff holds.
#[derive(Clone, Copy, Debug, PartialEq, Eq, Structural)]
pub struct DiffCounts {
    /// Paths only in the source tree.
    pub removed: usize,
    /// Paths only in the target tree.
    pub added: usize,
    /// Paths in both trees, whatever is known of their content.
    pub common: usize,
    /// Common paths whose content is the same.
    pub unchanged: usize,
    /// Common paths whose content has changed.
    pub changed: usize,
}

/// The number of `Common` entries of a diff that have the given status.
pub open spec fn status_count(diff: Seq<DiffEntry>, status: ContentStatus) -> nat
    decreases diff.len(),
{
    if diff.len() == 0 {
        0
    } else {
        status_count(diff.drop_first(), status) + match diff[0] {
            DiffEntry::Common(_, s) => if s == status {
                1nat
            } else {
                0nat
            },
            _ => 0nat,
        }
    }
}

/// The model of `DiffCounts`: the same counts as natural numbers.
pub struct CountsModel {
    pub removed: nat,
    pub added: nat,
    pub common: nat,
    pub unchanged: nat,
    pub changed: nat,
}

impl View for DiffCounts {
    type V = CountsModel;

    open spec fn view(&self) -> CountsModel {
        CountsModel {
            removed: self.removed as nat,
            added: self.added as nat,
            common: self.common as nat,
            unchanged: self.unchanged as nat,
            changed: self.changed as nat,
        }
    }
}

/// The counts of a diff.
pub open spec fn counts_of(diff: Seq<DiffEntry>) -> CountsModel {
    CountsModel {
        removed: removed_paths(diff).len(),
        added: added_paths(diff).len(),
        common: common_paths(diff).len(),
        unchanged: status_count(diff, ContentStatus::Unchanged),
        changed: status_count(diff, ContentStatus::Changed),
    }
}

/// The decimal digit of a number below ten.
pub open spec fn digit_char(d: nat) -> char {
    if d == 0 {
        '0'
    } else if d == 1 {
        '1'
    } else if d == 2 {
        '2'
    } else if d == 3 {
        '3'
    } else if d == 4 {
        '4'
    } else if d == 5 {
        '5'
    } else if d == 6 {
        '6'
    } else if d == 7 {
        '7'
    } else if d == 8 {
        '8'
    } else {
        '9'
    }
}

/// A number in decimal digits, without leading zeros.
pub open spec fn decimal(n: nat) -> Seq<char>
    decreases n,
{
    if n < 10 {
        seq![digit_char(n)]
    } else {
        decimal(n / 10).push(digit_char(n % 10))
    }
}

/// What the summary says of the common paths: nothing where they are hidden;
/// else their number, and with content comparison the numbers of the
/// unchanged and of the changed files.
pub open spec fn similar_text(counts: CountsModel, hide_similarities: bool, compare: bool) -> Seq<
    char,
> {
    if hide_similarities {
        Seq::empty()
    } else if compare {
        ", "@ + decimal(counts.common) + " similar, "@ + decimal(counts.unchanged)
            + " files unchanged, "@ + decimal(counts.changed) + " files changed"@
    } else {
        ", "@ + decimal(counts.common) + " similar"@
    }
}

/// The summary of a diff: the numbers of removed and of added paths, and then
/// what is said of the common paths.
pub open spec fn summary_text(counts: CountsModel, hide_similarities: bool, compare: bool) -> Seq<
    char,
> {
    decimal(counts.removed) + " removed, "@ + decimal(counts.added) + " added"@
        + similar_text(counts, hide_similarities, compare)
}

/// Counts the entries of a diff by kind.
pub fn count_dir_diff(dir_diff: &Vec<DirDiff>) -> (counts: DiffCounts)
    ensures
        counts@ == counts_of(dir_diff.deep_view()),
{
    let ghost d = dir_diff.deep_view();
    let mut counts = DiffCounts { removed: 0, added: 0, common: 0, unchanged: 0, changed: 0 };
    let mut n: usize = 0;
    proof {
        assert(d.skip(0) =~= d);
    }
    while n < dir_diff.len()
        invariant
            0 <= n <= dir_diff.len(),
            d == dir_diff.deep_view(),
            counts.removed + removed_paths(d.skip(n as int)).len() == removed_paths(d).len(),
            counts.added + added_paths(d.skip(n as int)).len() == added_paths(d).len(),
            counts.common + common_paths(d.skip(n as int)).len() == common_paths(d).len(),
            counts.unchanged + status_count(d.skip(n as int), ContentStatus::Unchanged)
                == status_count(d, ContentStatus::Unchanged),
            counts.changed + status_count(d.skip(n as int), ContentStatus::Changed)
                == status_count(d, ContentStatus::Changed),
            counts.removed + counts.added + counts.common <= n,
            counts.unchanged + counts.changed <= counts.common,
        decreases dir_diff.len() - n,
    {
        proof {
            assert(d.skip(n as int).drop_first() =~= d.skip(n + 1));
        }
        match &dir_diff[n] {
            DirDiff::Removed(_) => {
                counts.removed += 1;
            },
            DirDiff::Added(_) => {
                counts.added += 1;
            },
            DirDiff::Common(_, status) => {
                counts.common += 1;
                match status {
                    ContentStatus::Unchanged => {
                        counts.unchanged += 1;
                    },
                    ContentStatus::Changed => {
                        counts.changed += 1;
                    },
                    ContentStatus::NotCompared => {},
                }
            },
        }
        n += 1;
    }
    counts
}

/// The text of one decimal digit.
fn digit_text(d: usize) -> (text: &'static str)
    requires
        d < 10,
    ensures
        text@ == seq![digit_char(d as nat)],
{
    proof {
        reveal_strlit("0");
        reveal_strlit("1");
        reveal_strlit("2");
        reveal_strlit("3");
        reveal_strlit("4");
        reveal_strlit("5");
        reveal_strlit("6");
        reveal_strlit("7");
        reveal_strlit("8");
        reveal_strlit("9");
    }
    if d == 0 {
        "0"
    } else if d == 1 {
        "1"
    } else if d == 2 {
        "2"
    } else if d == 3 {
        "3"
    } else if d == 4 {
        "4"
    } else if d == 5 {
        "5"
    } else if d == 6 {
        "6"
    } else if d == 7 {
        "7"
    } else if d == 8 {
        "8"
    } else {
        "9"
    }
}

/// Puts a number in decimal digits at the end of a text.
pub fn append_decimal(text: &mut String, n: usize)
    ensures
        final(text)@ == old(text)@ + decimal(n as nat),
    decreases n,
{
    if n >= 10 {
        append_decimal(text, n / 10);
    }
    text.append(digit_text(n % 10));
}

/// The summary line for given counts.
pub fn summary_line(counts: DiffCounts, hide_similarities: bool, compare_file_content: bool) -> (line:
    String)
    ensures
        line@ == summary_text(counts@, hide_similarities, compare_file_content),
{
    let DiffCounts { removed, added, common, unchanged, changed } = counts;
    let mut line = String::new();
    append_decimal(&mut line, removed);
    line.append(" removed, ");
    append_decimal(&mut line, added);
    line.append(" added");
    if !hide_similarities {
        line.append(", ");
        append_decimal(&mut line, common);
        if compare_file_content {
            line.append(" similar, ");
            append_decimal(&mut line, unchanged);
            line.append(" files unchanged, ");
            append_decimal(&mut line, changed);
            line.append(" files changed");
        } else {
            line.append(" similar");
        }
    }
    line
}

/// The summary line of a diff: how many paths were removed and how many
/// added; unless `hide_similarities` is set, how many are common; and with
/// `compare_file_content`, how many common files are unchanged and how many
/// changed.
pub fn diff_summary(dir_diff: &Vec<DirDiff>, hide_similarities: bool, compare_file_content: bool)
    -> (line: String)
    ensures
        line@ == summary_text(
            counts_of(dir_diff.deep_view()),
            hide_similarities,
            compare_file_content,
        ),
{
    let counts = count_dir_diff(dir_diff);
    summary_line(counts, hide_similarities, compare_file_content)
}

} // verus!
