//! The lines in which a diff is shown, one for each entry that is not hidden.
//!
//! The parts of a line and its colour are fixed here and proved. The escape
//! sequences of a coloured line are written by the crate `colored`, behind
//! three functions whose contracts are taken on trust.

use crate::diff::{entry_path, ContentStatus, DiffEntry, DirDiff};
use colored::Colorize;
use vstd::prelude::*;

verus! {

/// The colour in which a line is shown.
#[derive(Clone, Copy, Debug, PartialEq, Eq, Structural)]
pub enum LineColor {
    /// The terminal's own colour.
    Plain,
    /// For a removed path.
    Red,
    /// For an added path.
    Green,
    /// For a common path whose content has changed.
    Yellow,
}

/// One line of a shown diff, in its parts: the line reads `marker`, a space,
/// `path`.
#[derive(Clone, Debug, PartialEq, Eq)]
pub struct DiffLine {
    /// What stands before the path: `-`, `+`, `~` or nothing.
    pub marker: String,
    /// The path of the entry.
    pub path: String,
    /// The colour of marker and path.
    pub color: LineColor,
}

/// The model of a `DiffLine`.
pub struct LineModel {
    pub marker: Seq<char>,
    pub path: Seq<char>,
    pub color: LineColor,
}

impl View for DiffLine {
    type V = LineModel;

    open spec fn view(&self) -> LineModel {
        LineModel { marker: self.marker@, path: self.path@, color: self.color }
    }
}

impl DeepView for DiffLine {
    type V = LineModel;

    open spec fn deep_view(&self) -> LineModel {
        self@
    }
}

/// The marker of an entry: `-` for a removed path, `+` for an added one, `~`
/// for a common path whose content has changed, nothing for any other common
/// path.
pub open spec fn marker_of(entry: DiffEntry) -> Seq<char> {
    match entry {
        DiffEntry::Removed(_) => seq!['-'],
        DiffEntry::Added(_) => seq!['+'],
        DiffEntry::Common(_, ContentStatus::Changed) => seq!['~'],
        DiffEntry::Common(_, _) => Seq::empty(),
    }
}

/// The colour of an entry where colour is wanted: red for a removed path,
/// green for an added one, yellow for a common path whose content has
/// changed, none for any other common path.
pub open spec fn color_of(entry: DiffEntry) -> LineColor {
    match entry {
        DiffEntry::Removed(_) => LineColor::Red,
        DiffEntry::Added(_) => LineColor::Green,
        DiffEntry::Common(_, ContentStatus::Changed) => LineColor::Yellow,
        DiffEntry::Common(_, _) => LineColor::Plain,
    }
}

/// The line of an entry, with its colour if `color` is set.
pub open spec fn line_of(entry: DiffEntry, color: bool) -> LineModel {
    LineModel {
        marker: marker_of(entry),
        path: entry_path(entry),
        color: if color {
            color_of(entry)
        } else {
            LineColor::Plain
        },
    }
}

/// The text of a line: the marker, a space, the path.
pub open spec fn line_text(line: LineModel) -> Seq<char> {
    line.marker + seq![' '] + line.path
}

/// An entry is shown unless it is a common path and those are hidden.
pub open spec fn is_shown(entry: DiffEntry, hide_similarities: bool) -> bool {
    !(hide_similarities && entry is Common)
}

/// The lines of a diff: those of its shown entries, in the diff's order.
pub open spec fn lines_of(diff: Seq<DiffEntry>, hide_similarities: bool, color: bool) -> Seq<
    LineModel,
>
    decreases diff.len(),
{
    if diff.len() == 0 {
        Seq::empty()
    } else if is_shown(diff[0], hide_similarities) {
        seq![line_of(diff[0], color)] + lines_of(diff.drop_first(), hide_similarities, color)
    } else {
        lines_of(diff.drop_first(), hide_similarities, color)
    }
}

/// The escape sequence that switches a terminal to a colour; for `Plain`
/// there is none.
pub open spec fn color_on(color: LineColor) -> Seq<char> {
    match color {
        LineColor::Plain => Seq::empty(),
        LineColor::Red => seq!['\u{1b}', '[', '3', '1', 'm'],
        LineColor::Green => seq!['\u{1b}', '[', '3', '2', 'm'],
        LineColor::Yellow => seq!['\u{1b}', '[', '3', '3', 'm'],
    }
}

/// The escape sequence that switches a terminal back to its own colour.
pub open spec fn color_off() -> Seq<char> {
    seq!['\u{1b}', '[', '0', 'm']
}

/// The text holds the escape sequence that switches colour off.
pub open spec fn holds_color_off(text: Seq<char>) -> bool {
    exists|i: int|
        0 <= i && i + color_off().len() <= text.len() && #[trigger] text.subrange(
            i,
            i + color_off().len(),
        ) == color_off()
}

/// `painted` is `text` in the given colour, as far as that is fixed: the text,
/// with or without the sequence that switches the colour on before it, and
/// with or without the sequence that switches colour off after it. Whether
/// the sequences are written rests with the running process, with its
/// variables `NO_COLOR`, `CLICOLOR` and `CLICOLOR_FORCE` and with whether its
/// output is a terminal, not with the text. Of a text that itself holds the
/// sequence that switches colour off, nothing is said.
pub open spec fn painted_as(text: Seq<char>, color: LineColor, painted: Seq<char>) -> bool {
    ||| holds_color_off(text)
    ||| painted == text
    ||| painted == text + color_off()
    ||| painted == color_on(color) + text
    ||| painted == color_on(color) + text + color_off()
}

/// `shown` is the line as a terminal is given it: a plain line is its text; a
/// line with a colour reads the painted marker, a space, the painted path.
pub open spec fn shown_as(line: LineModel, shown: Seq<char>) -> bool {
    if line.color == LineColor::Plain {
        shown == line_text(line)
    } else {
        exists|marker: Seq<char>, path: Seq<char>|
            #[trigger] painted_as(line.marker, line.color, marker) && #[trigger] painted_as(
                line.path,
                line.color,
                path,
            ) && shown == marker + seq![' '] + path
    }
}

/// The text as `colored::Colorize::red` colours it, in the form in which
/// `Display` writes the coloured string.
///
/// Trusted, as `colored` has it: the coloured string holds the text and
/// red as its foreground colour, nothing else. Where the process takes no
/// colour it is written as the text alone; else as `ESC [ 31 m`, the text,
/// `ESC [ 0 m`, each of the two sequences being written or not as the process
/// is set at that moment. A text that holds `ESC [ 0 m` is written in another
/// way, and the contract leaves it open.
#[verifier::external_body]
fn paint_red(text: &str) -> (painted: String)
    ensures
        painted_as(text@, LineColor::Red, painted@),
{
    text.red().to_string()
}

/// The text as `colored::Colorize::green` colours it, in the form in which
/// `Display` writes the coloured string.
///
/// Trusted, as `colored` has it: the coloured string holds the text and
/// green as its foreground colour, nothing else. Where the process takes no
/// colour it is written as the text alone; else as `ESC [ 32 m`, the text,
/// `ESC [ 0 m`, each of the two sequences being written or not as the process
/// is set at that moment. A text that holds `ESC [ 0 m` is written in another
/// way, and the contract leaves it open.
#[verifier::external_body]
fn paint_green(text: &str) -> (painted: String)
    ensures
        painted_as(text@, LineColor::Green, painted@),
{
    text.green().to_string()
}

/// The text as `colored::Colorize::yellow` colours it, in the form in which
/// `Display` writes the coloured string.
///
/// Trusted, as `colored` has it: the coloured string holds the text and
/// yellow as its foreground colour, nothing else. Where the process takes no
/// colour it is written as the text alone; else as `ESC [ 33 m`, the text,
/// `ESC [ 0 m`, each of the two sequences being written or not as the process
/// is set at that moment. A text that holds `ESC [ 0 m` is written in another
/// way, and the contract leaves it open.
#[verifier::external_body]
fn paint_yellow(text: &str) -> (painted: String)
    ensures
        painted_as(text@, LineColor::Yellow, painted@),
{
    text.yellow().to_string()
}

/// Joins the painted marker and the painted path of a line.
pub fn join_line(marker: &str, path: &str) -> (line: String)
    ensures
        line@ == marker@ + seq![' '] + path@,
{
    let mut line = String::from_str(marker);
    line.append(" ");
    line.append(path);
    proof {
        reveal_strlit(" ");
    }
    line
}

impl DiffLine {
    /// The line as a terminal is given it: in its colour, where it has one
    /// and the process takes colour.
    pub fn painted(&self) -> (shown: String)
        ensures
            shown_as(self@, shown@),
    {
        let (marker, path) = match self.color {
            LineColor::Plain => {
                return self.text();
            },
            LineColor::Red => (paint_red(self.marker.as_str()), paint_red(self.path.as_str())),
            LineColor::Green => (
                paint_green(self.marker.as_str()),
                paint_green(self.path.as_str()),
            ),
            LineColor::Yellow => (
                paint_yellow(self.marker.as_str()),
                paint_yellow(self.path.as_str()),
            ),
        };
        assert(painted_as(self@.marker, self@.color, marker@));
        assert(painted_as(self@.path, self@.color, path@));
        join_line(marker.as_str(), path.as_str())
    }

    /// The text of the line, without colour.
    pub fn text(&self) -> (text: String)
        ensures
            text@ == line_text(self@),
    {
        join_line(self.marker.as_str(), self.path.as_str())
    }
}

/// The line of one entry.
pub fn render_entry(entry: &DirDiff, color: bool) -> (line: DiffLine)
    ensures
        line@ == line_of(entry@, color),
{
    proof {
        reveal_strlit("-");
        reveal_strlit("+");
        reveal_strlit("~");
        reveal_strlit("");
        assert("-"@ =~= seq!['-']);
        assert("+"@ =~= seq!['+']);
        assert("~"@ =~= seq!['~']);
        assert(""@ =~= Seq::<char>::empty());
    }
    let line = match entry {
        DirDiff::Removed(path) => DiffLine {
            marker: String::from_str("-"),
            path: path.clone(),
            color: LineColor::Red,
        },
        DirDiff::Added(path) => DiffLine {
            marker: String::from_str("+"),
            path: path.clone(),
            color: LineColor::Green,
        },
        DirDiff::Common(path, ContentStatus::Changed) => DiffLine {
            marker: String::from_str("~"),
            path: path.clone(),
            color: LineColor::Yellow,
        },
        DirDiff::Common(path, _) => DiffLine {
            marker: String::from_str(""),
            path: path.clone(),
            color: LineColor::Plain,
        },
    };
    if color {
        line
    } else {
        DiffLine { marker: line.marker, path: line.path, color: LineColor::Plain }
    }
}

/// Says whether an entry is shown.
pub fn entry_is_shown(entry: &DirDiff, hide_similarities: bool) -> (shown: bool)
    ensures
        shown == is_shown(entry@, hide_similarities),
{
    match entry {
        DirDiff::Common(_, _) => !hide_similarities,
        _ => true,
    }
}

/// The lines in which a diff is shown: one for each entry, in the diff's
/// order, the common paths left out if `hide_similarities` is set, every line
/// plain unless `color` is set.
pub fn render_dir_diff(dir_diff: &Vec<DirDiff>, hide_similarities: bool, color: bool) -> (lines:
    Vec<DiffLine>)
    ensures
        lines.deep_view() == lines_of(dir_diff.deep_view(), hide_similarities, color),
{
    let ghost d = dir_diff.deep_view();
    let mut lines: Vec<DiffLine> = Vec::new();
    let mut n: usize = 0;
    proof {
        assert(d.skip(0) =~= d);
    }
    while n < dir_diff.len()
        invariant
            0 <= n <= dir_diff.len(),
            d == dir_diff.deep_view(),
            lines.deep_view() + lines_of(d.skip(n as int), hide_similarities, color) == lines_of(
                d,
                hide_similarities,
                color,
            ),
        decreases dir_diff.len() - n,
    {
        proof {
            assert(d.skip(n as int).drop_first() =~= d.skip(n + 1));
        }
        if entry_is_shown(&dir_diff[n], hide_similarities) {
            let line = render_entry(&dir_diff[n], color);
            lines.push(line);
        }
        n += 1;
    }
    lines
}

} // verus!
