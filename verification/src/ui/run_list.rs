//! The runs, two lines each: state and name, then duration and state in words.

use crate::run::{opt_str, Run, RunStatus, Timestamp};
use crate::text::{copy_str, decimal};
use crate::ui::highlight::two_spans;
use crate::ui::run_summary::run_duration;
use crate::ui::style::{lines_model, plain, Color, Span, Style, StyledLine};
use crate::ui::style::fg_only;
use crate::ui::transcript::{push_line};
use vstd::prelude::*;

verus! {

/// The mark of a state and its colour.
pub open spec fn state_mark(s: RunStatus) -> (Seq<char>, Style) {
    match s {
        RunStatus::Running => (" ● "@, fg_only(Color::Green)),
        RunStatus::Completed => (" ✓ "@, fg_only(Color::Green)),
        RunStatus::Failed => (" ✗ "@, fg_only(Color::Red)),
        RunStatus::Unknown => (" ? "@, fg_only(Color::DarkGray)),
    }
}

pub open spec fn state_word(s: RunStatus) -> Seq<char> {
    match s {
        RunStatus::Running => "running"@,
        RunStatus::Completed => "ok"@,
        RunStatus::Failed => "failed"@,
        RunStatus::Unknown => Seq::empty(),
    }
}

/// Minutes when there is a whole one, else seconds; nothing without a duration.
pub open spec fn short_duration(d: Option<int>) -> Seq<char> {
    match d {
        Some(s) => if s / 60 > 0 {
            decimal((s / 60) as nat) + seq!['m']
        } else {
            decimal(s as nat) + seq!['s']
        },
        None => Seq::empty(),
    }
}

/// The two lines of a run in the list.
pub open spec fn run_entry(status: RunStatus, name: Seq<char>, duration: Option<int>) -> Seq<Seq<(Seq<char>, Style)>> {
    seq![
        seq![state_mark(status), (name, plain())],
        seq![("   "@, plain()), (short_duration(duration) + seq![' '] + state_word(status), fg_only(Color::DarkGray))],
    ]
}

/// What `Path::file_stem` gives for the path written as `path` (its last component
/// without its extension), as text; `None` when the path has no file name.
pub uninterp spec fn file_stem_of(path: Seq<char>) -> Option<Seq<char>>;

/// `Path::file_stem` of the path written as `p`, as text (`OsStr::to_str`, which
/// cannot fail on a part of a `str`). Its result depends on the text alone.
#[verifier::external_body]
fn file_stem_text(p: &str) -> (r: Option<String>)
    ensures
        opt_str(r) == file_stem_of(p@),
{
    std::path::Path::new(p).file_stem().and_then(|s| s.to_str()).map(|s| s.to_string())
}

/// The name a run shows in the list: its file's stem, `???` when it has none.
pub open spec fn run_name(path: Seq<char>) -> Seq<char> {
    match file_stem_of(path) {
        Some(s) => s,
        None => "???"@,
    }
}

/// The two lines of a run in the list, given its name and duration in seconds.
pub fn run_entry_lines(status: RunStatus, name: &String, duration: Option<i128>) -> (r: Vec<StyledLine>)
    requires
        duration matches Some(d) ==> d >= 0,
    ensures
        lines_model(r@) == run_entry(
            status,
            name@,
            match duration {
                Some(d) => Some(d as int),
                None => None,
            },
        ),
{
    let (mark, style) = match status {
        RunStatus::Running => (copy_str(" ● "), Style::new().fg(Color::Green)),
        RunStatus::Completed => (copy_str(" ✓ "), Style::new().fg(Color::Green)),
        RunStatus::Failed => (copy_str(" ✗ "), Style::new().fg(Color::Red)),
        RunStatus::Unknown => (copy_str(" ? "), Style::new().fg(Color::DarkGray)),
    };
    let mut detail = String::new();
    match duration {
        Some(d) => {
            if d / 60 > 0 {
                crate::text::push_decimal_wide(&mut detail, (d / 60) as u128);
                crate::text::push_char(&mut detail, 'm');
            } else {
                crate::text::push_decimal_wide(&mut detail, d as u128);
                crate::text::push_char(&mut detail, 's');
            }
        },
        None => {},
    }
    crate::text::push_char(&mut detail, ' ');
    let word = match status {
        RunStatus::Running => "running",
        RunStatus::Completed => "ok",
        RunStatus::Failed => "failed",
        RunStatus::Unknown => "",
    };
    crate::json::append_str(&mut detail, word);
    proof {
        reveal_strlit("");
    }
    let ghost dm = match duration {
        Some(d) => Some(d as int),
        None => None,
    };
    assert(detail@ =~= short_duration(dm) + seq![' '] + state_word(status));
    let mut out: Vec<StyledLine> = Vec::new();
    push_line(&mut out, two_spans(Span::styled(mark, style), Span::raw(name.clone())));
    push_line(&mut out, two_spans(Span::raw(copy_str("   ")), Span::styled(detail, Style::new().fg(Color::DarkGray))));
    assert(lines_model(out@) =~~= run_entry(status, name@, dm));
    out
}

/// The two lines of a run in the list: its file's stem (`???` when it has none)
/// and its duration up to `now`.
pub fn run_entry_of(run: &Run, now: Timestamp) -> (r: Vec<StyledLine>)
    ensures
        lines_model(r@) == run_entry(run.status, run_name(run.path@), run_duration(run.model(), now)),
{
    let name = match file_stem_text(run.path.as_str()) {
        Some(s) => s,
        None => copy_str("???"),
    };
    let d = run.duration(now);
    let r = run_entry_lines(run.status, &name, d);
    assert(lines_model(r@) == run_entry(run.status, name@, run_duration(run.model(), now)));
    r
}

} // verus!
