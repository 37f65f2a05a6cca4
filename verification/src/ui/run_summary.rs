//! A run in short: its counters, its duration and its state.
use crate::app::whole_secs_between;
use crate::run::{opt_str, Run, RunModel, RunStatus, Timestamp};
use crate::text::{copy_str, decimal, push_char};
use crate::ui::highlight::two_spans;
use crate::ui::markdown::{dim, dim_style};
use crate::ui::style::{lines_model, Color, Span, Style, StyledLine};
use crate::ui::style::fg_only;
use crate::ui::transcript::{dec, push_line, two_digits};
use vstd::prelude::*;

verus! {

/// Whole seconds a run has taken: from its start to its end, or to `now` while it
/// has none.
pub open spec fn run_duration(r: RunModel, now: Timestamp) -> Option<int> {
    match r.started_at {
        Some(s) => Some(
            whole_secs_between(
                s,
                match r.ended_at {
                    Some(e) => e,
                    None => now,
                },
            ),
        ),
        None => None,
    }
}

impl Run {
    /// Whole seconds the run has taken (see `run_duration`).
    pub fn duration(&self, now: Timestamp) -> (r: Option<i128>)
        ensures
            match r {
                Some(d) => run_duration(self.model(), now) == Some(d as int) && d >= 0,
                None => run_duration(self.model(), now) is None,
            },
    {
        match self.started_at {
            Some(s) => {
                let end = match self.ended_at {
                    Some(e) => e,
                    None => now,
                };
                Some(crate::app::whole_secs_since(s, end))
            },
            None => None,
        }
    }
}

/// A line of the summary: a space, then the text, dim.
pub open spec fn stat_line(text: Seq<char>) -> Seq<(Seq<char>, Style)> {
    seq![(seq![' '] + text, dim_style())]
}

pub open spec fn when_positive(n: int, text: Seq<char>) -> Seq<Seq<(Seq<char>, Style)>> {
    if n > 0 {
        seq![stat_line(text)]
    } else {
        Seq::empty()
    }
}

/// Tokens in thousands below a million; above, `mega` is the count in millions.
pub open spec fn token_lines(tokens: u64, mega: Seq<char>) -> Seq<Seq<(Seq<char>, Style)>> {
    if tokens == 0 {
        Seq::empty()
    } else if tokens >= 1_000_000 {
        seq![stat_line(mega + "M tok"@)]
    } else if tokens >= 1000 {
        seq![stat_line(decimal((tokens / 1000) as nat) + "k tok"@)]
    } else {
        seq![stat_line(decimal(tokens as nat) + " tok"@)]
    }
}

pub open spec fn duration_line(d: int) -> Seq<(Seq<char>, Style)> {
    if d / 60 > 0 {
        stat_line(decimal((d / 60) as nat) + "m "@ + two_digits((d % 60) as nat) + seq!['s'])
    } else {
        stat_line(decimal((d % 60) as nat) + seq!['s'])
    }
}

/// The state line: a mark and what the state is (the stop reason of a finished run).
pub open spec fn state_line(r: RunModel) -> Seq<(Seq<char>, Style)> {
    let reason = match r.result {
        Some(res) => res.stop_reason,
        None => None,
    };
    match r.status {
        RunStatus::Running => seq![(" ● "@, fg_only(Color::Green)), ("running"@, dim_style())],
        RunStatus::Completed => seq![
            (" ✓ "@, fg_only(Color::Green)),
            (match reason { Some(s) => s, None => "ok"@ }, dim_style()),
        ],
        RunStatus::Failed => seq![
            (" ✗ "@, fg_only(Color::Red)),
            (match reason { Some(s) => s, None => "error"@ }, dim_style()),
        ],
        RunStatus::Unknown => seq![(" ? "@, dim_style()), ("unknown"@, dim_style())],
    }
}

/// Turns (the result's, else the counter), tool calls and subagents, each when
/// there are any.
pub open spec fn count_lines(r: RunModel) -> Seq<Seq<(Seq<char>, Style)>> {
    let turns = match r.result {
        Some(res) => res.num_turns,
        None => r.stats.num_turns,
    };
    when_positive(turns as int, decimal(turns as nat) + " turns"@)
        + when_positive(r.stats.tool_calls as int, decimal(r.stats.tool_calls as nat) + " tools"@)
        + when_positive(r.stats.subagent_spawns as int, decimal(r.stats.subagent_spawns as nat) + " agents"@)
}

pub open spec fn opt_line(o: Option<Seq<(Seq<char>, Style)>>) -> Seq<Seq<(Seq<char>, Style)>> {
    match o {
        Some(l) => seq![l],
        None => Seq::empty(),
    }
}

/// The summary of a run: its counts, tokens (`mega`: the count in millions), the
/// cost shown (`cost`), the duration (`duration`, in seconds) and the state line.
pub open spec fn summary_model(r: RunModel, duration: Option<int>, cost: Option<Seq<char>>, mega: Seq<char>) -> Seq<Seq<(Seq<char>, Style)>> {
    count_lines(r) + token_lines(r.stats.token_count, mega) + opt_line(
        match cost {
            Some(c) => Some(stat_line(c)),
            None => None,
        },
    ) + opt_line(
        match duration {
            Some(d) => Some(duration_line(d)),
            None => None,
        },
    ) + seq![state_line(r)]
}

fn stat(text: String) -> (r: StyledLine)
    ensures
        r.model() == stat_line(text@),
{
    let mut t = String::new();
    push_char(&mut t, ' ');
    crate::json::append_str(&mut t, text.as_str());
    let mut spans: Vec<Span> = Vec::new();
    spans.push(Span::styled(t, dim()));
    assert(crate::ui::style::spans_model(spans@) =~= stat_line(text@));
    StyledLine::from_spans(spans)
}

fn counted(n: u64, unit: &str) -> (r: String)
    ensures
        r@ == decimal(n as nat) + unit@,
{
    let mut s = dec(n);
    crate::json::append_str(&mut s, unit);
    s
}

fn count_lines_of(run: &Run) -> (r: Vec<StyledLine>)
    ensures
        lines_model(r@) == count_lines(run.model()),
{
    let mut out: Vec<StyledLine> = Vec::new();
    let turns = match &run.result {
        Some(res) => res.num_turns,
        None => run.stats.num_turns,
    };
    if turns > 0 {
        push_line(&mut out, stat(counted(turns, " turns")));
    }
    assert(lines_model(out@) =~= when_positive(turns as int, decimal(turns as nat) + " turns"@));
    let ghost a0 = lines_model(out@);
    if run.stats.tool_calls > 0 {
        push_line(&mut out, stat(counted(run.stats.tool_calls as u64, " tools")));
    }
    assert(lines_model(out@) =~= a0 + when_positive(run.stats.tool_calls as int, decimal(run.stats.tool_calls as nat) + " tools"@));
    let ghost a1 = lines_model(out@);
    if run.stats.subagent_spawns > 0 {
        push_line(&mut out, stat(counted(run.stats.subagent_spawns as u64, " agents")));
    }
    assert(lines_model(out@) =~= a1 + when_positive(run.stats.subagent_spawns as int, decimal(run.stats.subagent_spawns as nat) + " agents"@));
    out
}

fn token_lines_of(tokens: u64, mega_tokens: &String) -> (r: Vec<StyledLine>)
    ensures
        lines_model(r@) == token_lines(tokens, mega_tokens@),
{
    let mut out: Vec<StyledLine> = Vec::new();
    if tokens >= 1_000_000 {
        let mut t = mega_tokens.clone();
        crate::json::append_str(&mut t, "M tok");
        push_line(&mut out, stat(t));
    } else if tokens >= 1000 {
        push_line(&mut out, stat(counted(tokens / 1000, "k tok")));
    } else if tokens > 0 {
        push_line(&mut out, stat(counted(tokens, " tok")));
    }
    assert(lines_model(out@) =~= token_lines(tokens, mega_tokens@));
    out
}

fn duration_line_of(d: i128) -> (r: StyledLine)
    requires
        d >= 0,
    ensures
        r.model() == duration_line(d as int),
{
    let mins = d / 60;
    let secs = d % 60;
    let mut t = String::new();
    if mins > 0 {
        crate::text::push_decimal_wide(&mut t, mins as u128);
        crate::json::append_str(&mut t, "m ");
        if secs < 10 {
            push_char(&mut t, '0');
        }
        crate::text::push_decimal_wide(&mut t, secs as u128);
        push_char(&mut t, 's');
        assert(t@ =~= decimal((d / 60) as nat) + "m "@ + two_digits((d % 60) as nat) + seq!['s']);
    } else {
        crate::text::push_decimal_wide(&mut t, secs as u128);
        push_char(&mut t, 's');
        assert(t@ =~= decimal((d % 60) as nat) + seq!['s']);
    }
    stat(t)
}

fn state_line_of(run: &Run) -> (r: StyledLine)
    ensures
        r.model() == state_line(run.model()),
{
    let reason: Option<String> = match &run.result {
        Some(res) => match &res.stop_reason {
            Some(s) => Some(s.clone()),
            None => None,
        },
        None => None,
    };
    let state = match run.status {
        RunStatus::Running => two_spans(Span::styled(copy_str(" ● "), Style::new().fg(Color::Green)), Span::styled(copy_str("running"), dim())),
        RunStatus::Completed => two_spans(
            Span::styled(copy_str(" ✓ "), Style::new().fg(Color::Green)),
            Span::styled(match reason { Some(s) => s, None => copy_str("ok") }, dim()),
        ),
        RunStatus::Failed => two_spans(
            Span::styled(copy_str(" ✗ "), Style::new().fg(Color::Red)),
            Span::styled(match reason { Some(s) => s, None => copy_str("error") }, dim()),
        ),
        RunStatus::Unknown => two_spans(Span::styled(copy_str(" ? "), dim()), Span::styled(copy_str("unknown"), dim())),
    };
    assert(state.model() =~~= state_line(run.model()));
    state
}

/// The summary lines of a run (see `summary_model`). The cost and the token count
/// in millions come formatted.
pub fn summary_lines(run: &Run, duration_secs: Option<i128>, cost_label: &Option<String>, mega_tokens: &String) -> (r: Vec<StyledLine>)
    requires
        duration_secs matches Some(d) ==> d >= 0,
    ensures
        lines_model(r@) == summary_model(
            run.model(),
            match duration_secs {
                Some(d) => Some(d as int),
                None => None,
            },
            opt_str(*cost_label),
            mega_tokens@,
        ),
{
    let mut out = count_lines_of(run);
    crate::ui::transcript::extend(&mut out, token_lines_of(run.stats.token_count, mega_tokens));
    let ghost a = lines_model(out@);
    match cost_label {
        Some(c) => push_line(&mut out, stat(c.clone())),
        None => {},
    }
    assert(lines_model(out@) =~= a + opt_line(
        match opt_str(*cost_label) {
            Some(c) => Some(stat_line(c)),
            None => None,
        },
    ));
    let ghost b = lines_model(out@);
    match duration_secs {
        Some(d) => push_line(&mut out, duration_line_of(d)),
        None => {},
    }
    assert(lines_model(out@) =~= b + opt_line(
        match duration_secs {
            Some(d) => Some(duration_line(d as int)),
            None => None,
        },
    ));
    push_line(&mut out, state_line_of(run));
    out
}

} // verus!
