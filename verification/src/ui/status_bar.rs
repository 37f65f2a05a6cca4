//! The status bar: counts, the selected run's duration and cost, modes and keys.
use crate::app::ExpandMode;
use crate::events::FocusPane;
use crate::text::{copy_str, decimal};
use crate::run::opt_str;
use crate::ui::transcript::{joined, two_digits};
use vstd::prelude::*;

verus! {

/// Minutes and two-digit seconds, or seconds.
pub open spec fn clock(d: int) -> Seq<char> {
    if d / 60 > 0 {
        decimal((d / 60) as nat) + seq!['m'] + two_digits((d % 60) as nat) + seq!['s']
    } else {
        decimal((d % 60) as nat) + seq!['s']
    }
}

/// What the status bar lists: the number of runs, the selected run's duration and
/// cost, the expand mode and whether it follows the live run.
pub open spec fn status_parts(runs: nat, duration: Option<int>, cost: Option<Seq<char>>, mode: ExpandMode, follow: bool) -> Seq<Seq<char>> {
    seq![decimal(runs) + " runs"@] + match duration {
        Some(d) => seq![clock(d)],
        None => Seq::empty(),
    } + match cost {
        Some(c) => seq![c],
        None => Seq::empty(),
    } + match mode {
        ExpandMode::Off => Seq::empty(),
        ExpandMode::Edits => seq!["edits"@],
        ExpandMode::All => seq!["expand"@],
    } + if follow {
        seq!["follow"@]
    } else {
        Seq::empty()
    }
}

pub open spec fn focus_word(f: FocusPane) -> Seq<char> {
    match f {
        FocusPane::RunList => "runs"@,
        FocusPane::MainViewer => "viewer"@,
    }
}

pub open spec fn status_text(runs: nat, duration: Option<int>, cost: Option<Seq<char>>, mode: ExpandMode, follow: bool, focus: FocusPane) -> Seq<char> {
    seq![' '] + joined(status_parts(runs, duration, cost, mode, follow), " │ "@) + "  ["@ + focus_word(focus)
        + "] Tab  / search  ? help  q quit"@
}

/// The text of the status bar.
pub fn status_bar_text(
    runs: usize,
    duration_secs: Option<i128>,
    cost_label: &Option<String>,
    mode: ExpandMode,
    auto_follow: bool,
    focus: FocusPane,
) -> (r: String)
    requires
        duration_secs matches Some(d) ==> d >= 0,
    ensures
        r@ == status_text(
            runs as nat,
            match duration_secs {
                Some(d) => Some(d as int),
                None => None,
            },
            opt_str(*cost_label),
            mode,
            auto_follow,
            focus,
        ),
{
    let ghost dm = match duration_secs {
        Some(d) => Some(d as int),
        None => None,
    };
    let mut parts: Vec<String> = Vec::new();
    let mut n = crate::ui::transcript::dec(runs as u64);
    crate::json::append_str(&mut n, " runs");
    parts.push(n);
    let ghost a0 = seq![decimal(runs as nat) + " runs"@];
    assert(parts@.map_values(|p: String| p@) =~= a0);
    match duration_secs {
        Some(d) => {
            let mut t = String::new();
            if d / 60 > 0 {
                crate::text::push_decimal_wide(&mut t, (d / 60) as u128);
                crate::text::push_char(&mut t, 'm');
                if d % 60 < 10 {
                    crate::text::push_char(&mut t, '0');
                }
            }
            crate::text::push_decimal_wide(&mut t, (d % 60) as u128);
            crate::text::push_char(&mut t, 's');
            assert(t@ =~= clock(d as int));
            parts.push(t);
        },
        None => {},
    }
    let ghost a1 = a0 + match dm {
        Some(d) => seq![clock(d)],
        None => Seq::empty(),
    };
    assert(parts@.map_values(|p: String| p@) =~= a1);
    match cost_label {
        Some(c) => parts.push(c.clone()),
        None => {},
    }
    let ghost a2 = a1 + match opt_str(*cost_label) {
        Some(c) => seq![c],
        None => Seq::empty(),
    };
    assert(parts@.map_values(|p: String| p@) =~= a2);
    match mode {
        ExpandMode::Off => {},
        ExpandMode::Edits => parts.push(copy_str("edits")),
        ExpandMode::All => parts.push(copy_str("expand")),
    }
    let ghost a3 = a2 + match mode {
        ExpandMode::Off => Seq::empty(),
        ExpandMode::Edits => seq!["edits"@],
        ExpandMode::All => seq!["expand"@],
    };
    assert(parts@.map_values(|p: String| p@) =~= a3);
    if auto_follow {
        parts.push(copy_str("follow"));
    }
    assert(parts@.map_values(|p: String| p@) =~= status_parts(runs as nat, dm, opt_str(*cost_label), mode, auto_follow));
    let mut text = String::new();
    crate::text::push_char(&mut text, ' ');
    let left = crate::ui::transcript::join(&parts, " │ ");
    crate::json::append_str(&mut text, left.as_str());
    crate::json::append_str(&mut text, "  [");
    crate::json::append_str(&mut text, match focus {
        FocusPane::RunList => "runs",
        FocusPane::MainViewer => "viewer",
    });
    crate::json::append_str(&mut text, "] Tab  / search  ? help  q quit");
    assert(text@ =~= status_text(runs as nat, dm, opt_str(*cost_label), mode, auto_follow, focus));
    text
}

} // verus!
