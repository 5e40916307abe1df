//! ConEmu OSC 9;4 terminal progress bar for context usage.
//!
//! The host compacts the context around 80% usage, so the bar treats 80%
//! as "full". Colors follow the same thresholds the old script used: warning
//! in the 40% "dumb zone", error from 60%.

use vstd::prelude::*;

use crate::text::{decimal, push_decimal, push_str};

verus! {

pub const COMPACT_PERCENT: u64 = 80;

pub const WARNING_PERCENT: u64 = 40;

pub const ERROR_PERCENT: u64 = 60;

#[derive(Debug, Clone, Copy, PartialEq, Eq, Structural)]
pub enum ProgressState {
    Normal,
    Warning,
    Error,
}

/// The state the bar takes at a given usage percentage.
pub open spec fn state_for(used_percent: nat) -> ProgressState {
    if used_percent >= ERROR_PERCENT {
        ProgressState::Error
    } else if used_percent >= WARNING_PERCENT {
        ProgressState::Warning
    } else {
        ProgressState::Normal
    }
}

/// How full the bar is: percent of the compact threshold, capped at 100.
pub open spec fn fill_for(used_percent: nat) -> nat {
    let scaled = used_percent * 100 / (COMPACT_PERCENT as nat);
    if scaled < 100 {
        scaled
    } else {
        100
    }
}

/// The number ConEmu's OSC 9;4 uses for a state.
pub open spec fn osc_code_of(state: ProgressState) -> nat {
    match state {
        ProgressState::Normal => 1,
        ProgressState::Warning => 4,
        ProgressState::Error => 2,
    }
}

/// The whole escape sequence for a usage percentage.
pub open spec fn osc_text(used_percent: nat) -> Seq<char> {
    "\x1b]9;4;"@ + decimal(osc_code_of(state_for(used_percent))) + ";"@ + decimal(
        fill_for(used_percent),
    ) + "\x07"@
}

impl ProgressState {
    pub fn osc_code(self) -> (code: u8)
        ensures
            code == osc_code_of(self),
    {
        match self {
            ProgressState::Normal => 1,
            ProgressState::Warning => 4,
            ProgressState::Error => 2,
        }
    }
}

/// Map context usage (percent of the window) to a progress-bar state and
/// fill level (percent of the compact threshold, capped at 100).
pub fn progress(used_percent: u64) -> (r: (ProgressState, u64))
    requires
        used_percent * 100 <= u64::MAX,
    ensures
        r.0 == state_for(used_percent as nat),
        r.1 == fill_for(used_percent as nat),
{
    let state = if used_percent >= ERROR_PERCENT {
        ProgressState::Error
    } else if used_percent >= WARNING_PERCENT {
        ProgressState::Warning
    } else {
        ProgressState::Normal
    };
    let scaled = used_percent * 100 / COMPACT_PERCENT;
    let fill = if scaled < 100 {
        scaled
    } else {
        100
    };
    (state, fill)
}

/// The OSC 9;4 sequence that sets the terminal's progress bar.
pub fn osc_sequence(used_percent: u64) -> (s: String)
    requires
        used_percent * 100 <= u64::MAX,
    ensures
        s@ == osc_text(used_percent as nat),
{
    let (state, fill) = progress(used_percent);
    let mut s = String::new();
    push_str(&mut s, "\x1b]9;4;");
    push_decimal(&mut s, state.osc_code() as u64);
    push_str(&mut s, ";");
    push_decimal(&mut s, fill);
    push_str(&mut s, "\x07");
    s
}

/// The bar's state never calms down as usage grows: a higher percentage is
/// at least as severe, and the fill never shrinks.
pub proof fn progress_is_monotone(lower: nat, higher: nat)
    requires
        lower <= higher,
    ensures
        state_for(higher) == ProgressState::Normal ==> state_for(lower) == ProgressState::Normal,
        state_for(lower) == ProgressState::Error ==> state_for(higher) == ProgressState::Error,
        fill_for(lower) <= fill_for(higher),
{
    assert(lower * 100 <= higher * 100) by (nonlinear_arith)
        requires
            lower <= higher,
    ;
    assert(lower * 100 / 80 <= higher * 100 / 80) by (nonlinear_arith)
        requires
            lower * 100 <= higher * 100,
    ;
}

/// The bar is full exactly from the compact threshold on.
pub proof fn full_exactly_at_compact_threshold(used_percent: nat)
    ensures
        (fill_for(used_percent) == 100) <==> used_percent >= COMPACT_PERCENT,
{
    assert((used_percent * 100 / 80 >= 100) <==> used_percent >= 80) by (nonlinear_arith);
}

} // verus!
