//! A powerline-style status line for a coding assistant's terminal client.
//!
//! `run` is the whole program's logic: the statusline payload, the flags and
//! the ambient process state in, every byte the program prints out. Decoding
//! the JSON, reading the disk and the terminal, and the floating-point
//! readouts are the caller's part.

pub mod cli;
pub mod payload;
pub mod progress;
pub mod render;
pub mod segments;
pub mod text;
pub mod terminal;
pub mod theme;

use vstd::prelude::*;

use cli::Cli;
use payload::{opt_view, Payload};
use render::{
    bar, cells, lemma_bar_ends_outside_escape, lemma_escape_concat, lemma_plain_width,
    lemma_visible_concat, mode_named, no_escape, visible, Cell, Mode, Segment,
};
use segments::{
    context_always_renders, module_colors, modules_result, present_modules, rendered_count,
    texts_for, tokens_u64, Ambient, Module,
};
use text::{parsed_usize, push_char, push_str, repeat_char};
use theme::{palette_list, palette_name, Theme, PALETTE_COUNT};

verus! {

/// The width used when neither the flag, `$COLUMNS` nor the terminal says.
pub const DEFAULT_WIDTH: usize = 200;

/// Ambient process state the bar depends on, passed in explicitly so `run`
/// stays pure and deterministic on any machine.
#[derive(Debug, Clone)]
pub struct Env {
    /// `$HOME`, for tilde-shortening the dir segment.
    pub home: String,
    /// Raw `$COLUMNS` value (set by the host from v2.1.153 on).
    pub columns: Option<String>,
}

/// Everything the program prints, decided in one place.
#[derive(Debug)]
pub struct Output {
    /// The ANSI powerline bar, for stdout.
    pub bar: String,
    /// OSC 9;4 progress sequence for the controlling terminal, present when
    /// the payload has context numbers and `--no-progress` is off.
    pub progress: Option<String>,
}

/// The width `$COLUMNS` gives, when it is set and parses.
pub open spec fn columns_width(columns: Option<Seq<char>>) -> Option<nat> {
    match columns {
        Some(c) => parsed_usize(c),
        None => None,
    }
}

/// Whether `w` is a width the precedence can settle on: the flag, else
/// `$COLUMNS`, else what the terminal probe returns (or the default when it
/// returns nothing).
pub open spec fn width_resolves_to<F: FnOnce() -> Option<usize>>(
    flag: Option<usize>,
    columns: Option<Seq<char>>,
    tty_width: F,
    w: nat,
) -> bool {
    match flag {
        Some(f) => w == f,
        None => match columns_width(columns) {
            Some(c) => w == c,
            None => exists|t: Option<usize>|
                call_ensures(tty_width, (), t) && w == match t {
                    Some(x) => x as nat,
                    None => DEFAULT_WIDTH as nat,
                },
        },
    }
}

/// Terminal width precedence: explicit flag, then `$COLUMNS`, then the
/// parent-TTY probe (only consulted when the first two yield nothing: it
/// spawns subprocesses), then a wide default so nothing truncates
/// needlessly.
pub fn resolve_width(
    flag: Option<usize>,
    columns_env: Option<&str>,
    tty_width: impl FnOnce() -> Option<usize>,
) -> (w: usize)
    requires
        call_requires(tty_width, ()),
    ensures
        width_resolves_to(flag, payload::opt_str_view(columns_env), tty_width, w as nat),
{
    match flag {
        Some(f) => f,
        None => {
            let from_columns = match columns_env {
                Some(value) => text::parse_usize(value),
                None => None,
            };
            match from_columns {
                Some(c) => c,
                None => {
                    let t = tty_width();
                    match t {
                        Some(x) => x,
                        None => DEFAULT_WIDTH,
                    }
                },
            }
        },
    }
}

/// Context usage as a percentage of the window, when the payload has both
/// numbers and neither is zero.
pub open spec fn percent_spec(p: Payload) -> Option<nat> {
    match (p.tokens_spec(), p.window_size_spec()) {
        (Some(t), Some(s)) => if s == 0 || t == 0 {
            None
        } else {
            Some(t * 100 / (s as nat))
        },
        _ => None,
    }
}

/// Whether the percentage arithmetic stays within `u64`, as it must for the
/// progress sequence to be computed: the token count times 100, and the
/// percentage times 100, wherever they are computed.
pub open spec fn progress_fits(p: Payload) -> bool {
    &&& p.tokens_fit()
    &&& match (p.tokens_spec(), p.window_size_spec()) {
        (Some(t), Some(s)) => s == 0 || t == 0 || (t * 100 <= u64::MAX && (t * 100 / (s as nat))
            * 100 <= u64::MAX),
        _ => true,
    }
}

/// Whether the percentage arithmetic stays within `u64` for this payload.
pub fn percent_fits(payload: &Payload) -> (r: bool)
    ensures
        r == progress_fits(*payload),
{
    if !payload.token_count_fits() {
        return false;
    }
    match (payload.current_tokens(), payload.context_window_size()) {
        (Some(t), Some(s)) => {
            if s == 0 || t == 0 {
                true
            } else if t > u64::MAX / 100 {
                false
            } else {
                t * 100 / s <= u64::MAX / 100
            }
        },
        _ => true,
    }
}

/// Whether running with these flags reads the payload's token count: once
/// the flags parse, it does when any segment renders (the colors depend on
/// it) or the progress sequence is on.
pub open spec fn reads_tokens(p: Payload, amb: Ambient, cli: Cli) -> bool {
    match (modules_result(cli.modules@), modules_result(cli.modules_right@), mode_named(cli.mode@)) {
        (Ok(l), Ok(r), Some(_)) => !cli.no_progress || present_modules(p, amb, l).len() > 0
            || present_modules(p, amb, r).len() > 0,
        _ => false,
    }
}

/// Whether running with these flags computes the progress sequence: once
/// the flags parse, unless it is turned off.
pub open spec fn computes_progress(cli: Cli) -> bool {
    &&& modules_result(cli.modules@) is Ok
    &&& modules_result(cli.modules_right@) is Ok
    &&& mode_named(cli.mode@) is Some
    &&& !cli.no_progress
}

/// Whether running with these flags reads the payload's token count.
pub fn reads_token_count(payload: &Payload, ambient: &Ambient, cli: &Cli) -> (r: bool)
    ensures
        r == reads_tokens(*payload, *ambient, *cli),
{
    let left = match segments::parse_modules(cli.modules.as_str()) {
        Ok(m) => m,
        Err(_) => return false,
    };
    let right = match segments::parse_modules(cli.modules_right.as_str()) {
        Ok(m) => m,
        Err(_) => return false,
    };
    match Mode::parse(cli.mode.as_str()) {
        Ok(_) => {},
        Err(_) => return false,
    }
    !cli.no_progress || segments::renders_any(payload, ambient, &left) || segments::renders_any(
        payload,
        ambient,
        &right,
    )
}

/// Context usage as a percentage of the window, when the payload has both
/// numbers. Drives the OSC progress bar.
pub fn context_percent(payload: &Payload) -> (r: Option<u64>)
    requires
        progress_fits(*payload),
    ensures
        match percent_spec(*payload) {
            Some(pc) => r == Some(pc as u64),
            None => r is None,
        },
{
    let tokens = match payload.current_tokens() {
        Some(t) => t,
        None => return None,
    };
    let size = match payload.context_window_size() {
        Some(s) => s,
        None => return None,
    };
    if size == 0 || tokens == 0 {
        return None;
    }
    Some(tokens * 100 / size)
}

/// The cells a list of modules renders as: each present module's text with
/// the colors its state calls for.
pub open spec fn cells_for(
    p: Payload,
    amb: Ambient,
    theme: Theme,
    mods: Seq<Module>,
    width: nat,
    home: Seq<char>,
    mode: Mode,
) -> Seq<Cell> {
    texts_for(p, amb, mods, width, home, mode).map_values(
        |mt: (Module, Seq<char>)|
            (
                mt.1,
                module_colors(theme, mt.0, tokens_u64(p), amb.usage_family, amb.git_state is Some),
            ),
    )
}

/// The spaces between the left bar and the right bar: enough for the right
/// bar to end at the terminal edge, and at least one.
pub open spec fn gap_width(width: nat, left: Seq<char>, right: Seq<char>) -> nat {
    let used = visible(left) + visible(right);
    if width > used {
        (width - used) as nat
    } else {
        1
    }
}

/// The whole bar: the left modules, and when any right module renders, the
/// right bar pinned to the terminal edge.
pub open spec fn bar_text(
    p: Payload,
    amb: Ambient,
    theme: Theme,
    left: Seq<Module>,
    right: Seq<Module>,
    width: nat,
    home: Seq<char>,
    mode: Mode,
) -> Seq<char> {
    let left_bar = bar(cells_for(p, amb, theme, left, width, home, mode), mode, false);
    let right_cells = cells_for(p, amb, theme, right, width, home, mode);
    if right_cells.len() == 0 {
        left_bar
    } else {
        let right_bar = bar(right_cells, mode, true);
        left_bar + repeat_char(' ', gap_width(width, left_bar, right_bar)) + right_bar
    }
}

/// The progress sequence the program prints, if any.
pub open spec fn progress_text(p: Payload, no_progress: bool) -> Option<Seq<char>> {
    if no_progress {
        None
    } else {
        match percent_spec(p) {
            Some(pc) => Some(progress::osc_text(pc)),
            None => None,
        }
    }
}

/// The error for a `--mode` value that names no mode.
pub open spec fn unknown_mode_error(name: Seq<char>) -> Seq<char> {
    "unknown mode '"@ + name + "', available: patched, compatible, flat"@
}

/// What `run` owes for a theme that resolved: the first flag error, else the
/// bar for every width the precedence can settle on.
pub open spec fn outcome_ok<F: FnOnce() -> Option<usize>>(
    r: Result<Output, String>,
    payload: Payload,
    ambient: Ambient,
    theme: Theme,
    cli: Cli,
    env: Env,
    tty_width: F,
) -> bool {
    match modules_result(cli.modules@) {
        Err(m) => r matches Err(e) && e@ == m,
        Ok(left) => match modules_result(cli.modules_right@) {
            Err(m) => r matches Err(e) && e@ == m,
            Ok(right) => match mode_named(cli.mode@) {
                None => r matches Err(e) && e@ == unknown_mode_error(cli.mode@),
                Some(mode) => r matches Ok(out) && exists|w: nat|
                    width_resolves_to(cli.width, opt_view(env.columns), tty_width, w) && out.bar@
                        == bar_text(payload, ambient, theme, left, right, w, env.home@, mode)
                        && opt_view(out.progress) == progress_text(payload, cli.no_progress),
            },
        },
    }
}

/// The segments for a list of modules: text and colors.
fn build_segments(
    payload: &Payload,
    ambient: &Ambient,
    theme: &Theme,
    modules: &Vec<Module>,
    width: usize,
    home: &str,
    mode: Mode,
) -> (r: Vec<Segment>)
    requires
        present_modules(*payload, *ambient, modules@).len() > 0 ==> payload.tokens_fit(),
    ensures
        cells(r@) == cells_for(*payload, *ambient, *theme, modules@, width as nat, home@, mode),
{
    proof {
        if modules@.contains(Module::Context) {
            context_always_renders(*payload, *ambient, modules@);
        }
        rendered_count(*payload, *ambient, modules@, width as nat, home@, mode);
    }
    let texts = segments::segment_texts(payload, modules.as_slice(), width, home, mode, ambient);
    let ghost spec_texts = texts_for(*payload, *ambient, modules@, width as nat, home@, mode);
    let tokens = if texts.len() > 0 {
        payload.current_tokens()
    } else {
        None
    };
    let git_busy = ambient.git_state.is_some();
    let mut out: Vec<Segment> = Vec::new();
    let mut i: usize = 0;
    while i < texts.len()
        invariant
            i <= texts@.len(),
            texts@.len() == spec_texts.len(),
            forall|k: int|
                0 <= k < texts@.len() ==> (#[trigger] texts@[k]).0 == spec_texts[k].0 && texts@[k].1@
                    == spec_texts[k].1,
            texts@.len() > 0 ==> tokens == tokens_u64(*payload),
            git_busy == ambient.git_state is Some,
            out@.len() == i,
            forall|k: int|
                0 <= k < i ==> (#[trigger] out@[k]).text@ == spec_texts[k].1 && out@[k].colors
                    == module_colors(*theme, spec_texts[k].0, tokens, ambient.usage_family, git_busy),
        decreases texts.len() - i,
    {
        let module = texts[i].0;
        let colors = module.colors_with(theme, tokens, ambient.usage_family, git_busy);
        let mut text = String::new();
        push_str(&mut text, texts[i].1.as_str());
        out.push(Segment { text, colors });
        i = i + 1;
    }
    assert(cells(out@) =~= cells_for(*payload, *ambient, *theme, modules@, width as nat, home@, mode));
    out
}

/// `n` spaces.
fn spaces(n: usize) -> (s: String)
    ensures
        s@ == repeat_char(' ', n as nat),
{
    let mut s = String::new();
    let mut i: usize = 0;
    while i < n
        invariant
            i <= n,
            s@ == repeat_char(' ', i as nat),
        decreases n - i,
    {
        push_char(&mut s, ' ');
        i = i + 1;
        assert(s@ =~= repeat_char(' ', i as nat));
    }
    s
}

/// The left bar followed, when there is a right bar, by the padding and the
/// right bar.
fn compose_bar(left_bar: String, right: &Vec<Segment>, mode: Mode, width: usize) -> (s: String)
    ensures
        s@ == (if cells(right@).len() == 0 {
            left_bar@
        } else {
            left_bar@ + repeat_char(' ', gap_width(width as nat, left_bar@, bar(cells(right@), mode, true)))
                + bar(cells(right@), mode, true)
        }),
{
    if right.len() == 0 {
        return left_bar;
    }
    let right_bar = render::render_right(right.as_slice(), mode);
    let vl = render::visible_width(left_bar.as_str());
    let vr = render::visible_width(right_bar.as_str());
    let used: usize = if vl > usize::MAX - vr {
        usize::MAX
    } else {
        vl + vr
    };
    let gap: usize = if width > used {
        width - used
    } else {
        1
    };
    assert(gap == gap_width(width as nat, left_bar@, right_bar@));
    let mut out = String::new();
    push_str(&mut out, left_bar.as_str());
    let pad = spaces(gap);
    push_str(&mut out, pad.as_str());
    push_str(&mut out, right_bar.as_str());
    assert(out@ =~= left_bar@ + repeat_char(' ', gap as nat) + right_bar@);
    out
}

/// Everything the program prints for a resolved theme: the flags are
/// checked in order (modules, right modules, mode), then the bar is built
/// for the resolved width, and the progress sequence unless suppressed.
#[verifier::spinoff_prover]
pub fn run_with_theme(
    payload: &Payload,
    ambient: &Ambient,
    theme: &Theme,
    cli: &Cli,
    env: &Env,
    tty_width: impl FnOnce() -> Option<usize>,
) -> (r: Result<Output, String>)
    requires
        call_requires(tty_width, ()),
        reads_tokens(*payload, *ambient, *cli) ==> payload.tokens_fit(),
        computes_progress(*cli) ==> progress_fits(*payload),
    ensures
        outcome_ok(r, *payload, *ambient, *theme, *cli, *env, tty_width),
{
    let modules = match segments::parse_modules(cli.modules.as_str()) {
        Ok(m) => m,
        Err(e) => return Err(e),
    };
    let modules_right = match segments::parse_modules(cli.modules_right.as_str()) {
        Ok(m) => m,
        Err(e) => return Err(e),
    };
    let mode = match Mode::parse(cli.mode.as_str()) {
        Ok(m) => m,
        Err(e) => return Err(e),
    };
    let columns: Option<&str> = match &env.columns {
        Some(c) => Some(c.as_str()),
        None => None,
    };
    let width = resolve_width(cli.width, columns, tty_width);
    let home = env.home.as_str();
    let left = build_segments(payload, ambient, theme, &modules, width, home, mode);
    let left_bar = render::render(left.as_slice(), mode);
    let right = build_segments(payload, ambient, theme, &modules_right, width, home, mode);
    let bar = compose_bar(left_bar, &right, mode, width);
    let progress = if cli.no_progress {
        None
    } else {
        match context_percent(payload) {
            Some(pc) => Some(progress::osc_sequence(pc)),
            None => None,
        }
    };
    let out = Output { bar, progress };
    assert(out.bar@ == bar_text(*payload, *ambient, *theme, modules@, modules_right@, width as nat, env.home@, mode));
    assert(width_resolves_to(cli.width, opt_view(env.columns), tty_width, width as nat));
    Ok(out)
}

/// Whether a theme name is one of the vendored palettes.
pub open spec fn theme_known(name: Seq<char>) -> bool {
    exists|p: nat| p < PALETTE_COUNT && palette_name(p) == name
}

/// Everything the program prints, for a vendored theme: an unknown theme
/// name is the first error; otherwise as `run_with_theme`.
pub fn run(
    payload: &Payload,
    ambient: &Ambient,
    cli: &Cli,
    env: &Env,
    tty_width: impl FnOnce() -> Option<usize>,
) -> (r: Result<Output, String>)
    requires
        call_requires(tty_width, ()),
        theme_known(cli.theme@) ==> (reads_tokens(*payload, *ambient, *cli) ==> payload.tokens_fit()),
        theme_known(cli.theme@) ==> (computes_progress(*cli) ==> progress_fits(*payload)),
    ensures
        forall|p: nat|
            p < PALETTE_COUNT && palette_name(p) == cli.theme@ ==> exists|t: Theme|
                t.is_palette(p) && outcome_ok(r, *payload, *ambient, t, *cli, *env, tty_width),
        (forall|p: nat| p < PALETTE_COUNT ==> palette_name(p) != cli.theme@) ==> (r matches Err(e)
            && e@ == "unknown theme '"@ + cli.theme@ + "', available: "@ + palette_list()),
{
    match Theme::by_name(cli.theme.as_str()) {
        Ok(theme) => run_with_theme(payload, ambient, &theme, cli, env, tty_width),
        Err(e) => Err(e),
    }
}

/// The progress sequence follows context usage: unless suppressed, it is
/// the sequence for the token count as a percentage of the window, and there
/// is none when either number is missing or zero.
pub proof fn progress_follows_context_usage(p: Payload, no_progress: bool)
    ensures
        progress_text(p, no_progress) == (if no_progress {
            None
        } else {
            match (p.tokens_spec(), p.window_size_spec()) {
                (Some(t), Some(s)) => if t > 0 && s > 0 {
                    Some(progress::osc_text(t * 100 / (s as nat)))
                } else {
                    None
                },
                _ => None,
            }
        }),
{
}

/// With a right bar, the padding makes the whole bar exactly as wide as the
/// terminal whenever both bars fit with a space to spare, and otherwise
/// keeps exactly one space between them.
pub proof fn right_bar_reaches_terminal_edge(
    p: Payload,
    amb: Ambient,
    theme: Theme,
    left: Seq<Module>,
    right: Seq<Module>,
    width: nat,
    home: Seq<char>,
    mode: Mode,
)
    requires
        cells_for(p, amb, theme, right, width, home, mode).len() > 0,
    ensures
        ({
            let used = visible(bar(cells_for(p, amb, theme, left, width, home, mode), mode, false))
                + visible(bar(cells_for(p, amb, theme, right, width, home, mode), mode, true));
            visible(bar_text(p, amb, theme, left, right, width, home, mode)) == if width > used {
                width
            } else {
                used + 1
            }
        }),
{
    let lc = cells_for(p, amb, theme, left, width, home, mode);
    let l = bar(lc, mode, false);
    let r = bar(cells_for(p, amb, theme, right, width, home, mode), mode, true);
    let g = gap_width(width, l, r);
    let pad = repeat_char(' ', g);
    if lc.len() > 0 {
        lemma_bar_ends_outside_escape(lc, mode, false);
    } else {
        assert(l.len() == 0);
    }
    assert(no_escape(pad));
    lemma_plain_width(pad);
    lemma_visible_concat(l, pad, false);
    lemma_escape_concat(l, pad, false);
    lemma_visible_concat(l + pad, r, false);
}

} // verus!
