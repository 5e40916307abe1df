//! Turns a list of colored segments into one ANSI powerline bar.

use vstd::prelude::*;
use vstd::string::*;

use crate::text::{decimal, push_decimal, push_str, str_eq};
use crate::theme::{Rgb, SegmentColors};

verus! {

pub const RESET: &'static str = "\x1b[0m";

/// Separator glyphs for one rendering mode. `hard` bridges two different
/// backgrounds, `thin` divides two segments sharing a background. The
/// `*_right` variants are the mirrored glyphs for a right-aligned bar.
pub struct Separators {
    pub hard: &'static str,
    pub thin: &'static str,
    pub fade: &'static str,
    pub hard_right: &'static str,
    pub thin_right: &'static str,
    pub fade_right: &'static str,
}

#[derive(Debug, Clone, Copy, PartialEq, Eq, Structural)]
pub enum Mode {
    /// Nerd-font powerline glyphs (private-use area).
    Patched,
    /// Standard Unicode stand-ins for terminals without patched fonts.
    Compatible,
    /// No separators at all.
    Flat,
}

/// The glyph that bridges two different backgrounds.
pub open spec fn hard_glyph(mode: Mode, right: bool) -> Seq<char> {
    match mode {
        Mode::Patched => if right {
            "\u{e0b2}"@
        } else {
            "\u{e0b0}"@
        },
        _ => if right {
            "◀"@
        } else {
            "▶"@
        },
    }
}

/// The glyph that divides two segments sharing a background.
pub open spec fn thin_glyph(mode: Mode, right: bool) -> Seq<char> {
    match mode {
        Mode::Patched => if right {
            "\u{e0b3}"@
        } else {
            "\u{e0b1}"@
        },
        _ => if right {
            "❮"@
        } else {
            "❯"@
        },
    }
}

/// The shaded fade at the outer end of a bar.
pub open spec fn fade_glyph(right: bool) -> Seq<char> {
    if right {
        "▓▒░"@
    } else {
        "░▒▓"@
    }
}

/// Whether a mode draws separators at all.
pub open spec fn has_separators(mode: Mode) -> bool {
    mode != Mode::Flat
}

/// The mode a CLI name selects.
pub open spec fn mode_named(name: Seq<char>) -> Option<Mode> {
    if name == "patched"@ {
        Some(Mode::Patched)
    } else if name == "compatible"@ {
        Some(Mode::Compatible)
    } else if name == "flat"@ {
        Some(Mode::Flat)
    } else {
        None
    }
}

impl Mode {
    /// CLI names for `--mode`, in documentation order.
    pub const NAMES: [&'static str; 3] = ["patched", "compatible", "flat"];

    pub fn separators(self) -> (s: Option<Separators>)
        ensures
            s is Some <==> has_separators(self),
            s matches Some(sep) ==> {
                &&& sep.hard@ == hard_glyph(self, false)
                &&& sep.thin@ == thin_glyph(self, false)
                &&& sep.fade@ == fade_glyph(false)
                &&& sep.hard_right@ == hard_glyph(self, true)
                &&& sep.thin_right@ == thin_glyph(self, true)
                &&& sep.fade_right@ == fade_glyph(true)
            },
    {
        match self {
            Mode::Patched => Some(
                Separators {
                    hard: "\u{e0b0}",
                    thin: "\u{e0b1}",
                    fade: "░▒▓",
                    hard_right: "\u{e0b2}",
                    thin_right: "\u{e0b3}",
                    fade_right: "▓▒░",
                },
            ),
            Mode::Compatible => Some(
                Separators {
                    hard: "▶",
                    thin: "❯",
                    fade: "░▒▓",
                    hard_right: "◀",
                    thin_right: "❮",
                    fade_right: "▓▒░",
                },
            ),
            Mode::Flat => None,
        }
    }

    /// The mode a CLI name selects, or an error listing the valid names.
    pub fn parse(s: &str) -> (r: Result<Mode, String>)
        ensures
            match mode_named(s@) {
                Some(m) => r == Ok::<Mode, String>(m),
                None => r matches Err(e) && e@ == "unknown mode '"@ + s@
                    + "', available: patched, compatible, flat"@,
            },
    {
        if str_eq(s, "patched") {
            Ok(Mode::Patched)
        } else if str_eq(s, "compatible") {
            Ok(Mode::Compatible)
        } else if str_eq(s, "flat") {
            Ok(Mode::Flat)
        } else {
            let mut e = String::new();
            push_str(&mut e, "unknown mode '");
            push_str(&mut e, s);
            push_str(&mut e, "', available: patched, compatible, flat");
            assert(e@ =~= "unknown mode '"@ + s@ + "', available: patched, compatible, flat"@);
            Err(e)
        }
    }
}

impl std::str::FromStr for Mode {
    type Err = String;

    fn from_str(s: &str) -> (r: Result<Mode, String>)
        ensures
            match mode_named(s@) {
                Some(m) => r == Ok::<Mode, String>(m),
                None => r matches Err(e) && e@ == "unknown mode '"@ + s@
                    + "', available: patched, compatible, flat"@,
            },
    {
        Mode::parse(s)
    }
}

#[derive(Debug, Clone)]
pub struct Segment {
    pub text: String,
    pub colors: SegmentColors,
}

/// The SGR sequence that sets a 24-bit foreground color.
pub open spec fn fg_code(c: Rgb) -> Seq<char> {
    "\x1b[38;2;"@ + decimal(c.r as nat) + ";"@ + decimal(c.g as nat) + ";"@ + decimal(c.b as nat)
        + "m"@
}

/// The SGR sequence that sets a 24-bit background color.
pub open spec fn bg_code(c: Rgb) -> Seq<char> {
    "\x1b[48;2;"@ + decimal(c.r as nat) + ";"@ + decimal(c.g as nat) + ";"@ + decimal(c.b as nat)
        + "m"@
}

/// What a segment stands for in specifications: its text and its colors.
pub type Cell = (Seq<char>, SegmentColors);

pub open spec fn cell_of(seg: Segment) -> Cell {
    (seg.text@, seg.colors)
}

/// The cells of a list of segments.
pub open spec fn cells(segs: Seq<Segment>) -> Seq<Cell> {
    segs.map_values(|seg: Segment| cell_of(seg))
}

/// One segment's own cell: its colors, then its text padded by a space on
/// each side.
pub open spec fn paint(seg: Cell) -> Seq<char> {
    bg_code(seg.1.bg) + fg_code(seg.1.fg) + " "@ + seg.0 + " "@
}

/// What stands between two neighbouring segments. In a left bar the hard
/// arrow is drawn in the left background over the right one; in a right bar
/// it is mirrored.
pub open spec fn bridge(prev: Cell, seg: Cell, mode: Mode, right: bool) -> Seq<char> {
    if prev.1.bg == seg.1.bg {
        bg_code(seg.1.bg) + fg_code(seg.1.fg) + thin_glyph(mode, right)
    } else if right {
        bg_code(prev.1.bg) + fg_code(seg.1.bg) + hard_glyph(mode, right)
    } else {
        bg_code(seg.1.bg) + fg_code(prev.1.bg) + hard_glyph(mode, right)
    }
}

/// The cells of the first `n` segments, with their separators.
pub open spec fn body(segs: Seq<Cell>, n: nat, mode: Mode, right: bool) -> Seq<char>
    decreases n,
{
    if n == 0 {
        Seq::empty()
    } else {
        let before = body(segs, (n - 1) as nat, mode, right);
        let sep = if n >= 2 && has_separators(mode) {
            bridge(segs[n - 2], segs[n - 1], mode, right)
        } else {
            Seq::empty()
        };
        before + sep + paint(segs[n - 1])
    }
}

/// The cell of segment `i` with the separator that precedes it.
pub open spec fn step(segs: Seq<Cell>, i: nat, mode: Mode, right: bool) -> Seq<char> {
    let sep = if i >= 1 && has_separators(mode) {
        bridge(segs[i - 1], segs[i as int], mode, right)
    } else {
        Seq::empty()
    };
    sep + paint(segs[i as int])
}

proof fn lemma_body_step(segs: Seq<Cell>, n: nat, mode: Mode, right: bool)
    ensures
        body(segs, n + 1, mode, right) =~= body(segs, n, mode, right) + step(segs, n, mode, right),
{
}

/// What opens a bar: the fade (left bar) or the arrow (right bar) in the
/// first segment's background color.
pub open spec fn opening(segs: Seq<Cell>, mode: Mode, right: bool) -> Seq<char> {
    if has_separators(mode) {
        fg_code(segs[0].1.bg) + if right {
            hard_glyph(mode, true)
        } else {
            fade_glyph(false)
        }
    } else {
        Seq::empty()
    }
}

/// What closes a bar: a reset, then the arrow (left bar) or the fade (right
/// bar) in the last segment's background color on the default background.
pub open spec fn closing(segs: Seq<Cell>, mode: Mode, right: bool) -> Seq<char> {
    if has_separators(mode) {
        RESET@ + fg_code(segs.last().1.bg) + (if right {
            fade_glyph(true)
        } else {
            hard_glyph(mode, false)
        }) + RESET@
    } else {
        RESET@
    }
}

/// The whole bar for a list of segments; nothing at all for none.
pub open spec fn bar(segs: Seq<Cell>, mode: Mode, right: bool) -> Seq<char> {
    if segs.len() == 0 {
        Seq::empty()
    } else {
        opening(segs, mode, right) + body(segs, segs.len(), mode, right) + closing(
            segs,
            mode,
            right,
        )
    }
}

fn push_fg(out: &mut String, color: Rgb)
    ensures
        final(out)@ == old(out)@ + fg_code(color),
{
    push_str(out, "\x1b[38;2;");
    push_decimal(out, color.r as u64);
    push_str(out, ";");
    push_decimal(out, color.g as u64);
    push_str(out, ";");
    push_decimal(out, color.b as u64);
    push_str(out, "m");
    assert(out@ =~= old(out)@ + fg_code(color));
}

fn push_bg(out: &mut String, color: Rgb)
    ensures
        final(out)@ == old(out)@ + bg_code(color),
{
    push_str(out, "\x1b[48;2;");
    push_decimal(out, color.r as u64);
    push_str(out, ";");
    push_decimal(out, color.g as u64);
    push_str(out, ";");
    push_decimal(out, color.b as u64);
    push_str(out, "m");
    assert(out@ =~= old(out)@ + bg_code(color));
}

/// The SGR sequence for a foreground color.
pub fn fg(color: Rgb) -> (s: String)
    ensures
        s@ == fg_code(color),
{
    let mut s = String::new();
    push_fg(&mut s, color);
    assert(s@ =~= fg_code(color));
    s
}

/// The SGR sequence for a background color.
pub fn bg(color: Rgb) -> (s: String)
    ensures
        s@ == bg_code(color),
{
    let mut s = String::new();
    push_bg(&mut s, color);
    assert(s@ =~= bg_code(color));
    s
}

fn push_paint(out: &mut String, seg: &Segment)
    ensures
        final(out)@ == old(out)@ + paint(cell_of(*seg)),
{
    push_bg(out, seg.colors.bg);
    push_fg(out, seg.colors.fg);
    push_str(out, " ");
    push_str(out, seg.text.as_str());
    push_str(out, " ");
    assert(out@ =~= old(out)@ + paint(cell_of(*seg)));
}

fn push_bridge(out: &mut String, prev: &Segment, seg: &Segment, sep: &Separators, mode: Mode, right: bool)
    requires
        has_separators(mode),
        sep.hard@ == hard_glyph(mode, false),
        sep.thin@ == thin_glyph(mode, false),
        sep.hard_right@ == hard_glyph(mode, true),
        sep.thin_right@ == thin_glyph(mode, true),
    ensures
        final(out)@ == old(out)@ + bridge(cell_of(*prev), cell_of(*seg), mode, right),
{
    if prev.colors.bg == seg.colors.bg {
        push_bg(out, seg.colors.bg);
        push_fg(out, seg.colors.fg);
        push_str(out, if right { sep.thin_right } else { sep.thin });
    } else if right {
        push_bg(out, prev.colors.bg);
        push_fg(out, seg.colors.bg);
        push_str(out, sep.hard_right);
    } else {
        push_bg(out, seg.colors.bg);
        push_fg(out, prev.colors.bg);
        push_str(out, sep.hard);
    }
    assert(out@ =~= old(out)@ + bridge(cell_of(*prev), cell_of(*seg), mode, right));
}

/// Whether a separator set is the one for `mode`.
pub open spec fn separators_match(sep: Separators, mode: Mode) -> bool {
    &&& sep.hard@ == hard_glyph(mode, false)
    &&& sep.thin@ == thin_glyph(mode, false)
    &&& sep.fade@ == fade_glyph(false)
    &&& sep.hard_right@ == hard_glyph(mode, true)
    &&& sep.thin_right@ == thin_glyph(mode, true)
    &&& sep.fade_right@ == fade_glyph(true)
}

fn push_step(
    out: &mut String,
    segments: &[Segment],
    i: usize,
    separators: &Option<Separators>,
    mode: Mode,
    right: bool,
)
    requires
        i < segments@.len(),
        separators is Some <==> has_separators(mode),
        separators matches Some(sep) ==> separators_match(*sep, mode),
    ensures
        final(out)@ == old(out)@ + step(cells(segments@), i as nat, mode, right),
{
    let ghost start = out@;
    match separators {
        Some(sep) => {
            if i > 0 {
                push_bridge(out, &segments[i - 1], &segments[i], sep, mode, right);
            }
        },
        None => {},
    }
    let ghost mid = out@;
    push_paint(out, &segments[i]);
    assert(out@ =~= start + step(cells(segments@), i as nat, mode, right));
}

fn push_opening(
    out: &mut String,
    segments: &[Segment],
    separators: &Option<Separators>,
    mode: Mode,
    right: bool,
)
    requires
        segments@.len() > 0,
        separators is Some <==> has_separators(mode),
        separators matches Some(sep) ==> separators_match(*sep, mode),
    ensures
        final(out)@ == old(out)@ + opening(cells(segments@), mode, right),
{
    match separators {
        Some(sep) => {
            push_fg(out, segments[0].colors.bg);
            push_str(out, if right { sep.hard_right } else { sep.fade });
        },
        None => {},
    }
    assert(out@ =~= old(out)@ + opening(cells(segments@), mode, right));
}

fn push_closing(
    out: &mut String,
    segments: &[Segment],
    separators: &Option<Separators>,
    mode: Mode,
    right: bool,
)
    requires
        segments@.len() > 0,
        separators is Some <==> has_separators(mode),
        separators matches Some(sep) ==> separators_match(*sep, mode),
    ensures
        final(out)@ == old(out)@ + closing(cells(segments@), mode, right),
{
    let last = &segments[segments.len() - 1];
    match separators {
        Some(sep) => {
            push_str(out, RESET);
            push_fg(out, last.colors.bg);
            push_str(out, if right { sep.fade_right } else { sep.hard });
            push_str(out, RESET);
        },
        None => {
            push_str(out, RESET);
        },
    }
    assert(out@ =~= old(out)@ + closing(cells(segments@), mode, right));
}

/// Renders a bar, mirrored for the right edge when `right` holds.
fn render_side(segments: &[Segment], mode: Mode, right: bool) -> (out: String)
    ensures
        out@ == bar(cells(segments@), mode, right),
{
    if segments.len() == 0 {
        return String::new();
    }
    let separators = mode.separators();
    let mut out = String::new();
    push_opening(&mut out, segments, &separators, mode, right);
    assert(out@ =~= opening(cells(segments@), mode, right));
    let mut i: usize = 0;
    while i < segments.len()
        invariant
            i <= segments@.len(),
            segments@.len() > 0,
            separators is Some <==> has_separators(mode),
            separators matches Some(sep) ==> separators_match(sep, mode),
            out@ == opening(cells(segments@), mode, right) + body(cells(segments@), i as nat, mode, right),
        decreases segments.len() - i,
    {
        let ghost before = out@;
        push_step(&mut out, segments, i, &separators, mode, right);
        proof {
            lemma_body_step(cells(segments@), i as nat, mode, right);
            assert(out@ =~= opening(cells(segments@), mode, right) + body(cells(segments@), (i + 1) as nat, mode, right));
        }
        i = i + 1;
    }
    let ghost front = out@;
    push_closing(&mut out, segments, &separators, mode, right);
    assert(out@ =~= bar(cells(segments@), mode, right));
    out
}

/// The left-aligned bar: opens with a fade, closes with an arrow on the
/// default background.
pub fn render(segments: &[Segment], mode: Mode) -> (out: String)
    ensures
        out@ == bar(cells(segments@), mode, false),
{
    render_side(segments, mode, false)
}

/// Mirror of `render` for a right-aligned bar: opens with a left-pointing
/// arrow on the default background, closes with the fade at the terminal's
/// right edge.
pub fn render_right(segments: &[Segment], mode: Mode) -> (out: String)
    ensures
        out@ == bar(cells(segments@), mode, true),
{
    render_side(segments, mode, true)
}

/// The columns a rendered string occupies: characters outside SGR escape
/// sequences (`ESC ... m`), each counted as one cell. `in_escape` says
/// whether the scan starts inside a sequence.
pub open spec fn visible_from(s: Seq<char>, in_escape: bool) -> nat
    decreases s.len(),
{
    if s.len() == 0 {
        0
    } else if in_escape {
        visible_from(s.drop_first(), s[0] != 'm')
    } else if s[0] == '\x1b' {
        visible_from(s.drop_first(), true)
    } else {
        1 + visible_from(s.drop_first(), false)
    }
}

/// Whether the scan is inside an escape sequence after reading `s`.
pub open spec fn escape_after(s: Seq<char>, in_escape: bool) -> bool
    decreases s.len(),
{
    if s.len() == 0 {
        in_escape
    } else if in_escape {
        escape_after(s.drop_first(), s[0] != 'm')
    } else {
        escape_after(s.drop_first(), s[0] == '\x1b')
    }
}

/// The number of columns a rendered bar occupies.
pub open spec fn visible(s: Seq<char>) -> nat {
    visible_from(s, false)
}

/// Columns the bar occupies on screen: characters outside SGR escape
/// sequences (`ESC [ ... m`), each counted as one cell, which holds for
/// every glyph this renderer emits.
pub fn visible_width(rendered: &str) -> (n: usize)
    ensures
        n == visible(rendered@),
{
    let chars = crate::text::chars_of(rendered);
    let mut count: usize = 0;
    let mut in_escape = false;
    let mut i: usize = 0;
    assert(chars@.subrange(0, chars@.len() as int) =~= chars@);
    while i < chars.len()
        invariant
            i <= chars@.len(),
            count <= i,
            count + visible_from(chars@.subrange(i as int, chars@.len() as int), in_escape)
                == visible_from(chars@, false),
        decreases chars.len() - i,
    {
        let ghost rest = chars@.subrange(i as int, chars@.len() as int);
        assert(rest.drop_first() =~= chars@.subrange(i + 1, chars@.len() as int));
        let c = chars[i];
        if in_escape {
            if c == 'm' {
                in_escape = false;
            }
        } else if c == '\x1b' {
            in_escape = true;
        } else {
            count = count + 1;
        }
        i = i + 1;
    }
    count
}

/// Counting columns distributes over concatenation, resuming the second
/// part in whatever escape state the first part left.
pub proof fn lemma_visible_concat(a: Seq<char>, b: Seq<char>, in_escape: bool)
    ensures
        visible_from(a + b, in_escape) == visible_from(a, in_escape) + visible_from(
            b,
            escape_after(a, in_escape),
        ),
    decreases a.len(),
{
    if a.len() > 0 {
        assert((a + b).drop_first() =~= a.drop_first() + b);
        if in_escape {
            lemma_visible_concat(a.drop_first(), b, a[0] != 'm');
        } else {
            lemma_visible_concat(a.drop_first(), b, a[0] == '\x1b');
        }
    } else {
        assert(a + b =~= b);
    }
}

/// Columns add up over concatenation when the first part closes every
/// escape sequence it opens.
pub proof fn visible_width_adds_up(a: Seq<char>, b: Seq<char>)
    requires
        escape_after(a, false) == false,
    ensures
        visible(a + b) == visible(a) + visible(b),
{
    lemma_visible_concat(a, b, false);
}

/// Separators point away from the bar's anchored end: between neighbours
/// that share a background, a right-aligned bar draws the mirrored thin
/// glyph (`\u{e0b3}`, or `❮` in plain Unicode) and a left bar the forward
/// one (`\u{e0b1}` or `❯`); between different backgrounds, the mirrored
/// (`\u{e0b2}` or `◀`) or forward (`\u{e0b0}` or `▶`) hard arrow. Each
/// separator ends in exactly that glyph.
pub proof fn separators_point_away_from_the_anchor(prev: Cell, seg: Cell, mode: Mode, right: bool)
    ensures
        ({
            let b = bridge(prev, seg, mode, right);
            let glyph = if prev.1.bg == seg.1.bg {
                if mode == Mode::Patched {
                    if right { '\u{e0b3}' } else { '\u{e0b1}' }
                } else {
                    if right { '❮' } else { '❯' }
                }
            } else if mode == Mode::Patched {
                if right { '\u{e0b2}' } else { '\u{e0b0}' }
            } else {
                if right { '◀' } else { '▶' }
            };
            b.len() > 0 && b.last() == glyph
        }),
{
    reveal_strlit("\u{e0b3}");
    reveal_strlit("\u{e0b1}");
    reveal_strlit("\u{e0b2}");
    reveal_strlit("\u{e0b0}");
    reveal_strlit("❮");
    reveal_strlit("❯");
    reveal_strlit("◀");
    reveal_strlit("▶");
}

/// Escape states compose over concatenation.
pub proof fn lemma_escape_concat(a: Seq<char>, b: Seq<char>, in_escape: bool)
    ensures
        escape_after(a + b, in_escape) == escape_after(b, escape_after(a, in_escape)),
    decreases a.len(),
{
    if a.len() > 0 {
        assert((a + b).drop_first() =~= a.drop_first() + b);
        if in_escape {
            lemma_escape_concat(a.drop_first(), b, a[0] != 'm');
        } else {
            lemma_escape_concat(a.drop_first(), b, a[0] == '\x1b');
        }
    } else {
        assert(a + b =~= b);
    }
}

/// A reset sequence takes no columns and leaves the scan outside any escape
/// sequence, whatever state it started in.
pub proof fn lemma_reset_closes(in_escape: bool)
    ensures
        escape_after(RESET@, in_escape) == false,
        visible_from(RESET@, in_escape) == 0,
{
    reveal_strlit("\x1b[0m");
    reveal_with_fuel(escape_after, 5);
    reveal_with_fuel(visible_from, 5);
    let s = RESET@;
    assert(s.len() == 4);
    assert(s.drop_first().drop_first().drop_first().drop_first() =~= Seq::<char>::empty());
}

/// Every non-empty bar ends in a reset, so a scan that has read a bar is
/// outside any escape sequence.
pub proof fn lemma_bar_ends_outside_escape(segs: Seq<Cell>, mode: Mode, right: bool)
    requires
        segs.len() > 0,
    ensures
        escape_after(bar(segs, mode, right), false) == false,
{
    let whole = bar(segs, mode, right);
    let front = if has_separators(mode) {
        opening(segs, mode, right) + body(segs, segs.len(), mode, right) + RESET@ + fg_code(
            segs.last().1.bg,
        ) + (if right {
            fade_glyph(true)
        } else {
            hard_glyph(mode, false)
        })
    } else {
        opening(segs, mode, right) + body(segs, segs.len(), mode, right)
    };
    assert(whole =~= front + RESET@);
    lemma_escape_concat(front, RESET@, false);
    lemma_reset_closes(escape_after(front, false));
}

/// Whether `s` holds no escape character.
pub open spec fn no_escape(s: Seq<char>) -> bool {
    forall|i: int| 0 <= i < s.len() ==> s[i] != '\x1b'
}

/// Whether `s` holds no `m`.
pub open spec fn no_m(s: Seq<char>) -> bool {
    forall|i: int| 0 <= i < s.len() ==> s[i] != 'm'
}

/// Text without escape characters takes one column per character and
/// leaves the scan outside any escape sequence.
pub proof fn lemma_plain_width(s: Seq<char>)
    requires
        no_escape(s),
    ensures
        visible_from(s, false) == s.len(),
        escape_after(s, false) == false,
    decreases s.len(),
{
    if s.len() > 0 {
        assert(no_escape(s.drop_first())) by {
            assert forall|i: int| 0 <= i < s.drop_first().len() implies s.drop_first()[i] != '\x1b' by {
                assert(s.drop_first()[i] == s[i + 1]);
            }
        }
        lemma_plain_width(s.drop_first());
    }
}

/// Inside an escape sequence, a run without `m` followed by one `m` takes
/// no columns and ends the sequence.
proof fn lemma_escape_tail(s: Seq<char>)
    requires
        s.len() > 0,
        s.last() == 'm',
        no_m(s.drop_last()),
    ensures
        visible_from(s, true) == 0,
        escape_after(s, true) == false,
    decreases s.len(),
{
    if s.len() > 1 {
        assert(s[0] == s.drop_last()[0]);
        assert(s[0] != 'm');
        assert(s.drop_first().drop_last() =~= s.drop_last().drop_first());
        assert(no_m(s.drop_first().drop_last())) by {
            assert forall|i: int| 0 <= i < s.drop_first().drop_last().len() implies s.drop_first().drop_last()[i] != 'm' by {
                assert(s.drop_first().drop_last()[i] == s.drop_last()[i + 1]);
            }
        }
        lemma_escape_tail(s.drop_first());
    } else {
        assert(s.drop_first().len() == 0);
        assert(s[0] == 'm');
        assert(visible_from(s.drop_first(), false) == 0);
        assert(escape_after(s.drop_first(), false) == false);
    }
}

proof fn lemma_decimal_no_m(n: nat)
    ensures
        no_m(decimal(n)),
    decreases n,
{
    if n >= 10 {
        lemma_decimal_no_m(n / 10);
        let d = decimal(n);
        assert forall|i: int| 0 <= i < d.len() implies d[i] != 'm' by {
            if i < d.len() - 1 {
                assert(d[i] == decimal(n / 10)[i]);
            }
        }
    }
}

/// A color sequence takes no columns and leaves the scan outside any escape
/// sequence, whatever state the scan started in.
proof fn lemma_color_code(code: Seq<char>, lead: Seq<char>, c: Rgb, st: bool)
    requires
        code == lead + decimal(c.r as nat) + ";"@ + decimal(c.g as nat) + ";"@ + decimal(c.b as nat)
            + "m"@,
        lead.len() > 0,
        lead[0] == '\x1b',
        no_m(lead),
    ensures
        visible_from(code, st) == 0,
        escape_after(code, st) == false,
{
    reveal_strlit(";");
    reveal_strlit("m");
    lemma_decimal_no_m(c.r as nat);
    lemma_decimal_no_m(c.g as nat);
    lemma_decimal_no_m(c.b as nat);
    let inner = lead + decimal(c.r as nat) + ";"@ + decimal(c.g as nat) + ";"@ + decimal(c.b as nat);
    assert(code =~= inner.push('m'));
    assert(no_m(inner)) by {
        assert forall|i: int| 0 <= i < inner.len() implies inner[i] != 'm' by {
            let a = lead;
            let b = a + decimal(c.r as nat);
            let d = b + ";"@;
            let e = d + decimal(c.g as nat);
            let f = e + ";"@;
            if i < a.len() {
            } else if i < b.len() {
                assert(inner[i] == decimal(c.r as nat)[i - a.len()]);
            } else if i < d.len() {
            } else if i < e.len() {
                assert(inner[i] == decimal(c.g as nat)[i - d.len()]);
            } else if i < f.len() {
            } else {
                assert(inner[i] == decimal(c.b as nat)[i - f.len()]);
            }
        }
    }
    assert(code.drop_first().drop_last() =~= inner.drop_first());
    assert(no_m(code.drop_first().drop_last())) by {
        assert forall|i: int| 0 <= i < code.drop_first().drop_last().len() implies code.drop_first().drop_last()[i] != 'm' by {
            assert(code.drop_first().drop_last()[i] == inner[i + 1]);
        }
    }
    lemma_escape_tail(code.drop_first());
    assert(code[0] == '\x1b');
}

pub proof fn lemma_fg_code(c: Rgb, st: bool)
    ensures
        visible_from(fg_code(c), st) == 0,
        escape_after(fg_code(c), st) == false,
{
    reveal_strlit("\x1b[38;2;");
    let lead = "\x1b[38;2;"@;
    assert(no_m(lead));
    lemma_color_code(fg_code(c), lead, c, st);
}

pub proof fn lemma_bg_code(c: Rgb, st: bool)
    ensures
        visible_from(bg_code(c), st) == 0,
        escape_after(bg_code(c), st) == false,
{
    reveal_strlit("\x1b[48;2;");
    let lead = "\x1b[48;2;"@;
    assert(no_m(lead));
    lemma_color_code(bg_code(c), lead, c, st);
}

/// Whether a cell's text leaves the scan outside any escape sequence, as
/// every text without escape characters does.
pub open spec fn text_closed(c: Cell) -> bool {
    escape_after(c.0, false) == false
}

/// The columns a cell's painted text takes: its visible text and a space on
/// each side.
pub open spec fn cell_width(c: Cell) -> nat {
    visible(c.0) + 2
}

/// The columns the first `n` cells' texts take.
pub open spec fn cells_width(cs: Seq<Cell>, n: nat) -> nat
    decreases n,
{
    if n == 0 {
        0
    } else {
        cells_width(cs, (n - 1) as nat) + cell_width(cs[n - 1])
    }
}

proof fn lemma_paint_width(c: Cell)
    requires
        text_closed(c),
    ensures
        visible_from(paint(c), false) == cell_width(c),
        escape_after(paint(c), false) == false,
{
    reveal_strlit(" ");
    let b = bg_code(c.1.bg);
    let f = fg_code(c.1.fg);
    let sp = " "@;
    lemma_bg_code(c.1.bg, false);
    lemma_fg_code(c.1.fg, false);
    lemma_plain_width(sp);
    lemma_visible_concat(b, f, false);
    lemma_escape_concat(b, f, false);
    lemma_visible_concat(b + f, sp, false);
    lemma_escape_concat(b + f, sp, false);
    lemma_visible_concat(b + f + sp, c.0, false);
    lemma_escape_concat(b + f + sp, c.0, false);
    lemma_visible_concat(b + f + sp + c.0, sp, false);
    lemma_escape_concat(b + f + sp + c.0, sp, false);
}

proof fn lemma_glyph_width(g: Seq<char>)
    requires
        no_escape(g),
    ensures
        visible_from(g, false) == g.len(),
        escape_after(g, false) == false,
{
    lemma_plain_width(g);
}

proof fn lemma_glyphs_plain(mode: Mode, right: bool)
    ensures
        no_escape(hard_glyph(mode, right)) && hard_glyph(mode, right).len() == 1,
        no_escape(thin_glyph(mode, right)) && thin_glyph(mode, right).len() == 1,
        no_escape(fade_glyph(right)) && fade_glyph(right).len() == 3,
{
    reveal_strlit("\u{e0b2}");
    reveal_strlit("\u{e0b0}");
    reveal_strlit("◀");
    reveal_strlit("▶");
    reveal_strlit("\u{e0b3}");
    reveal_strlit("\u{e0b1}");
    reveal_strlit("❮");
    reveal_strlit("❯");
    reveal_strlit("▓▒░");
    reveal_strlit("░▒▓");
}

proof fn lemma_bridge_width(prev: Cell, c: Cell, mode: Mode, right: bool)
    ensures
        visible_from(bridge(prev, c, mode, right), false) == 1,
        escape_after(bridge(prev, c, mode, right), false) == false,
{
    lemma_glyphs_plain(mode, right);
    let (x, y, g) = if prev.1.bg == c.1.bg {
        (bg_code(c.1.bg), fg_code(c.1.fg), thin_glyph(mode, right))
    } else if right {
        (bg_code(prev.1.bg), fg_code(c.1.bg), hard_glyph(mode, right))
    } else {
        (bg_code(c.1.bg), fg_code(prev.1.bg), hard_glyph(mode, right))
    };
    assert(bridge(prev, c, mode, right) == x + y + g);
    if prev.1.bg == c.1.bg {
        lemma_bg_code(c.1.bg, false);
        lemma_fg_code(c.1.fg, false);
    } else if right {
        lemma_bg_code(prev.1.bg, false);
        lemma_fg_code(c.1.bg, false);
    } else {
        lemma_bg_code(c.1.bg, false);
        lemma_fg_code(prev.1.bg, false);
    }
    lemma_glyph_width(g);
    lemma_visible_concat(x, y, false);
    lemma_escape_concat(x, y, false);
    lemma_visible_concat(x + y, g, false);
    lemma_escape_concat(x + y, g, false);
}

/// The columns the separators between the first `n` cells take.
pub open spec fn bridges_width(n: nat, mode: Mode) -> nat {
    if has_separators(mode) && n >= 1 {
        (n - 1) as nat
    } else {
        0
    }
}

proof fn lemma_body_width(cs: Seq<Cell>, n: nat, mode: Mode, right: bool)
    requires
        n <= cs.len(),
        forall|i: int| 0 <= i < cs.len() ==> text_closed(#[trigger] cs[i]),
    ensures
        visible_from(body(cs, n, mode, right), false) == cells_width(cs, n) + bridges_width(n, mode),
        escape_after(body(cs, n, mode, right), false) == false,
    decreases n,
{
    if n > 0 {
        lemma_body_width(cs, (n - 1) as nat, mode, right);
        let before = body(cs, (n - 1) as nat, mode, right);
        let sep = if n >= 2 && has_separators(mode) {
            bridge(cs[n - 2], cs[n - 1], mode, right)
        } else {
            Seq::empty()
        };
        if n >= 2 && has_separators(mode) {
            lemma_bridge_width(cs[n - 2], cs[n - 1], mode, right);
        }
        assert(text_closed(cs[n - 1]));
        lemma_paint_width(cs[n - 1]);
        lemma_visible_concat(before, sep, false);
        lemma_escape_concat(before, sep, false);
        lemma_visible_concat(before + sep, paint(cs[n - 1]), false);
        lemma_escape_concat(before + sep, paint(cs[n - 1]), false);
    }
}

/// The columns a whole bar takes: every cell's text plus a space on each
/// side, and, where the mode draws separators, one column per separator
/// between cells, one for the closing (left) or opening (right) arrow and
/// three for the fade.
pub proof fn bar_width(cs: Seq<Cell>, mode: Mode, right: bool)
    requires
        cs.len() > 0,
        forall|i: int| 0 <= i < cs.len() ==> text_closed(#[trigger] cs[i]),
    ensures
        visible(bar(cs, mode, right)) == cells_width(cs, cs.len()) + if has_separators(mode) {
            cs.len() + 3
        } else {
            0
        },
{
    lemma_glyphs_plain(mode, right);
    lemma_glyphs_plain(mode, false);
    lemma_glyphs_plain(mode, true);
    lemma_body_width(cs, cs.len(), mode, right);
    lemma_reset_closes(false);
    let o = opening(cs, mode, right);
    let b = body(cs, cs.len(), mode, right);
    let c = closing(cs, mode, right);
    if has_separators(mode) {
        let g1 = if right {
            hard_glyph(mode, true)
        } else {
            fade_glyph(false)
        };
        lemma_fg_code(cs[0].1.bg, false);
        lemma_glyph_width(g1);
        lemma_visible_concat(fg_code(cs[0].1.bg), g1, false);
        lemma_escape_concat(fg_code(cs[0].1.bg), g1, false);
        let g2 = if right {
            fade_glyph(true)
        } else {
            hard_glyph(mode, false)
        };
        let f = fg_code(cs.last().1.bg);
        lemma_fg_code(cs.last().1.bg, false);
        lemma_glyph_width(g2);
        lemma_visible_concat(RESET@, f, false);
        lemma_escape_concat(RESET@, f, false);
        lemma_visible_concat(RESET@ + f, g2, false);
        lemma_escape_concat(RESET@ + f, g2, false);
        lemma_visible_concat(RESET@ + f + g2, RESET@, false);
    }
    lemma_visible_concat(o, b, false);
    lemma_escape_concat(o, b, false);
    lemma_visible_concat(o + b, c, false);
}

/// A mode's CLI name, as `Mode::NAMES` lists it.
pub open spec fn mode_name(m: Mode) -> Seq<char> {
    match m {
        Mode::Patched => "patched"@,
        Mode::Compatible => "compatible"@,
        Mode::Flat => "flat"@,
    }
}

/// Every mode's CLI name selects that mode, so `Mode::parse` accepts
/// exactly the listed names, one per mode.
pub proof fn mode_name_round_trip(m: Mode)
    ensures
        mode_named(mode_name(m)) == Some(m),
{
    reveal_strlit("patched");
    reveal_strlit("compatible");
    reveal_strlit("flat");
    assert("patched"@.len() != "compatible"@.len());
    assert("patched"@.len() != "flat"@.len());
    assert("compatible"@.len() != "flat"@.len());
}

} // verus!
