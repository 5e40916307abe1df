//! Color themes, from the upstream starship palette files.
//!
//! A palette defines fg/bg pairs per semantic family (logo, directory, git,
//! model, context, cost, and the context warn/alert states). The segments
//! that have no family of their own (stats, effort) reuse existing families
//! so every theme stays coherent: stats renders with the cost fg on the
//! context bg, effort with the model colors.
//!
//! A custom theme is a `theme.yaml` with any subset of the six families a
//! file can name (the logo's, directory, git, model, context and cost; each
//! an optional `fg`/`bg` hex pair); anything left unspecified falls back to
//! the catppuccin-mocha value for that slot. Reading and parsing the file is the
//! caller's job: `Theme::from_raw` takes the parsed overrides.

use vstd::prelude::*;
use vstd::string::*;

use crate::text::{chars_of, push_str, str_eq};

verus! {

#[derive(Debug, Clone, Copy, PartialEq, Eq, Structural)]
pub struct Rgb {
    pub r: u8,
    pub g: u8,
    pub b: u8,
}

/// The color a `0xRRGGBB` word names (bits above the low 24 are ignored).
pub open spec fn rgb_of(value: u32) -> Rgb {
    Rgb { r: (value >> 16u32) as u8, g: (value >> 8u32) as u8, b: value as u8 }
}

/// Whether `c` is a hexadecimal digit, either case.
pub open spec fn is_hex_digit(c: char) -> bool {
    ('0' <= c <= '9') || ('a' <= c <= 'f') || ('A' <= c <= 'F')
}

pub open spec fn hex_digit_value(c: char) -> nat {
    if '0' <= c <= '9' {
        (c as int - '0' as int) as nat
    } else if 'a' <= c <= 'f' {
        (c as int - 'a' as int + 10) as nat
    } else {
        (c as int - 'A' as int + 10) as nat
    }
}

pub open spec fn hex_value(s: Seq<char>) -> nat
    decreases s.len(),
{
    if s.len() == 0 {
        0
    } else {
        hex_value(s.drop_last()) * 16 + hex_digit_value(s.last())
    }
}

pub open spec fn all_hex(s: Seq<char>) -> bool {
    forall|i: int| 0 <= i < s.len() ==> is_hex_digit(#[trigger] s[i])
}

/// The value of a string of one or more hex digits, and nothing else, when
/// it fits in `u32`.
pub open spec fn parsed_hex_u32(s: Seq<char>) -> Option<nat> {
    let digits = s;
    if digits.len() > 0 && all_hex(digits) && hex_value(digits) <= u32::MAX {
        Some(hex_value(digits))
    } else {
        None
    }
}

/// The digits part of a color string: the input without one leading `#`.
pub open spec fn color_digits(value: Seq<char>) -> Seq<char> {
    if value.len() > 0 && value[0] == '#' {
        value.drop_first()
    } else {
        value
    }
}

/// What `Rgb::parse_hex` returns for a color string.
pub open spec fn parse_hex_result(value: Seq<char>) -> Result<Rgb, Seq<char>> {
    let digits = color_digits(value);
    if utf8_len(digits) != 6 {
        Err("invalid color '"@ + value + "': expected 6 hex digits (e.g. '#d97757')"@)
    } else {
        match parsed_hex_u32(digits) {
            Some(v) => Ok(rgb_of(v as u32)),
            None => Err("invalid color '"@ + value + "': not a valid hex value"@),
        }
    }
}

impl Rgb {
    /// The color a `0xRRGGBB` word names.
    pub fn hex(value: u32) -> (c: Rgb)
        ensures
            c == rgb_of(value),
    {
        Rgb { r: (value >> 16u32) as u8, g: (value >> 8u32) as u8, b: value as u8 }
    }

    /// Parses a `#rrggbb` or `rrggbb` hex color string.
    pub fn parse_hex(value: &str) -> (r: Result<Rgb, String>)
        ensures
            match (r, parse_hex_result(value@)) {
                (Ok(c), Ok(d)) => c == d,
                (Err(e), Err(m)) => e@ == m,
                _ => false,
            },
    {
        let all = chars_of(value);
        let start: usize = if all.len() > 0 && all[0] == '#' {
            1
        } else {
            0
        };
        let digits = chars_from(&all, start);
        assert(digits@ =~= color_digits(value@));
        if !utf8_len_is(&digits, 6) {
            let mut e = String::new();
            push_str(&mut e, "invalid color '");
            push_str(&mut e, value);
            push_str(&mut e, "': expected 6 hex digits (e.g. '#d97757')");
            assert(e@ =~= "invalid color '"@ + value@ + "': expected 6 hex digits (e.g. '#d97757')"@);
            return Err(e);
        }
        match parse_hex_u32(&digits) {
            Some(v) => Ok(Rgb::hex(v)),
            None => {
                let mut e = String::new();
                push_str(&mut e, "invalid color '");
                push_str(&mut e, value);
                push_str(&mut e, "': not a valid hex value");
                assert(e@ =~= "invalid color '"@ + value@ + "': not a valid hex value"@);
                Err(e)
            },
        }
    }
}

/// The number of bytes UTF-8 spends on a character.
pub open spec fn utf8_width(c: char) -> nat {
    if (c as u32) < 0x80 {
        1
    } else if (c as u32) < 0x800 {
        2
    } else if (c as u32) < 0x10000 {
        3
    } else {
        4
    }
}

/// The UTF-8 length of a character sequence, in bytes (what `str::len`
/// counts).
pub open spec fn utf8_len(s: Seq<char>) -> nat
    decreases s.len(),
{
    if s.len() == 0 {
        0
    } else {
        utf8_len(s.drop_last()) + utf8_width(s.last())
    }
}

proof fn lemma_utf8_len_grows(s: Seq<char>, i: int)
    requires
        0 <= i <= s.len(),
    ensures
        utf8_len(s.subrange(0, i)) <= utf8_len(s),
    decreases s.len() - i,
{
    if i < s.len() {
        lemma_utf8_len_grows(s, i + 1);
        assert(s.subrange(0, i + 1).drop_last() =~= s.subrange(0, i));
    } else {
        assert(s.subrange(0, i) =~= s);
    }
}

/// Whether `v` takes exactly `n` bytes in UTF-8.
fn utf8_len_is(v: &Vec<char>, n: u64) -> (r: bool)
    requires
        n < 1000,
    ensures
        r == (utf8_len(v@) == n),
{
    let mut total: u64 = 0;
    let mut i: usize = 0;
    while i < v.len()
        invariant
            n < 1000,
            i <= v.len(),
            total == utf8_len(v@.subrange(0, i as int)),
            total <= n,
        decreases v.len() - i,
    {
        let c = v[i];
        let w: u64 = if (c as u32) < 0x80 {
            1
        } else if (c as u32) < 0x800 {
            2
        } else if (c as u32) < 0x10000 {
            3
        } else {
            4
        };
        assert(v@.subrange(0, i + 1).drop_last() =~= v@.subrange(0, i as int));
        total = total + w;
        i = i + 1;
        if total > n {
            proof {
                lemma_utf8_len_grows(v@, i as int);
            }
            return false;
        }
    }
    assert(v@.subrange(0, v.len() as int) =~= v@);
    total == n
}

/// The characters of `v` from index `start` on.
fn chars_from(v: &Vec<char>, start: usize) -> (r: Vec<char>)
    requires
        start <= v.len(),
    ensures
        r@ == v@.subrange(start as int, v@.len() as int),
{
    let mut r: Vec<char> = Vec::new();
    let mut i: usize = start;
    while i < v.len()
        invariant
            start <= i <= v.len(),
            r@ == v@.subrange(start as int, i as int),
        decreases v.len() - i,
    {
        r.push(v[i]);
        i = i + 1;
    }
    r
}

/// The value of a hex digit character.
fn hex_digit(c: char) -> (d: u32)
    requires
        is_hex_digit(c),
    ensures
        d == hex_digit_value(c),
        d < 16,
{
    if '0' <= c && c <= '9' {
        (c as u32) - ('0' as u32)
    } else if 'a' <= c && c <= 'f' {
        (c as u32) - ('a' as u32) + 10
    } else {
        (c as u32) - ('A' as u32) + 10
    }
}

/// The value of hex digits `s`: `None` unless every character is a hex
/// digit, there is at least one, and the value fits in `u32`.
pub fn parse_hex_u32(s: &Vec<char>) -> (r: Option<u32>)
    ensures
        match parsed_hex_u32(s@) {
            Some(v) => r == Some(v as u32),
            None => r is None,
        },
{
    let all = s;
    let ghost digits = s@;
    assert(digits == all@.subrange(0, all@.len() as int));
    if all.len() == 0 {
        return None;
    }
    let mut value: u64 = 0;
    let mut i: usize = 0;
    while i < all.len()
        invariant
            i <= all.len(),
            all@ == s@,
            digits == all@.subrange(0, all@.len() as int),
            digits == s@,
            all_hex(all@.subrange(0, i as int)),
            value == hex_value(all@.subrange(0, i as int)),
            value <= u32::MAX,
        decreases all.len() - i,
    {
        let c = all[i];
        if !(('0' <= c && c <= '9') || ('a' <= c && c <= 'f') || ('A' <= c && c <= 'F')) {
            assert(digits[i as int] == c);
            assert(!is_hex_digit(digits[i as int]));
            assert(!all_hex(digits));
            assert(parsed_hex_u32(s@) is None);
            return None;
        }
        let d = hex_digit(c);
        let ghost prefix = all@.subrange(0, i as int);
        let ghost next = all@.subrange(0, i + 1);
        assert(next.drop_last() == prefix);
        assert(next.last() == c);
        if value > (u32::MAX as u64 - d as u64) / 16 {
            proof {
                assert(digits.subrange(0, next.len() as int) =~= next);
                assert(all_hex(next)) by {
                    assert forall|j: int| 0 <= j < next.len() implies is_hex_digit(#[trigger] next[j]) by {
                        if j < next.len() - 1 {
                            assert(next[j] == prefix[j]);
                        }
                    }
                }
                assert(hex_value(next) == hex_value(prefix) * 16 + hex_digit_value(c));
                assert(hex_value(next) > u32::MAX);
                lemma_hex_value_prefix_bound(digits, next);
                assert(parsed_hex_u32(s@) is None);
            }
            return None;
        }
        value = value * 16 + d as u64;
        i = i + 1;
    }
    assert(all@.subrange(0, all@.len() as int) == digits);
    Some(value as u32)
}

/// A run of hex digits is worth at least as much as any prefix of it.
proof fn lemma_hex_value_prefix_bound(s: Seq<char>, prefix: Seq<char>)
    requires
        prefix.len() <= s.len(),
        prefix == s.subrange(0, prefix.len() as int),
        all_hex(prefix),
    ensures
        hex_value(s) >= hex_value(prefix),
    decreases s.len(),
{
    if s.len() > prefix.len() {
        assert(s.drop_last().subrange(0, prefix.len() as int) == prefix);
        lemma_hex_value_prefix_bound(s.drop_last(), prefix);
    } else {
        assert(s == prefix);
    }
}

#[derive(Debug, Clone, Copy, PartialEq, Eq, Structural)]
pub struct SegmentColors {
    pub fg: Rgb,
    pub bg: Rgb,
}

#[derive(Debug, Clone, Copy, PartialEq, Eq, Structural)]
pub enum SegmentKind {
    Logo,
    Dir,
    Git,
    Model,
    Context,
    Cost,
    Stats,
    Effort,
}

/// One semantic color family: what a palette defines. Segments pick their
/// fg and bg from these.
#[derive(Debug, Clone, Copy, PartialEq, Eq, Structural)]
pub enum Family {
    Claude,
    Directory,
    Git,
    Model,
    Context,
    Cost,
    /// The context segment past its warning threshold.
    ContextWarn,
    /// The context segment past its alert threshold.
    ContextAlert,
}

/// The slot a family occupies in a palette.
pub open spec fn family_slot(family: Family) -> nat {
    match family {
        Family::Claude => 0,
        Family::Directory => 1,
        Family::Git => 2,
        Family::Model => 3,
        Family::Context => 4,
        Family::Cost => 5,
        Family::ContextWarn => 6,
        Family::ContextAlert => 7,
    }
}

/// The number of families a palette defines.
pub const FAMILY_COUNT: usize = 8;

/// The number of vendored palettes.
pub const PALETTE_COUNT: usize = 6;

impl Family {
    pub const ALL: [Family; 8] = [
        Family::Claude,
        Family::Directory,
        Family::Git,
        Family::Model,
        Family::Context,
        Family::Cost,
        Family::ContextWarn,
        Family::ContextAlert,
    ];

    /// The slot this family occupies in a palette.
    pub fn slot(self) -> (i: usize)
        ensures
            i == family_slot(self),
            i < FAMILY_COUNT,
    {
        match self {
            Family::Claude => 0,
            Family::Directory => 1,
            Family::Git => 2,
            Family::Model => 3,
            Family::Context => 4,
            Family::Cost => 5,
            Family::ContextWarn => 6,
            Family::ContextAlert => 7,
        }
    }
}

/// The names of the vendored palettes, in listing order.
pub open spec fn palette_name(p: nat) -> Seq<char> {
    if p == 0 {
        "catppuccin-mocha"@
    } else if p == 1 {
        "catppuccin-frappe"@
    } else if p == 2 {
        "dracula"@
    } else if p == 3 {
        "gruvbox-dark"@
    } else if p == 4 {
        "nord"@
    } else {
        "tokyonight"@
    }
}

/// The vendored palettes: `(fg, bg)` as `0xRRGGBB` words for palette `p`
/// and family slot `f`.
pub open spec fn palette_hex(p: nat, f: nat) -> (u32, u32) {
    if p == 0 {
        if f == 0 { (0xd97757, 0x313244) }
        else if f == 1 { (0x89dceb, 0x1e1e2e) }
        else if f == 2 { (0xeba0ac, 0x313244) }
        else if f == 3 { (0xb4befe, 0x1e1e2e) }
        else if f == 4 { (0xfab387, 0x313244) }
        else if f == 5 { (0xa6e3a1, 0x45475a) }
        else if f == 6 { (0x1e1e2e, 0xfab387) }
        else { (0x1e1e2e, 0xf38ba8) }
    } else if p == 1 {
        if f == 0 { (0xd97757, 0xeff1f5) }
        else if f == 1 { (0x04a5e5, 0xeff1f5) }
        else if f == 2 { (0xdd7878, 0xccd0da) }
        else if f == 3 { (0x8839ef, 0xeff1f5) }
        else if f == 4 { (0xdf8e1d, 0xccd0da) }
        else if f == 5 { (0x40a02b, 0xbcc0cc) }
        else if f == 6 { (0xeff1f5, 0xfe640b) }
        else { (0xeff1f5, 0xd20f39) }
    } else if p == 2 {
        if f == 0 { (0xd97757, 0x44475a) }
        else if f == 1 { (0x8be9fd, 0x282a36) }
        else if f == 2 { (0xbd93f9, 0x44475a) }
        else if f == 3 { (0x8be9fd, 0x282a36) }
        else if f == 4 { (0xffb86c, 0x44475a) }
        else if f == 5 { (0x50fa7b, 0x4d4f68) }
        else if f == 6 { (0x282a36, 0xffb86c) }
        else { (0x282a36, 0xff5555) }
    } else if p == 3 {
        if f == 0 { (0xd97757, 0x282828) }
        else if f == 1 { (0x83a598, 0x282828) }
        else if f == 2 { (0xb16286, 0x3c3836) }
        else if f == 3 { (0x458588, 0x282828) }
        else if f == 4 { (0xd79921, 0x3c3836) }
        else if f == 5 { (0x689d6a, 0x504945) }
        else if f == 6 { (0x282828, 0xd65d0e) }
        else { (0x282828, 0xcc241d) }
    } else if p == 4 {
        if f == 0 { (0xd97757, 0x2e3440) }
        else if f == 1 { (0x88c0d0, 0x2e3440) }
        else if f == 2 { (0xb48ead, 0x3b4252) }
        else if f == 3 { (0x5e81ac, 0x2e3440) }
        else if f == 4 { (0x8fbcbb, 0x3b4252) }
        else if f == 5 { (0xa3be8c, 0x434c5e) }
        else if f == 6 { (0x2e3440, 0xd08770) }
        else { (0x2e3440, 0xbf616a) }
    } else {
        if f == 0 { (0x090c0c, 0xa3aed2) }
        else if f == 1 { (0xe3e5e5, 0x769ff0) }
        else if f == 2 { (0x769ff0, 0x394260) }
        else if f == 3 { (0x769ff0, 0x212736) }
        else if f == 4 { (0xa0a9cb, 0x1d2230) }
        else if f == 5 { (0xc0caf5, 0x414868) }
        else if f == 6 { (0x1a1b26, 0xe0af68) }
        else { (0x1a1b26, 0xf7768e) }
    }
}

/// The colors of one palette slot.
pub open spec fn palette_colors(p: nat, f: nat) -> SegmentColors {
    SegmentColors { fg: rgb_of(palette_hex(p, f).0), bg: rgb_of(palette_hex(p, f).1) }
}

/// All the colors of one palette, in family-slot order.
pub open spec fn palette_seq(p: nat) -> Seq<SegmentColors> {
    Seq::new(FAMILY_COUNT as nat, |f: int| palette_colors(p, f as nat))
}

/// The vendored palette table.
fn palette_hex_of(p: usize, f: usize) -> (r: (u32, u32))
    ensures
        r == palette_hex(p as nat, f as nat),
{
    if p == 0 {
        if f == 0 { (0xd97757, 0x313244) }
        else if f == 1 { (0x89dceb, 0x1e1e2e) }
        else if f == 2 { (0xeba0ac, 0x313244) }
        else if f == 3 { (0xb4befe, 0x1e1e2e) }
        else if f == 4 { (0xfab387, 0x313244) }
        else if f == 5 { (0xa6e3a1, 0x45475a) }
        else if f == 6 { (0x1e1e2e, 0xfab387) }
        else { (0x1e1e2e, 0xf38ba8) }
    } else if p == 1 {
        if f == 0 { (0xd97757, 0xeff1f5) }
        else if f == 1 { (0x04a5e5, 0xeff1f5) }
        else if f == 2 { (0xdd7878, 0xccd0da) }
        else if f == 3 { (0x8839ef, 0xeff1f5) }
        else if f == 4 { (0xdf8e1d, 0xccd0da) }
        else if f == 5 { (0x40a02b, 0xbcc0cc) }
        else if f == 6 { (0xeff1f5, 0xfe640b) }
        else { (0xeff1f5, 0xd20f39) }
    } else if p == 2 {
        if f == 0 { (0xd97757, 0x44475a) }
        else if f == 1 { (0x8be9fd, 0x282a36) }
        else if f == 2 { (0xbd93f9, 0x44475a) }
        else if f == 3 { (0x8be9fd, 0x282a36) }
        else if f == 4 { (0xffb86c, 0x44475a) }
        else if f == 5 { (0x50fa7b, 0x4d4f68) }
        else if f == 6 { (0x282a36, 0xffb86c) }
        else { (0x282a36, 0xff5555) }
    } else if p == 3 {
        if f == 0 { (0xd97757, 0x282828) }
        else if f == 1 { (0x83a598, 0x282828) }
        else if f == 2 { (0xb16286, 0x3c3836) }
        else if f == 3 { (0x458588, 0x282828) }
        else if f == 4 { (0xd79921, 0x3c3836) }
        else if f == 5 { (0x689d6a, 0x504945) }
        else if f == 6 { (0x282828, 0xd65d0e) }
        else { (0x282828, 0xcc241d) }
    } else if p == 4 {
        if f == 0 { (0xd97757, 0x2e3440) }
        else if f == 1 { (0x88c0d0, 0x2e3440) }
        else if f == 2 { (0xb48ead, 0x3b4252) }
        else if f == 3 { (0x5e81ac, 0x2e3440) }
        else if f == 4 { (0x8fbcbb, 0x3b4252) }
        else if f == 5 { (0xa3be8c, 0x434c5e) }
        else if f == 6 { (0x2e3440, 0xd08770) }
        else { (0x2e3440, 0xbf616a) }
    } else {
        if f == 0 { (0x090c0c, 0xa3aed2) }
        else if f == 1 { (0xe3e5e5, 0x769ff0) }
        else if f == 2 { (0x769ff0, 0x394260) }
        else if f == 3 { (0x769ff0, 0x212736) }
        else if f == 4 { (0xa0a9cb, 0x1d2230) }
        else if f == 5 { (0xc0caf5, 0x414868) }
        else if f == 6 { (0x1a1b26, 0xe0af68) }
        else { (0x1a1b26, 0xf7768e) }
    }
}

/// The name of palette `p`.
fn palette_name_of(p: usize) -> (s: &'static str)
    ensures
        s@ == palette_name(p as nat),
{
    if p == 0 {
        "catppuccin-mocha"
    } else if p == 1 {
        "catppuccin-frappe"
    } else if p == 2 {
        "dracula"
    } else if p == 3 {
        "gruvbox-dark"
    } else if p == 4 {
        "nord"
    } else {
        "tokyonight"
    }
}

/// Const constructor for palette entries: `(fg, bg)` as hex words.
pub fn sc(fg: u32, bg: u32) -> (c: SegmentColors)
    ensures
        c == (SegmentColors { fg: rgb_of(fg), bg: rgb_of(bg) }),
{
    SegmentColors { fg: Rgb::hex(fg), bg: Rgb::hex(bg) }
}

/// The colors of palette `p`, in family-slot order.
fn palette_array(p: usize) -> (a: [SegmentColors; 8])
    ensures
        a@ == palette_seq(p as nat),
{
    let c0 = palette_hex_of(p, 0);
    let c1 = palette_hex_of(p, 1);
    let c2 = palette_hex_of(p, 2);
    let c3 = palette_hex_of(p, 3);
    let c4 = palette_hex_of(p, 4);
    let c5 = palette_hex_of(p, 5);
    let c6 = palette_hex_of(p, 6);
    let c7 = palette_hex_of(p, 7);
    let a = [
        sc(c0.0, c0.1),
        sc(c1.0, c1.1),
        sc(c2.0, c2.1),
        sc(c3.0, c3.1),
        sc(c4.0, c4.1),
        sc(c5.0, c5.1),
        sc(c6.0, c6.1),
        sc(c7.0, c7.1),
    ];
    assert(a@ == palette_seq(p as nat));
    a
}

/// One family's overrides in a custom theme file: hex strings, each optional.
#[derive(Debug, Clone, Default)]
pub struct RawFamily {
    pub fg: Option<String>,
    pub bg: Option<String>,
}

/// A custom theme file's contents: an optional name and, per family, the
/// optional overrides.
#[derive(Debug, Clone, Default)]
pub struct RawTheme {
    pub name: Option<String>,
    pub claude: Option<RawFamily>,
    pub directory: Option<RawFamily>,
    pub git: Option<RawFamily>,
    pub model: Option<RawFamily>,
    pub context: Option<RawFamily>,
    pub cost: Option<RawFamily>,
}

/// The overrides a raw theme gives a family (none for the families a theme
/// file cannot name).
pub open spec fn raw_family(raw: RawTheme, family: Family) -> Option<RawFamily> {
    match family {
        Family::Claude => raw.claude,
        Family::Directory => raw.directory,
        Family::Git => raw.git,
        Family::Model => raw.model,
        Family::Context => raw.context,
        Family::Cost => raw.cost,
        _ => None,
    }
}

impl RawTheme {
    /// Takes the overrides for one family out of the raw theme.
    pub fn take_family(&mut self, family: Family) -> (r: Option<RawFamily>)
        ensures
            r == raw_family(*old(self), family),
            raw_family(*final(self), family) is None,
            forall|other: Family|
                other != family ==> raw_family(*final(self), other) == raw_family(
                    *old(self),
                    other,
                ),
            final(self).name == old(self).name,
    {
        match family {
            Family::Claude => self.claude.take(),
            Family::Directory => self.directory.take(),
            Family::Git => self.git.take(),
            Family::Model => self.model.take(),
            Family::Context => self.context.take(),
            Family::Cost => self.cost.take(),
            _ => None,
        }
    }
}

/// Applies one optional hex override to a color slot.
pub open spec fn override_result(base: Rgb, over: Option<String>) -> Result<Rgb, Seq<char>> {
    match over {
        None => Ok(base),
        Some(s) => parse_hex_result(s@),
    }
}

/// The override of one channel (`fg` when `is_fg`, else `bg`) of a family.
pub open spec fn raw_channel(raw: RawTheme, family: Family, is_fg: bool) -> Option<String> {
    match raw_family(raw, family) {
        None => None,
        Some(f) => if is_fg {
            f.fg
        } else {
            f.bg
        },
    }
}

/// The family in palette slot `f`.
pub open spec fn family_at(f: nat) -> Family {
    if f == 0 {
        Family::Claude
    } else if f == 1 {
        Family::Directory
    } else if f == 2 {
        Family::Git
    } else if f == 3 {
        Family::Model
    } else if f == 4 {
        Family::Context
    } else if f == 5 {
        Family::Cost
    } else if f == 6 {
        Family::ContextWarn
    } else {
        Family::ContextAlert
    }
}

/// The outcome for one color slot of a custom theme: slot `k` is family
/// `k / 2`, its fg when `k` is even and its bg when odd, over the mocha base.
pub open spec fn slot_result(raw: RawTheme, k: nat) -> Result<Rgb, Seq<char>> {
    let f = k / 2;
    let base = palette_colors(0, f);
    if k % 2 == 0 {
        override_result(base.fg, raw_channel(raw, family_at(f), true))
    } else {
        override_result(base.bg, raw_channel(raw, family_at(f), false))
    }
}

/// The error of the first bad override among slots `0..n`, if any.
pub open spec fn first_error(raw: RawTheme, n: nat) -> Option<Seq<char>>
    decreases n,
{
    if n == 0 {
        None
    } else {
        match first_error(raw, (n - 1) as nat) {
            Some(e) => Some(e),
            None => match slot_result(raw, (n - 1) as nat) {
                Err(e) => Some(e),
                Ok(_) => None,
            },
        }
    }
}

/// The color slot `k` ends up with when its override is valid.
pub open spec fn slot_color(raw: RawTheme, k: nat) -> Rgb {
    match slot_result(raw, k) {
        Ok(c) => c,
        Err(_) => if k % 2 == 0 {
            palette_colors(0, k / 2).fg
        } else {
            palette_colors(0, k / 2).bg
        },
    }
}

/// The colors of a custom theme whose overrides are all valid.
pub open spec fn custom_colors(raw: RawTheme) -> Seq<SegmentColors> {
    Seq::new(
        FAMILY_COUNT as nat,
        |f: int| SegmentColors { fg: slot_color(raw, (2 * f) as nat), bg: slot_color(raw, (2 * f + 1) as nat) },
    )
}

/// The name a custom theme takes: its own `name`, else its directory's
/// name, else `custom`.
pub open spec fn custom_name(raw: RawTheme, dir_name: Option<String>) -> Seq<char> {
    match raw.name {
        Some(n) => n@,
        None => match dir_name {
            Some(d) => d@,
            None => "custom"@,
        },
    }
}

/// The comma-separated list of palette names, as unknown-theme errors show it.
pub open spec fn palette_list() -> Seq<char> {
    palette_name(0) + ", "@ + palette_name(1) + ", "@ + palette_name(2) + ", "@ + palette_name(3)
        + ", "@ + palette_name(4) + ", "@ + palette_name(5)
}

/// A fully resolved theme: owned so it can come from either a vendored
/// preset or a loaded custom theme file.
#[derive(Debug, Clone)]
pub struct Theme {
    name: String,
    colors: [SegmentColors; 8],
}

impl Theme {
    /// The theme's name.
    pub closed spec fn name_view(&self) -> Seq<char> {
        self.name@
    }

    /// The theme's colors, in family-slot order.
    pub closed spec fn colors_view(&self) -> Seq<SegmentColors> {
        self.colors@
    }

    /// Whether this theme is vendored palette `p`.
    pub open spec fn is_palette(&self, p: nat) -> bool {
        &&& self.name_view() == palette_name(p)
        &&& self.colors_view() == palette_seq(p)
    }

    /// The colors this theme gives a family.
    pub open spec fn family_colors(&self, family: Family) -> SegmentColors {
        self.colors_view()[family_slot(family) as int]
    }

    fn from_preset(p: usize) -> (t: Theme)
        requires
            p < PALETTE_COUNT,
        ensures
            t.is_palette(p as nat),
    {
        let name = palette_name_of(p);
        let mut n = String::new();
        push_str(&mut n, name);
        Theme { name: n, colors: palette_array(p) }
    }

    /// The vendored palette called `name`, or an error listing them all.
    pub fn by_name(name: &str) -> (r: Result<Theme, String>)
        ensures
            forall|p: nat| p < PALETTE_COUNT && palette_name(p) == name@ ==> (r matches Ok(t) && t.is_palette(p)),
            (forall|p: nat| p < PALETTE_COUNT ==> palette_name(p) != name@) ==> (r matches Err(e)
                && e@ == "unknown theme '"@ + name@ + "', available: "@ + palette_list()),
    {
        proof {
            lemma_palette_names_distinct();
        }
        let mut p: usize = 0;
        while p < PALETTE_COUNT
            invariant
                p <= PALETTE_COUNT,
                forall|q: nat| q < p ==> palette_name(q) != name@,
            decreases PALETTE_COUNT - p,
        {
            if str_eq(name, palette_name_of(p)) {
                let t = Theme::from_preset(p);
                proof {
                    lemma_palette_names_distinct();
                }
                assert forall|q: nat| q < PALETTE_COUNT && palette_name(q) == name@ implies t.is_palette(q) by {
                    if q != p {
                        assert(palette_name(q) != palette_name(p as nat));
                    }
                }
                return Ok(t);
            }
            p = p + 1;
        }
        let mut e = String::new();
        push_str(&mut e, "unknown theme '");
        push_str(&mut e, name);
        push_str(&mut e, "', available: ");
        let mut q: usize = 0;
        while q < PALETTE_COUNT
            invariant
                q <= PALETTE_COUNT,
                e@ == "unknown theme '"@ + name@ + "', available: "@ + names_joined(q as nat),
            decreases PALETTE_COUNT - q,
        {
            if q > 0 {
                push_str(&mut e, ", ");
            }
            push_str(&mut e, palette_name_of(q));
            q = q + 1;
        }
        assert(names_joined(6) =~= palette_list()) by {
            reveal_with_fuel(names_joined, 7);
        }
        Err(e)
    }

    /// Names of the vendored palettes, in listing order.
    pub fn builtin_names() -> (v: Vec<&'static str>)
        ensures
            v@.len() == PALETTE_COUNT,
            forall|p: int| 0 <= p < PALETTE_COUNT ==> (#[trigger] v@[p])@ == palette_name(p as nat),
    {
        let mut v: Vec<&'static str> = Vec::new();
        let mut p: usize = 0;
        while p < PALETTE_COUNT
            invariant
                p <= PALETTE_COUNT,
                v@.len() == p,
                forall|q: int| 0 <= q < p ==> (#[trigger] v@[q])@ == palette_name(q as nat),
            decreases PALETTE_COUNT - p,
        {
            v.push(palette_name_of(p));
            p = p + 1;
        }
        v
    }

    /// Resolves a custom theme from the overrides of its file: every slot a
    /// family gives keeps the catppuccin-mocha color unless overridden, and
    /// the first invalid override (in family order, fg before bg) is the
    /// error.
    pub fn from_raw(raw: RawTheme, dir_name: Option<String>) -> (r: Result<Theme, String>)
        ensures
            match first_error(raw, 2 * FAMILY_COUNT as nat) {
                Some(m) => r matches Err(e) && e@ == m,
                None => r matches Ok(t) && t.name_view() == custom_name(raw, dir_name)
                    && t.colors_view() == custom_colors(raw),
            },
    {
        let ghost raw0 = raw;
        let mut work = raw;
        let base = palette_array(0);
        let mut out: Vec<SegmentColors> = Vec::new();
        let mut f: usize = 0;
        while f < FAMILY_COUNT
            invariant
                f <= FAMILY_COUNT,
                base@ == palette_seq(0),
                raw0 == raw,
                out@.len() == f,
                first_error(raw0, 2 * f as nat) is None,
                forall|i: int| 0 <= i < f ==> #[trigger] out@[i] == (SegmentColors {
                    fg: slot_color(raw0, (2 * i) as nat),
                    bg: slot_color(raw0, (2 * i + 1) as nat),
                }),
                work.name == raw0.name,
                forall|g: nat| g >= f && g < FAMILY_COUNT ==> raw_family(work, #[trigger] family_at(g)) == raw_family(raw0, family_at(g)),
            decreases FAMILY_COUNT - f,
        {
            let family = family_of_slot(f);
            let overrides = work.take_family(family);
            let slot = base[f];
            assert(slot == palette_colors(0, f as nat));
            let fg = match &overrides {
                Some(o) => match &o.fg {
                    Some(s) => Rgb::parse_hex(s.as_str()),
                    None => Ok(slot.fg),
                },
                None => Ok(slot.fg),
            };
            let ghost k_fg: nat = (2 * f) as nat;
            assert(k_fg / 2 == f && k_fg % 2 == 0);
            let fg = match fg {
                Ok(c) => {
                    assert(slot_result(raw0, k_fg) == Ok::<Rgb, Seq<char>>(c));
                    c
                },
                Err(e) => {
                    proof {
                        assert(first_error(raw0, k_fg + 1) == Some(e@));
                        lemma_first_error_sticks(raw0, k_fg + 1, 2 * FAMILY_COUNT as nat);
                    }
                    return Err(e);
                },
            };
            let bg = match &overrides {
                Some(o) => match &o.bg {
                    Some(s) => Rgb::parse_hex(s.as_str()),
                    None => Ok(slot.bg),
                },
                None => Ok(slot.bg),
            };
            let ghost k_bg: nat = (2 * f + 1) as nat;
            assert(k_bg / 2 == f && k_bg % 2 == 1);
            let bg = match bg {
                Ok(c) => {
                    assert(slot_result(raw0, k_bg) == Ok::<Rgb, Seq<char>>(c));
                    c
                },
                Err(e) => {
                    proof {
                        assert(first_error(raw0, k_bg + 1) == Some(e@));
                        lemma_first_error_sticks(raw0, k_bg + 1, 2 * FAMILY_COUNT as nat);
                    }
                    return Err(e);
                },
            };
            out.push(SegmentColors { fg, bg });
            f = f + 1;
            assert forall|g: nat| g >= f && g < FAMILY_COUNT implies raw_family(work, #[trigger] family_at(g)) == raw_family(raw0, family_at(g)) by {
                assert(family_at(g) != family);
            }
        }
        let colors = [out[0], out[1], out[2], out[3], out[4], out[5], out[6], out[7]];
        let name = match work.name {
            Some(n) => n,
            None => match dir_name {
                Some(d) => d,
                None => {
                    let mut c = String::new();
                    push_str(&mut c, "custom");
                    c
                },
            },
        };
        assert(colors@ =~= custom_colors(raw0));
        Ok(Theme { name, colors })
    }

    pub fn name(&self) -> (s: &str)
        ensures
            s@ == self.name_view(),
    {
        self.name.as_str()
    }

    /// The resolved fg/bg pair for one family.
    pub fn family(&self, family: Family) -> (c: SegmentColors)
        ensures
            c == self.family_colors(family),
    {
        self.colors[family.slot()]
    }

    /// The colors a kind of segment paints with: its own family, except
    /// stats (cost fg on the context bg) and effort (model colors).
    pub fn colors(&self, kind: SegmentKind) -> (c: SegmentColors)
        ensures
            c == kind_colors(*self, kind),
    {
        match kind {
            SegmentKind::Logo => self.family(Family::Claude),
            SegmentKind::Dir => self.family(Family::Directory),
            SegmentKind::Git => self.family(Family::Git),
            SegmentKind::Model => self.family(Family::Model),
            SegmentKind::Context => self.family(Family::Context),
            SegmentKind::Cost => self.family(Family::Cost),
            SegmentKind::Stats => SegmentColors {
                fg: self.family(Family::Cost).fg,
                bg: self.family(Family::Context).bg,
            },
            SegmentKind::Effort => self.family(Family::Model),
        }
    }
}

/// The colors a theme gives a kind of segment.
pub open spec fn kind_colors(theme: Theme, kind: SegmentKind) -> SegmentColors {
    match kind {
        SegmentKind::Logo => theme.family_colors(Family::Claude),
        SegmentKind::Dir => theme.family_colors(Family::Directory),
        SegmentKind::Git => theme.family_colors(Family::Git),
        SegmentKind::Model => theme.family_colors(Family::Model),
        SegmentKind::Context => theme.family_colors(Family::Context),
        SegmentKind::Cost => theme.family_colors(Family::Cost),
        SegmentKind::Stats => SegmentColors {
            fg: theme.family_colors(Family::Cost).fg,
            bg: theme.family_colors(Family::Context).bg,
        },
        SegmentKind::Effort => theme.family_colors(Family::Model),
    }
}

/// The family in palette slot `f`.
fn family_of_slot(f: usize) -> (family: Family)
    ensures
        family == family_at(f as nat),
{
    if f == 0 {
        Family::Claude
    } else if f == 1 {
        Family::Directory
    } else if f == 2 {
        Family::Git
    } else if f == 3 {
        Family::Model
    } else if f == 4 {
        Family::Context
    } else if f == 5 {
        Family::Cost
    } else if f == 6 {
        Family::ContextWarn
    } else {
        Family::ContextAlert
    }
}

/// Once a slot has failed, the first error stays the same however many more
/// slots are considered.
proof fn lemma_first_error_sticks(raw: RawTheme, n: nat, m: nat)
    requires
        n <= m,
        first_error(raw, n) is Some,
    ensures
        first_error(raw, m) == first_error(raw, n),
    decreases m,
{
    if m > n {
        lemma_first_error_sticks(raw, n, (m - 1) as nat);
    }
}

/// The palette names `0..n`, joined with `, `.
pub open spec fn names_joined(n: nat) -> Seq<char>
    decreases n,
{
    if n == 0 {
        Seq::empty()
    } else if n == 1 {
        palette_name(0)
    } else {
        names_joined((n - 1) as nat) + ", "@ + palette_name((n - 1) as nat)
    }
}

/// The palette names have pairwise different lengths, so no two are equal.
proof fn lemma_palette_names_distinct()
    ensures
        forall|p: nat, q: nat|
            p < PALETTE_COUNT && q < PALETTE_COUNT && p != q ==> palette_name(p) != palette_name(q),
{
    reveal_strlit("catppuccin-mocha");
    reveal_strlit("catppuccin-frappe");
    reveal_strlit("dracula");
    reveal_strlit("gruvbox-dark");
    reveal_strlit("nord");
    reveal_strlit("tokyonight");
    assert forall|p: nat| p < PALETTE_COUNT implies #[trigger] palette_name(p).len() == name_length(p) by {
        if p == 0 {
        } else if p == 1 {
        } else if p == 2 {
        } else if p == 3 {
        } else if p == 4 {
        } else {
        }
    }
    assert forall|p: nat, q: nat|
        p < PALETTE_COUNT && q < PALETTE_COUNT && p != q implies palette_name(p) != palette_name(q) by {
        assert(palette_name(p).len() == name_length(p));
        assert(palette_name(q).len() == name_length(q));
    }
}

/// The length of each palette name.
spec fn name_length(p: nat) -> nat {
    if p == 0 {
        16
    } else if p == 1 {
        17
    } else if p == 2 {
        7
    } else if p == 3 {
        12
    } else if p == 4 {
        4
    } else {
        10
    }
}

impl Default for Theme {
    fn default() -> (t: Theme)
        ensures
            t.is_palette(0),
    {
        Theme::from_preset(0)
    }
}

/// Each channel of a hex word is one of its bytes, most significant first.
pub proof fn rgb_channels(value: u32)
    ensures
        rgb_of(value).r == (value / 0x10000) % 0x100,
        rgb_of(value).g == (value / 0x100) % 0x100,
        rgb_of(value).b == value % 0x100,
{
    assert((value >> 16u32) as u8 == (value / 0x10000) % 0x100) by (bit_vector);
    assert((value >> 8u32) as u8 == (value / 0x100) % 0x100) by (bit_vector);
    assert(value as u8 == value % 0x100) by (bit_vector);
}

proof fn lemma_hex_value_bound(s: Seq<char>)
    requires
        all_hex(s),
        s.len() <= 6,
    ensures
        hex_value(s) < pow16(s.len()),
    decreases s.len(),
{
    if s.len() > 0 {
        assert(all_hex(s.drop_last())) by {
            assert forall|i: int| 0 <= i < s.drop_last().len() implies is_hex_digit(#[trigger] s.drop_last()[i]) by {
                assert(s.drop_last()[i] == s[i]);
            }
        }
        lemma_hex_value_bound(s.drop_last());
        assert(is_hex_digit(s[s.len() - 1]));
        assert(hex_digit_value(s.last()) < 16);
    }
}

/// `16` to the power `n`, for the few small `n` a color needs.
spec fn pow16(n: nat) -> nat
    decreases n,
{
    if n == 0 {
        1
    } else {
        16 * pow16((n - 1) as nat)
    }
}

proof fn lemma_ascii_utf8_len(s: Seq<char>)
    requires
        forall|i: int| 0 <= i < s.len() ==> (s[i] as u32) < 0x80,
    ensures
        utf8_len(s) == s.len(),
    decreases s.len(),
{
    if s.len() > 0 {
        lemma_ascii_utf8_len(s.drop_last());
    }
}

/// Six hex digits always parse, to the color they spell, with or without a
/// leading `#`.
pub proof fn six_hex_digits_parse(digits: Seq<char>)
    requires
        digits.len() == 6,
        all_hex(digits),
    ensures
        parse_hex_result(digits) == Ok::<Rgb, Seq<char>>(rgb_of(hex_value(digits) as u32)),
        parse_hex_result(seq!['#'] + digits) == Ok::<Rgb, Seq<char>>(rgb_of(hex_value(digits) as u32)),
{
    assert forall|i: int| 0 <= i < digits.len() implies (digits[i] as u32) < 0x80 by {
        assert(is_hex_digit(digits[i]));
    }
    lemma_ascii_utf8_len(digits);
    lemma_hex_value_bound(digits);
    reveal_with_fuel(pow16, 7);
    assert(is_hex_digit(digits[0]));
    assert(digits[0] != '#');
    assert((seq!['#'] + digits).drop_first() =~= digits);
}

/// A color string parses exactly when, after one optional leading `#`, it
/// is six hex digits and nothing else.
pub proof fn parse_hex_accepts_exactly_six_hex_digits(value: Seq<char>)
    ensures
        parse_hex_result(value) is Ok <==> (color_digits(value).len() == 6 && all_hex(
            color_digits(value),
        )),
{
    let digits = color_digits(value);
    if all_hex(digits) {
        assert forall|i: int| 0 <= i < digits.len() implies (digits[i] as u32) < 0x80 by {
            assert(is_hex_digit(digits[i]));
        }
        lemma_ascii_utf8_len(digits);
        if digits.len() == 6 {
            lemma_hex_value_bound(digits);
            reveal_with_fuel(pow16, 7);
        }
    }
}

/// A theme file that overrides nothing is catppuccin-mocha's colors.
pub proof fn empty_custom_theme_is_mocha(raw: RawTheme)
    requires
        raw.claude is None,
        raw.directory is None,
        raw.git is None,
        raw.model is None,
        raw.context is None,
        raw.cost is None,
    ensures
        first_error(raw, 2 * FAMILY_COUNT as nat) is None,
        custom_colors(raw) == palette_seq(0),
{
    assert forall|k: nat| k < 2 * FAMILY_COUNT implies #[trigger] slot_result(raw, k) is Ok by {
        assert(raw_family(raw, family_at(k / 2)) is None);
    }
    lemma_no_error_upto(raw, 2 * FAMILY_COUNT as nat);
    assert forall|f: int| 0 <= f < FAMILY_COUNT implies #[trigger] custom_colors(raw)[f] == palette_seq(0)[f] by {
        assert(raw_family(raw, family_at(f as nat)) is None);
        assert((2 * f) / 2 == f && (2 * f + 1) / 2 == f);
    }
    assert(custom_colors(raw) =~= palette_seq(0));
}

proof fn lemma_no_error_upto(raw: RawTheme, n: nat)
    requires
        forall|k: nat| k < n ==> #[trigger] slot_result(raw, k) is Ok,
    ensures
        first_error(raw, n) is None,
    decreases n,
{
    if n > 0 {
        lemma_no_error_upto(raw, (n - 1) as nat);
        assert(slot_result(raw, (n - 1) as nat) is Ok);
    }
}

/// In a valid theme file, a family the file does not mention keeps its
/// catppuccin-mocha colors.
pub proof fn unmentioned_family_keeps_mocha(raw: RawTheme, family: Family)
    requires
        raw_family(raw, family) is None,
    ensures
        custom_colors(raw)[family_slot(family) as int] == palette_colors(0, family_slot(family)),
{
    let f = family_slot(family);
    assert(family_at(f) == family);
    assert((2 * f) / 2 == f && (2 * f + 1) / 2 == f);
    assert((2 * f) % 2 == 0 && (2 * f + 1) % 2 == 1);
}

} // verus!
