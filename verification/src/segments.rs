//! Segment content: what each module renders, given the payload.
//!
//! The registry (`Module::spec`) is the one table that defines every
//! module's CLI name, default position, and palette families. Everything
//! here is pure string building: what the bar needs from the disk (the git
//! HEAD and the marker files of an in-progress operation) and the readouts
//! whose numbers are floating point come in as an `Ambient`.

use vstd::prelude::*;
use vstd::string::*;

use crate::payload::{opt_str_view, opt_view, Payload};
use crate::render::Mode;
use crate::text::{
    chars_of, contains, contains_seq, decimal, occurs_at, has_prefix, is_white, join,
    lemma_split_around, lemma_split_join, lemma_split_single,
    lemma_trimmed_unchanged, push_char, push_chars, push_decimal, push_str, slice_chars, split,
    split_chars, str_eq, string_of, strip_prefix, trim, trimmed,
};
use crate::theme::{Family, SegmentColors, Theme};

verus! {

pub const LOGO: &'static str = "\u{f4f5}";

pub const HAIKU_ICON: char = '\u{ee0d}';

pub const SONNET_ICON: char = '\u{f06a9}';

pub const OPUS_ICON: char = '\u{f16a6}';

pub const BRANCH_ICON: char = '\u{e0a0}';

/// Compatible mode promises a bar that renders without a patched font, so
/// the nerd-font glyphs get plain-Unicode stand-ins (and the model segment
/// simply drops its icon).
pub const LOGO_COMPAT: &'static str = "\u{2733}";

pub const BRANCH_ICON_COMPAT: char = '\u{2387}';

/// Terminals narrower than this get a more aggressive dir truncation.
pub const NARROW_COLUMNS: usize = 80;

/// Context tokens at which the context segment turns orange, then red.
pub const CONTEXT_WARN_TOKENS: u64 = 80_000;

pub const CONTEXT_ALERT_TOKENS: u64 = 125_000;

/// The number of modules in the registry.
pub const MODULE_COUNT: usize = 9;

pub open spec fn logo_text(mode: Mode) -> Seq<char> {
    match mode {
        Mode::Compatible => LOGO_COMPAT@,
        _ => LOGO@,
    }
}

pub open spec fn branch_icon_char(mode: Mode) -> char {
    match mode {
        Mode::Compatible => BRANCH_ICON_COMPAT,
        _ => BRANCH_ICON,
    }
}

pub fn logo(mode: Mode) -> (s: &'static str)
    ensures
        s@ == logo_text(mode),
{
    match mode {
        Mode::Compatible => LOGO_COMPAT,
        _ => LOGO,
    }
}

pub fn branch_icon(mode: Mode) -> (c: char)
    ensures
        c == branch_icon_char(mode),
{
    match mode {
        Mode::Compatible => BRANCH_ICON_COMPAT,
        _ => BRANCH_ICON,
    }
}

#[derive(Debug, Clone, Copy, PartialEq, Eq, Structural)]
pub enum Module {
    Logo,
    Dir,
    Git,
    Model,
    Context,
    Cost,
    Usage,
    Stats,
    Effort,
}

/// One registry row: everything the rest of the program needs to know
/// about a module besides how to format its text.
pub struct ModuleSpec {
    pub module: Module,
    /// CLI name, as it appears in `--modules`.
    pub name: &'static str,
    /// Which palette family paints the foreground / background. Stats,
    /// effort, and usage have no family of their own and borrow: stats
    /// paints the cost fg on the context bg (keeping the alternating-bg
    /// rhythm), effort paints as model, usage as cost. The context, usage and
    /// git rows are their calm states (see `Module::colors_with`).
    pub fg: Family,
    pub bg: Family,
    /// Keep order when the bar overflows the terminal: lower-priority
    /// segments are dropped first.
    pub priority: u8,
}

/// The registry order, which is also the default bar order.
pub open spec fn module_at(i: nat) -> Module {
    if i == 0 {
        Module::Logo
    } else if i == 1 {
        Module::Dir
    } else if i == 2 {
        Module::Git
    } else if i == 3 {
        Module::Model
    } else if i == 4 {
        Module::Context
    } else if i == 5 {
        Module::Cost
    } else if i == 6 {
        Module::Usage
    } else if i == 7 {
        Module::Stats
    } else {
        Module::Effort
    }
}

/// The position of a module in the registry.
pub open spec fn module_index(m: Module) -> nat {
    match m {
        Module::Logo => 0,
        Module::Dir => 1,
        Module::Git => 2,
        Module::Model => 3,
        Module::Context => 4,
        Module::Cost => 5,
        Module::Usage => 6,
        Module::Stats => 7,
        Module::Effort => 8,
    }
}

/// A module's CLI name.
pub open spec fn module_name(m: Module) -> Seq<char> {
    match m {
        Module::Logo => "logo"@,
        Module::Dir => "dir"@,
        Module::Git => "git"@,
        Module::Model => "model"@,
        Module::Context => "context"@,
        Module::Cost => "cost"@,
        Module::Usage => "usage"@,
        Module::Stats => "stats"@,
        Module::Effort => "effort"@,
    }
}

/// A module's registry families, `(fg, bg)`.
pub open spec fn module_families(m: Module) -> (Family, Family) {
    match m {
        Module::Logo => (Family::Claude, Family::Claude),
        Module::Dir => (Family::Directory, Family::Directory),
        Module::Git => (Family::Git, Family::Git),
        Module::Model => (Family::Model, Family::Model),
        Module::Context => (Family::Context, Family::Context),
        Module::Cost => (Family::Cost, Family::Cost),
        Module::Usage => (Family::Cost, Family::Cost),
        Module::Stats => (Family::Cost, Family::Context),
        Module::Effort => (Family::Model, Family::Model),
    }
}

pub open spec fn module_priority(m: Module) -> u8 {
    match m {
        Module::Logo => 1,
        Module::Dir => 8,
        Module::Git => 7,
        Module::Model => 6,
        Module::Context => 9,
        Module::Cost => 4,
        Module::Usage => 5,
        Module::Stats => 2,
        Module::Effort => 3,
    }
}

/// The module a CLI name selects: the first registry row with that name.
pub open spec fn module_named(name: Seq<char>) -> Option<Module> {
    first_named(name, 0)
}

/// The first registry row from `i` on whose name is `name`.
pub open spec fn first_named(name: Seq<char>, i: nat) -> Option<Module>
    decreases MODULE_COUNT - i,
{
    if i >= MODULE_COUNT {
        None
    } else if module_name(module_at(i)) == name {
        Some(module_at(i))
    } else {
        first_named(name, i + 1)
    }
}

/// All module names, in registry order.
pub open spec fn module_names() -> Seq<Seq<char>> {
    Seq::new(MODULE_COUNT as nat, |i: int| module_name(module_at(i as nat)))
}

/// The default `--modules` value: every module, in registry order.
pub open spec fn default_list_text() -> Seq<char> {
    join(module_names(), ","@)
}

/// The error for a module name that is not in the registry.
pub open spec fn unknown_module_error(name: Seq<char>) -> Seq<char> {
    "unknown module '"@ + name + "', available: "@ + join(module_names(), ", "@)
}

/// What parsing one module name gives.
pub open spec fn module_result(name: Seq<char>) -> Result<Module, Seq<char>> {
    match module_named(name) {
        Some(m) => Ok(m),
        None => Err(unknown_module_error(name)),
    }
}

impl Module {
    /// This module's registry row.
    pub fn spec(self) -> (row: ModuleSpec)
        ensures
            row.module == self,
            row.name@ == module_name(self),
            (row.fg, row.bg) == module_families(self),
            row.priority == module_priority(self),
    {
        match self {
            Module::Logo => ModuleSpec {
                module: Module::Logo,
                name: "logo",
                fg: Family::Claude,
                bg: Family::Claude,
                priority: 1,
            },
            Module::Dir => ModuleSpec {
                module: Module::Dir,
                name: "dir",
                fg: Family::Directory,
                bg: Family::Directory,
                priority: 8,
            },
            Module::Git => ModuleSpec {
                module: Module::Git,
                name: "git",
                fg: Family::Git,
                bg: Family::Git,
                priority: 7,
            },
            Module::Model => ModuleSpec {
                module: Module::Model,
                name: "model",
                fg: Family::Model,
                bg: Family::Model,
                priority: 6,
            },
            Module::Context => ModuleSpec {
                module: Module::Context,
                name: "context",
                fg: Family::Context,
                bg: Family::Context,
                priority: 9,
            },
            Module::Cost => ModuleSpec {
                module: Module::Cost,
                name: "cost",
                fg: Family::Cost,
                bg: Family::Cost,
                priority: 4,
            },
            Module::Usage => ModuleSpec {
                module: Module::Usage,
                name: "usage",
                fg: Family::Cost,
                bg: Family::Cost,
                priority: 5,
            },
            Module::Stats => ModuleSpec {
                module: Module::Stats,
                name: "stats",
                fg: Family::Cost,
                bg: Family::Context,
                priority: 2,
            },
            Module::Effort => ModuleSpec {
                module: Module::Effort,
                name: "effort",
                fg: Family::Model,
                bg: Family::Model,
                priority: 3,
            },
        }
    }

    /// The module in registry row `i`.
    pub fn at(i: usize) -> (m: Module)
        ensures
            m == module_at(i as nat),
    {
        if i == 0 {
            Module::Logo
        } else if i == 1 {
            Module::Dir
        } else if i == 2 {
            Module::Git
        } else if i == 3 {
            Module::Model
        } else if i == 4 {
            Module::Context
        } else if i == 5 {
            Module::Cost
        } else if i == 6 {
            Module::Usage
        } else if i == 7 {
            Module::Stats
        } else {
            Module::Effort
        }
    }

    /// CLI name, as accepted by `--modules`.
    pub fn name(self) -> (s: &'static str)
        ensures
            s@ == module_name(self),
    {
        self.spec().name
    }

    /// All module names, in default bar order.
    pub fn names() -> (v: Vec<&'static str>)
        ensures
            v@.len() == MODULE_COUNT,
            forall|i: int| 0 <= i < MODULE_COUNT ==> (#[trigger] v@[i])@ == module_names()[i],
    {
        let mut v: Vec<&'static str> = Vec::new();
        let mut i: usize = 0;
        while i < MODULE_COUNT
            invariant
                i <= MODULE_COUNT,
                v@.len() == i,
                forall|k: int| 0 <= k < i ==> (#[trigger] v@[k])@ == module_names()[k],
            decreases MODULE_COUNT - i,
        {
            v.push(Module::at(i).name());
            i = i + 1;
        }
        v
    }

    /// Keep order when the bar overflows: the lowest-priority segment is
    /// dropped first.
    pub fn priority(self) -> (p: u8)
        ensures
            p == module_priority(self),
    {
        self.spec().priority
    }

    pub fn default_order() -> (v: Vec<Module>)
        ensures
            v@ == Seq::new(MODULE_COUNT as nat, |i: int| module_at(i as nat)),
    {
        let mut v: Vec<Module> = Vec::new();
        let mut i: usize = 0;
        while i < MODULE_COUNT
            invariant
                i <= MODULE_COUNT,
                v@ == Seq::new(i as nat, |k: int| module_at(k as nat)),
            decreases MODULE_COUNT - i,
        {
            v.push(Module::at(i));
            i = i + 1;
            assert(v@ =~= Seq::new(i as nat, |k: int| module_at(k as nat)));
        }
        v
    }

    /// The default `--modules` value: every module, in registry order.
    pub fn default_list() -> (s: String)
        ensures
            s@ == default_list_text(),
    {
        join_names(",")
    }

    /// The module a CLI name selects, or an error naming it and listing the
    /// valid names.
    pub fn parse(s: &str) -> (r: Result<Module, String>)
        ensures
            match module_result(s@) {
                Ok(m) => r == Ok::<Module, String>(m),
                Err(m) => r matches Err(e) && e@ == m,
            },
    {
        let mut i: usize = 0;
        while i < MODULE_COUNT
            invariant
                i <= MODULE_COUNT,
                first_named(s@, 0) == first_named(s@, i as nat),
            decreases MODULE_COUNT - i,
        {
            let m = Module::at(i);
            if str_eq(s, m.name()) {
                return Ok(m);
            }
            i = i + 1;
        }
        let mut e = String::new();
        push_str(&mut e, "unknown module '");
        push_str(&mut e, s);
        push_str(&mut e, "', available: ");
        let names = join_names(", ");
        push_str(&mut e, names.as_str());
        assert(e@ =~= unknown_module_error(s@));
        Err(e)
    }
}

impl std::str::FromStr for Module {
    type Err = String;

    fn from_str(s: &str) -> (r: Result<Module, String>)
        ensures
            match module_result(s@) {
                Ok(m) => r == Ok::<Module, String>(m),
                Err(m) => r matches Err(e) && e@ == m,
            },
    {
        Module::parse(s)
    }
}

/// The module names joined with `sep`.
fn join_names(sep: &str) -> (s: String)
    ensures
        s@ == join(module_names(), sep@),
{
    let mut s = String::new();
    let mut i: usize = 0;
    while i < MODULE_COUNT
        invariant
            i <= MODULE_COUNT,
            s@ == join(module_names().take(i as int), sep@),
        decreases MODULE_COUNT - i,
    {
        let ghost names = module_names();
        assert(names.take(i + 1).drop_last() =~= names.take(i as int));
        if i > 0 {
            push_str(&mut s, sep);
        }
        push_str(&mut s, Module::at(i).name());
        proof {
            if i == 0 {
                assert(s@ =~= names.take(1)[0]);
            }
        }
        i = i + 1;
    }
    assert(module_names().take(MODULE_COUNT as int) =~= module_names());
    s
}

/// The modules a `--modules` list names, given its comma-separated pieces:
/// each piece trimmed, empty ones skipped, the first unknown name an error.
pub open spec fn modules_from(pieces: Seq<Seq<char>>) -> Result<Seq<Module>, Seq<char>>
    decreases pieces.len(),
{
    if pieces.len() == 0 {
        Ok(Seq::empty())
    } else {
        let name = trimmed(pieces[0]);
        let rest = modules_from(pieces.drop_first());
        if name.len() == 0 {
            rest
        } else {
            match module_result(name) {
                Err(e) => Err(e),
                Ok(m) => match rest {
                    Ok(ms) => Ok(seq![m] + ms),
                    Err(e) => Err(e),
                },
            }
        }
    }
}

/// What `parse_modules` returns for a `--modules` value.
pub open spec fn modules_result(list: Seq<char>) -> Result<Seq<Module>, Seq<char>> {
    modules_from(split(list, ','))
}

/// `found` followed by what the remaining pieces give.
pub open spec fn prepend_modules(found: Seq<Module>, rest: Result<Seq<Module>, Seq<char>>) -> Result<
    Seq<Module>,
    Seq<char>,
> {
    match rest {
        Ok(ms) => Ok(found + ms),
        Err(e) => Err(e),
    }
}

/// Parses a comma-separated `--modules` value: pieces are trimmed, empty
/// pieces skipped, and the first unknown name is the error.
pub fn parse_modules(list: &str) -> (r: Result<Vec<Module>, String>)
    ensures
        match modules_result(list@) {
            Ok(ms) => r matches Ok(v) && v@ == ms,
            Err(m) => r matches Err(e) && e@ == m,
        },
{
    let chars = chars_of(list);
    let pieces = split_chars(&chars, ',');
    let ghost ps = split(list@, ',');
    let mut found: Vec<Module> = Vec::new();
    let mut i: usize = 0;
    assert(ps.skip(0) =~= ps);
    while i < pieces.len()
        invariant
            i <= pieces@.len(),
            pieces@.len() == ps.len(),
            forall|k: int| 0 <= k < pieces@.len() ==> (#[trigger] pieces@[k])@ == ps[k],
            ps == split(list@, ','),
            modules_from(ps) == prepend_modules(found@, modules_from(ps.skip(i as int))),
        decreases pieces.len() - i,
    {
        let ghost rest = ps.skip(i as int);
        assert(rest.drop_first() =~= ps.skip(i + 1));
        assert(rest[0] == ps[i as int]);
        let name = trim(&pieces[i]);
        if name.len() > 0 {
            let text = string_of(&name);
            match Module::parse(text.as_str()) {
                Ok(m) => {
                    assert(found@.push(m) + Seq::<Module>::empty() =~= found@ + seq![m]);
                    proof {
                        match modules_from(ps.skip(i + 1)) {
                            Ok(ms) => {
                                assert(found@ + (seq![m] + ms) =~= found@.push(m) + ms);
                            },
                            Err(_) => {},
                        }
                    }
                    found.push(m);
                },
                Err(e) => {
                    return Err(e);
                },
            }
        }
        i = i + 1;
    }
    assert(ps.skip(pieces@.len() as int) =~= Seq::<Seq<char>>::empty());
    assert(found@ + Seq::<Module>::empty() =~= found@);
    Ok(found)
}

/// Which family paints the context segment at this token count: normal
/// below the warn threshold, orange from 80k, red from 125k.
pub open spec fn context_family_for(tokens: Option<u64>) -> Family {
    match tokens {
        Some(count) => if count >= CONTEXT_ALERT_TOKENS {
            Family::ContextAlert
        } else if count >= CONTEXT_WARN_TOKENS {
            Family::ContextWarn
        } else {
            Family::Context
        },
        None => Family::Context,
    }
}

/// Which family paints the context segment at this token count: normal
/// below the warn threshold, orange from 80k, red from 125k.
pub fn context_family(tokens: Option<u64>) -> (f: Family)
    ensures
        f == context_family_for(tokens),
{
    match tokens {
        Some(count) => {
            if count >= CONTEXT_ALERT_TOKENS {
                Family::ContextAlert
            } else if count >= CONTEXT_WARN_TOKENS {
                Family::ContextWarn
            } else {
                Family::Context
            }
        },
        None => Family::Context,
    }
}

/// The families a module paints with, `(fg, bg)`: context follows its token
/// count, usage the family its remaining budget calls for, git the warn
/// family while a repository operation is in progress; the rest their
/// registry rows.
pub open spec fn families_in_state(
    m: Module,
    tokens: Option<u64>,
    usage_family: Family,
    git_busy: bool,
) -> (Family, Family) {
    match m {
        Module::Context => (context_family_for(tokens), context_family_for(tokens)),
        Module::Usage => (usage_family, usage_family),
        Module::Git => if git_busy {
            (Family::ContextWarn, Family::ContextWarn)
        } else {
            module_families(m)
        },
        _ => module_families(m),
    }
}

/// The colors a theme gives a module in a given state.
pub open spec fn module_colors(
    theme: Theme,
    m: Module,
    tokens: Option<u64>,
    usage_family: Family,
    git_busy: bool,
) -> SegmentColors {
    let fams = families_in_state(m, tokens, usage_family, git_busy);
    SegmentColors { fg: theme.family_colors(fams.0).fg, bg: theme.family_colors(fams.1).bg }
}

impl Module {
    /// This module's colors under `theme`, per its registry families. The
    /// context segment is the state-dependent one here: past the token
    /// thresholds it paints with the warn/alert families.
    pub fn colors(self, theme: &Theme, tokens: Option<u64>) -> (c: SegmentColors)
        ensures
            c == module_colors(*theme, self, tokens, Family::Cost, false),
    {
        self.colors_with(theme, tokens, Family::Cost, false)
    }

    /// This module's colors under `theme` in the state the caller observed:
    /// the context token count, the family the usage segment's remaining
    /// budget calls for, and whether a repository operation is in progress.
    pub fn colors_with(self, theme: &Theme, tokens: Option<u64>, usage_family: Family, git_busy: bool) -> (c: SegmentColors)
        ensures
            c == module_colors(*theme, self, tokens, usage_family, git_busy),
    {
        let row = self.spec();
        let (fg, bg) = match self {
            Module::Context => {
                let family = context_family(tokens);
                (family, family)
            },
            Module::Usage => (usage_family, usage_family),
            Module::Git => {
                if git_busy {
                    (Family::ContextWarn, Family::ContextWarn)
                } else {
                    (row.fg, row.bg)
                }
            },
            _ => (row.fg, row.bg),
        };
        SegmentColors { fg: theme.family(fg).fg, bg: theme.family(bg).bg }
    }
}

/// The model segment's text for an already lowercased name: the family
/// icon (haiku, opus, else sonnet) and the name, or the bare name in
/// compatible mode.
pub open spec fn model_text(name: Seq<char>, mode: Mode) -> Seq<char> {
    if mode == Mode::Compatible {
        name
    } else {
        let icon = if contains_seq(name, "haiku"@) {
            HAIKU_ICON
        } else if contains_seq(name, "opus"@) {
            OPUS_ICON
        } else {
            SONNET_ICON
        };
        seq![icon] + " "@ + name
    }
}

/// The model segment's text for an already lowercased name.
pub fn model_label(name: &str, mode: Mode) -> (s: String)
    ensures
        s@ == model_text(name@, mode),
{
    let mut out = String::new();
    if mode == Mode::Compatible {
        push_str(&mut out, name);
        assert(out@ =~= name@);
        return out;
    }
    let chars = chars_of(name);
    let icon = if contains(&chars, &chars_of("haiku")) {
        HAIKU_ICON
    } else if contains(&chars, &chars_of("opus")) {
        OPUS_ICON
    } else {
        SONNET_ICON
    };
    push_char(&mut out, icon);
    push_str(&mut out, " ");
    push_str(&mut out, name);
    assert(out@ =~= model_text(name@, mode));
    out
}

/// The model segment's text in the patched mode: family icon and the
/// lowercased name.
pub fn format_model(display_name: &str) -> (s: String)
    ensures
        s@ == model_text(lowercase_of(display_name@), Mode::Patched),
{
    format_model_in(display_name, Mode::Patched)
}

/// The lowercase form of a display name.
pub open spec fn lowercase_of(s: Seq<char>) -> Seq<char> {
    crate::text::lowercase(s)
}

/// The model segment's text: family icon and lowercased name, or the bare
/// lowercased name in compatible mode.
pub fn format_model_in(display_name: &str, mode: Mode) -> (s: String)
    ensures
        s@ == model_text(lowercase_of(display_name@), mode),
{
    let name = crate::text::to_lowercase(display_name);
    model_label(name.as_str(), mode)
}

/// Digits grouped in threes from the right with commas: `1234567` becomes
/// `1,234,567`.
pub open spec fn grouped(d: Seq<char>) -> Seq<char>
    decreases d.len(),
{
    if d.len() <= 3 {
        d
    } else {
        grouped(d.subrange(0, d.len() - 3)) + ","@ + d.subrange(d.len() - 3, d.len() as int)
    }
}

/// The context segment's text for a token count.
pub open spec fn tokens_text(tokens: Option<u64>) -> Seq<char> {
    match tokens {
        Some(count) => if count > 0 {
            grouped(decimal(count as nat)) + " tok"@
        } else {
            "~~ tok"@
        },
        None => "~~ tok"@,
    }
}

fn grouped_prefix(d: &Vec<char>, end: usize) -> (r: Vec<char>)
    requires
        end <= d.len(),
    ensures
        r@ == grouped(d@.subrange(0, end as int)),
    decreases end,
{
    if end <= 3 {
        slice_chars(d, 0, end)
    } else {
        let mut r = grouped_prefix(d, end - 3);
        r.push(',');
        r.push(d[end - 3]);
        r.push(d[end - 2]);
        r.push(d[end - 1]);
        let ghost x = d@.subrange(0, end as int);
        assert(x.subrange(0, x.len() - 3) =~= d@.subrange(0, end - 3));
        proof { reveal_strlit(","); }
        assert(x.subrange(x.len() - 3, x.len() as int) =~= seq![d@[end - 3], d@[end - 2], d@[end - 1]]);
        assert(r@ =~= grouped(x));
        r
    }
}

/// The decimal numeral of `value` with thousands separators.
pub fn group_thousands(value: u64) -> (s: String)
    ensures
        s@ == grouped(decimal(value as nat)),
{
    let digits = crate::text::decimal_chars(value);
    let g = grouped_prefix(&digits, digits.len());
    assert(digits@.subrange(0, digits@.len() as int) =~= digits@);
    string_of(&g)
}

/// The context segment's text: exact tokens with thousands separators, or
/// the `~~ tok` placeholder before the first API call.
pub fn format_tokens(tokens: Option<u64>) -> (s: String)
    ensures
        s@ == tokens_text(tokens),
{
    match tokens {
        Some(count) => {
            if count > 0 {
                let mut s = group_thousands(count);
                push_str(&mut s, " tok");
                return s;
            }
        },
        None => {},
    }
    let mut s = String::new();
    push_str(&mut s, "~~ tok");
    assert(s@ =~= "~~ tok"@);
    s
}

/// The stats segment's text for a session duration in milliseconds:
/// hours and minutes, else minutes, else seconds.
pub open spec fn duration_text(ms: nat) -> Seq<char> {
    let total_seconds = ms / 1000;
    let hours = total_seconds / 3600;
    let minutes = (total_seconds % 3600) / 60;
    if hours > 0 {
        decimal(hours) + "h "@ + decimal(minutes) + "m"@
    } else if minutes > 0 {
        decimal(minutes) + "m"@
    } else {
        decimal(total_seconds) + "s"@
    }
}

pub fn format_duration(ms: u64) -> (s: String)
    ensures
        s@ == duration_text(ms as nat),
{
    let total_seconds = ms / 1000;
    let hours = total_seconds / 3600;
    let minutes = (total_seconds % 3600) / 60;
    let mut s = String::new();
    if hours > 0 {
        push_decimal(&mut s, hours);
        push_str(&mut s, "h ");
        push_decimal(&mut s, minutes);
        push_str(&mut s, "m");
    } else if minutes > 0 {
        push_decimal(&mut s, minutes);
        push_str(&mut s, "m");
    } else {
        push_decimal(&mut s, total_seconds);
        push_str(&mut s, "s");
    }
    assert(s@ =~= duration_text(ms as nat));
    s
}

/// Coarse time until a rate-limit window resets: whole days, else whole
/// hours, else minutes (at least one).
pub open spec fn reset_text(seconds: int) -> Seq<char> {
    let minutes: nat = if seconds < 0 {
        0
    } else {
        (seconds / 60) as nat
    };
    if minutes >= 24 * 60 {
        decimal(minutes / (24 * 60)) + "d"@
    } else if minutes >= 60 {
        decimal(minutes / 60) + "h"@
    } else {
        decimal(if minutes >= 1 {
            minutes
        } else {
            1
        }) + "m"@
    }
}

/// Coarse time-until-reset: whole days, else whole hours, else minutes.
pub fn format_reset(seconds: i64) -> (s: String)
    ensures
        s@ == reset_text(seconds as int),
{
    let minutes: u64 = if seconds < 0 {
        0
    } else {
        (seconds as u64) / 60
    };
    let mut s = String::new();
    if minutes >= 24 * 60 {
        push_decimal(&mut s, minutes / (24 * 60));
        push_str(&mut s, "d");
    } else if minutes >= 60 {
        push_decimal(&mut s, minutes / 60);
        push_str(&mut s, "h");
    } else {
        push_decimal(
            &mut s,
            if minutes >= 1 {
                minutes
            } else {
                1
            },
        );
        push_str(&mut s, "m");
    }
    assert(s@ =~= reset_text(seconds as int));
    s
}

/// The non-empty pieces of a list, in order.
pub open spec fn nonempty_pieces(ps: Seq<Seq<char>>) -> Seq<Seq<char>>
    decreases ps.len(),
{
    if ps.len() == 0 {
        Seq::empty()
    } else if ps.last().len() > 0 {
        nonempty_pieces(ps.drop_last()).push(ps.last())
    } else {
        nonempty_pieces(ps.drop_last())
    }
}

/// Whether `path` is home or lies below it: it starts with home, and ends
/// there or goes on with a `/` (so `/home/userx` is not under `/home/user`).
pub open spec fn under_home(path: Seq<char>, home: Seq<char>) -> bool {
    has_prefix(path, home) && (path.len() == home.len() || path[home.len() as int] == '/')
}

/// A path as the dir segment first sees it: home replaced by `~`.
pub open spec fn tilde_path(path: Seq<char>, home: Seq<char>) -> Seq<char> {
    if under_home(path, home) {
        "~"@ + path.subrange(home.len() as int, path.len() as int)
    } else {
        path
    }
}

/// How many trailing components the dir segment keeps at a width.
pub open spec fn keep_components(columns: nat) -> nat {
    if columns < NARROW_COLUMNS {
        1
    } else {
        2
    }
}

/// The dir segment's text: home becomes `~`, and anything deeper keeps only
/// the last two components (one on narrow terminals), except that a path
/// directly below home stays `~/name`.
pub open spec fn truncated_dir(path: Seq<char>, home: Seq<char>, columns: nat) -> Seq<char> {
    if has_prefix(path, home) && path.len() == home.len() {
        "~"@
    } else {
        let display = tilde_path(path, home);
        let keep = keep_components(columns);
        let comps = nonempty_pieces(split(display, '/'));
        if comps.len() <= keep || (display.len() > 0 && display[0] == '~' && comps.len() <= keep
            + 1) {
            display
        } else {
            join(comps.subrange(comps.len() - keep, comps.len() as int), "/"@)
        }
    }
}

/// Shorten a path for display: home becomes `~`, and anything deeper keeps
/// only the last two components (one on narrow terminals), starship-style.
pub fn truncate_dir(path: &str, home: &str, columns: usize) -> (s: String)
    ensures
        s@ == truncated_dir(path@, home@, columns as nat),
{
    let path_chars = chars_of(path);
    let home_chars = chars_of(home);
    let display: Vec<char> = match strip_prefix(&path_chars, &home_chars) {
        Some(rest) => {
            if rest.len() == 0 {
                let mut t = String::new();
                push_str(&mut t, "~");
                return t;
            }
            if rest[0] != '/' {
                assert(!under_home(path@, home@));
                path_chars
            } else {
                let mut d: Vec<char> = Vec::new();
                d.push('~');
                let mut i: usize = 0;
                while i < rest.len()
                    invariant
                        i <= rest.len(),
                        d@ == seq!['~'] + rest@.subrange(0, i as int),
                    decreases rest.len() - i,
                {
                    d.push(rest[i]);
                    i = i + 1;
                }
                proof {
                    reveal_strlit("~");
                    assert(d@ =~= tilde_path(path@, home@));
                }
                d
            }
        },
        None => path_chars,
    };
    assert(display@ == tilde_path(path@, home@));
    let keep: usize = if columns < NARROW_COLUMNS {
        1
    } else {
        2
    };
    let pieces = split_chars(&display, '/');
    let ghost ps = split(display@, '/');
    let mut comps: Vec<Vec<char>> = Vec::new();
    let mut i: usize = 0;
    while i < pieces.len()
        invariant
            i <= pieces@.len(),
            pieces@.len() == ps.len(),
            forall|k: int| 0 <= k < pieces@.len() ==> (#[trigger] pieces@[k])@ == ps[k],
            comps@.len() == nonempty_pieces(ps.take(i as int)).len(),
            forall|k: int| 0 <= k < comps@.len() ==> (#[trigger] comps@[k])@ == nonempty_pieces(ps.take(i as int))[k],
        decreases pieces.len() - i,
    {
        assert(ps.take(i + 1).drop_last() =~= ps.take(i as int));
        if pieces[i].len() > 0 {
            comps.push(slice_chars(&pieces[i], 0, pieces[i].len()));
            assert(pieces@[i as int]@.subrange(0, pieces@[i as int]@.len() as int) =~= pieces@[i as int]@);
        }
        i = i + 1;
    }
    assert(ps.take(pieces@.len() as int) =~= ps);
    let ghost comps_v = nonempty_pieces(ps);
    let starts_tilde = display.len() > 0 && display[0] == '~';
    if comps.len() <= keep || (starts_tilde && comps.len() <= keep + 1) {
        return string_of(&display);
    }
    let n = comps.len();
    let mut out = String::new();
    if keep == 2 {
        push_chars(&mut out, &comps[n - 2]);
        push_str(&mut out, "/");
    }
    push_chars(&mut out, &comps[n - 1]);
    proof {
        let tail = comps_v.subrange(n - keep, n as int);
        if keep == 2 {
            assert(tail.drop_last() =~= seq![comps_v[n - 2]]);
            assert(join(tail.drop_last(), "/"@) == comps_v[n - 2]);
        } else {
            assert(tail =~= seq![comps_v[n - 1]]);
        }
        assert(out@ =~= join(tail, "/"@));
    }
    out
}

/// What a linked worktree's `.git` file points at: the text after
/// `gitdir:`, trimmed.
pub open spec fn gitfile_target(contents: Seq<char>) -> Option<Seq<char>> {
    if has_prefix(contents, "gitdir:"@) {
        Some(trimmed(contents.subrange(7, contents.len() as int)))
    } else {
        None
    }
}

/// The gitdir named by the contents of a worktree's `.git` file, or `None`
/// when the file does not start with `gitdir:`.
pub fn gitdir_from_gitfile(contents: &str) -> (r: Option<String>)
    ensures
        opt_view(r) == gitfile_target(contents@),
{
    let chars = chars_of(contents);
    let prefix = chars_of("gitdir:");
    proof {
        reveal_strlit("gitdir:");
    }
    match strip_prefix(&chars, &prefix) {
        Some(rest) => {
            let t = trim(&rest);
            Some(string_of(&t))
        },
        None => None,
    }
}

/// The branch a `HEAD` file names: the ref under `refs/heads/`, or for a
/// detached HEAD the first eight characters of the hash.
pub open spec fn head_branch(head: Seq<char>) -> Seq<char> {
    let t = trimmed(head);
    if has_prefix(t, "ref: refs/heads/"@) {
        t.subrange(16, t.len() as int)
    } else if t.len() <= 8 {
        t
    } else {
        t.subrange(0, 8)
    }
}

/// What a directory's `.git` entry turned out to be, as the search for the
/// repository around the working directory finds it.
#[derive(Debug, Clone, PartialEq, Eq)]
pub enum DotGit {
    /// A directory: the repository's own git directory.
    Dir,
    /// A file, with the contents read from it (a linked worktree).
    File(String),
    /// A file that could not be read.
    Unreadable,
    /// Nothing of that name.
    Missing,
}

/// The next move of that search.
#[derive(Debug, Clone, PartialEq, Eq)]
pub enum GitDirStep {
    /// `HEAD` lives in this directory's `.git`.
    UseDotGit,
    /// `HEAD` lives in the gitdir the `.git` file names, relative to this
    /// directory.
    UseGitdir(String),
    /// Look at the parent directory next.
    Up,
    /// There is no repository to read.
    Stop,
}

/// Decides, from what one directory's `.git` entry is, where `HEAD` lives or
/// whether to look further up: a `.git` directory is used as it is, a
/// `.git` file must name a gitdir, and a missing entry sends the search to
/// the parent.
pub fn git_dir_step(found: &DotGit) -> (r: GitDirStep)
    ensures
        match (found, r) {
            (DotGit::File(c), GitDirStep::UseGitdir(g)) => gitfile_target(c@) == Some(g@),
            (DotGit::File(c), GitDirStep::Stop) => gitfile_target(c@) is None,
            (DotGit::File(_), _) => false,
            (DotGit::Dir, GitDirStep::UseDotGit) => true,
            (DotGit::Missing, GitDirStep::Up) => true,
            (DotGit::Unreadable, GitDirStep::Stop) => true,
            _ => false,
        },
{
    match found {
        DotGit::Dir => GitDirStep::UseDotGit,
        DotGit::Missing => GitDirStep::Up,
        DotGit::Unreadable => GitDirStep::Stop,
        DotGit::File(contents) => match gitdir_from_gitfile(contents.as_str()) {
            Some(g) => GitDirStep::UseGitdir(g),
            None => GitDirStep::Stop,
        },
    }
}

/// Current branch from the contents of a `HEAD` file. Detached HEAD yields
/// the short hash.
pub fn branch_from_head(head: &str) -> (s: String)
    ensures
        s@ == head_branch(head@),
{
    let chars = chars_of(head);
    let t = trim(&chars);
    let prefix = chars_of("ref: refs/heads/");
    proof {
        reveal_strlit("ref: refs/heads/");
    }
    match strip_prefix(&t, &prefix) {
        Some(branch) => string_of(&branch),
        None => {
            let end = if t.len() <= 8 {
                t.len()
            } else {
                8
            };
            let short = slice_chars(&t, 0, end);
            assert(t@.len() <= 8 ==> t@.subrange(0, end as int) =~= t@);
            string_of(&short)
        },
    }
}

/// Current branch from the `HEAD` file of the repository around the working
/// directory, given its contents where one was found and read.
pub fn git_branch(head: Option<&str>) -> (r: Option<String>)
    ensures
        opt_view(r) == (match head {
            Some(h) => Some(head_branch(h@)),
            None => None::<Seq<char>>,
        }),
{
    match head {
        Some(h) => Some(branch_from_head(h)),
        None => None,
    }
}

/// The in-progress repository operation the marker files next to `HEAD`
/// show, checked in this order.
pub open spec fn repo_state_text(
    rebase_merge: bool,
    rebase_apply: bool,
    merge_head: bool,
    cherry_pick_head: bool,
    revert_head: bool,
    bisect_log: bool,
) -> Option<Seq<char>> {
    if rebase_merge || rebase_apply {
        Some("rebasing"@)
    } else if merge_head {
        Some("merging"@)
    } else if cherry_pick_head {
        Some("cherry-picking"@)
    } else if revert_head {
        Some("reverting"@)
    } else if bisect_log {
        Some("bisecting"@)
    } else {
        None
    }
}

/// In-progress repository operation, from which of git's marker files
/// exist: the `rebase-merge` and `rebase-apply` directories, then the
/// `MERGE_HEAD`, `CHERRY_PICK_HEAD`, `REVERT_HEAD` and `BISECT_LOG` files.
pub fn git_state(
    rebase_merge: bool,
    rebase_apply: bool,
    merge_head: bool,
    cherry_pick_head: bool,
    revert_head: bool,
    bisect_log: bool,
) -> (r: Option<&'static str>)
    ensures
        opt_str_view(r) == repo_state_text(
            rebase_merge,
            rebase_apply,
            merge_head,
            cherry_pick_head,
            revert_head,
            bisect_log,
        ),
{
    if rebase_merge || rebase_apply {
        Some("rebasing")
    } else if merge_head {
        Some("merging")
    } else if cherry_pick_head {
        Some("cherry-picking")
    } else if revert_head {
        Some("reverting")
    } else if bisect_log {
        Some("bisecting")
    } else {
        None
    }
}

/// The git segment's text: branch, any in-progress repo operation, then the
/// session's line churn when both counts are known: ` main (merging) +156 -23`.
pub open spec fn git_text(
    branch: Seq<char>,
    state: Option<Seq<char>>,
    added: Option<u64>,
    removed: Option<u64>,
    mode: Mode,
) -> Seq<char> {
    let head = seq![branch_icon_char(mode)] + " "@ + branch;
    let with_state = match state {
        Some(st) => head + " ("@ + st + ")"@,
        None => head,
    };
    match (added, removed) {
        (Some(a), Some(r)) => with_state + " +"@ + decimal(a as nat) + " -"@ + decimal(r as nat),
        _ => with_state,
    }
}

/// The git segment's text for a branch.
pub fn format_git(
    branch: &str,
    state: Option<&str>,
    added: Option<u64>,
    removed: Option<u64>,
    mode: Mode,
) -> (s: String)
    ensures
        s@ == git_text(branch@, opt_str_view(state), added, removed, mode),
{
    let mut text = String::new();
    push_char(&mut text, branch_icon(mode));
    push_str(&mut text, " ");
    push_str(&mut text, branch);
    let ghost head = text@;
    match state {
        Some(st) => {
            push_str(&mut text, " (");
            push_str(&mut text, st);
            push_str(&mut text, ")");
        },
        None => {},
    }
    let ghost with_state = text@;
    match (added, removed) {
        (Some(a), Some(r)) => {
            push_str(&mut text, " +");
            push_decimal(&mut text, a);
            push_str(&mut text, " -");
            push_decimal(&mut text, r);
        },
        _ => {},
    }
    assert(text@ =~= git_text(branch@, opt_str_view(state), added, removed, mode));
    text
}

/// What the bar shows that the payload does not say or that is computed
/// outside this library: the repository's branch and in-progress operation
/// (read from disk), the two readouts whose numbers are floating point (the
/// session cost and the remaining rate-limit budget, already formatted),
/// and the family the remaining budget paints the usage segment with.
#[derive(Debug, Clone)]
pub struct Ambient {
    pub git_branch: Option<String>,
    pub git_state: Option<String>,
    pub cost: Option<String>,
    pub usage: Option<String>,
    pub usage_family: Family,
}

impl Default for Ambient {
    fn default() -> (a: Ambient)
        ensures
            a.git_branch is None,
            a.git_state is None,
            a.cost is None,
            a.usage is None,
            a.usage_family == Family::Cost,
    {
        Ambient { git_branch: None, git_state: None, cost: None, usage: None, usage_family: Family::Cost }
    }
}

/// The token count as the library reads it (the payload's sum, taken as a
/// `u64`).
pub open spec fn tokens_u64(p: Payload) -> Option<u64> {
    match p.tokens_spec() {
        Some(t) => Some(t as u64),
        None => None,
    }
}

/// The text of one module, or `None` when its data is absent.
pub open spec fn segment_text(
    p: Payload,
    amb: Ambient,
    m: Module,
    columns: nat,
    home: Seq<char>,
    mode: Mode,
) -> Option<Seq<char>> {
    match m {
        Module::Logo => Some(logo_text(mode)),
        Module::Dir => match p.dir_spec() {
            Some(d) => Some(truncated_dir(d, home, columns)),
            None => None,
        },
        Module::Git => match (p.dir_spec(), amb.git_branch) {
            (Some(_), Some(b)) => Some(
                git_text(
                    b@,
                    opt_view(amb.git_state),
                    p.lines_added_spec(),
                    p.lines_removed_spec(),
                    mode,
                ),
            ),
            _ => None,
        },
        Module::Model => match p.display_name_spec() {
            Some(n) => Some(model_text(lowercase_of(n), mode)),
            None => None,
        },
        Module::Context => Some(tokens_text(tokens_u64(p))),
        Module::Cost => opt_view(amb.cost),
        Module::Usage => opt_view(amb.usage),
        Module::Stats => match p.duration_spec() {
            Some(ms) => Some(duration_text(ms as nat)),
            None => None,
        },
        Module::Effort => p.effort_spec(),
    }
}

/// The `(module, text)` pairs for a list of modules, skipping modules whose
/// data is absent.
pub open spec fn texts_for(
    p: Payload,
    amb: Ambient,
    mods: Seq<Module>,
    columns: nat,
    home: Seq<char>,
    mode: Mode,
) -> Seq<(Module, Seq<char>)>
    decreases mods.len(),
{
    if mods.len() == 0 {
        Seq::empty()
    } else {
        let before = texts_for(p, amb, mods.drop_last(), columns, home, mode);
        match segment_text(p, amb, mods.last(), columns, home, mode) {
            Some(t) => before.push((mods.last(), t)),
            None => before,
        }
    }
}

/// The text of one module, or `None` when its data is absent.
fn module_text(
    payload: &Payload,
    ambient: &Ambient,
    module: Module,
    columns: usize,
    home: &str,
    mode: Mode,
) -> (r: Option<String>)
    requires
        module == Module::Context ==> payload.tokens_fit(),
    ensures
        opt_view(r) == segment_text(*payload, *ambient, module, columns as nat, home@, mode),
{
    match module {
        Module::Logo => {
            let mut t = String::new();
            push_str(&mut t, logo(mode));
            Some(t)
        },
        Module::Dir => match payload.dir() {
            Some(dir) => Some(truncate_dir(dir, home, columns)),
            None => None,
        },
        Module::Git => match (payload.dir(), &ambient.git_branch) {
            (Some(_), Some(branch)) => {
                let state: Option<&str> = match &ambient.git_state {
                    Some(st) => Some(st.as_str()),
                    None => None,
                };
                Some(
                    format_git(
                        branch.as_str(),
                        state,
                        payload.lines_added(),
                        payload.lines_removed(),
                        mode,
                    ),
                )
            },
            _ => None,
        },
        Module::Model => match payload.model_display_name() {
            Some(name) => Some(format_model_in(name, mode)),
            None => None,
        },
        Module::Context => Some(format_tokens(payload.current_tokens())),
        Module::Cost => copy_text(&ambient.cost),
        Module::Usage => copy_text(&ambient.usage),
        Module::Stats => match payload.total_duration_ms() {
            Some(ms) => Some(format_duration(ms)),
            None => None,
        },
        Module::Effort => match payload.effort_level() {
            Some(level) => {
                let mut t = String::new();
                push_str(&mut t, level);
                Some(t)
            },
            None => None,
        },
    }
}

/// A fresh copy of an optional text.
fn copy_text(t: &Option<String>) -> (r: Option<String>)
    ensures
        opt_view(r) == opt_view(*t),
{
    match t {
        Some(s) => {
            let mut c = String::new();
            push_str(&mut c, s.as_str());
            Some(c)
        },
        None => None,
    }
}

/// Build the text for every requested module, skipping modules whose data
/// is absent from the payload. Returns `(module, text)` pairs ready for
/// theming. `home` comes from the caller so nothing here reads the process
/// environment.
pub fn segment_texts(
    payload: &Payload,
    modules: &[Module],
    columns: usize,
    home: &str,
    mode: Mode,
    ambient: &Ambient,
) -> (r: Vec<(Module, String)>)
    requires
        modules@.contains(Module::Context) ==> payload.tokens_fit(),
    ensures
        r@.len() == texts_for(*payload, *ambient, modules@, columns as nat, home@, mode).len(),
        forall|k: int|
            0 <= k < r@.len() ==> (#[trigger] r@[k]).0 == texts_for(
                *payload,
                *ambient,
                modules@,
                columns as nat,
                home@,
                mode,
            )[k].0 && r@[k].1@ == texts_for(*payload, *ambient, modules@, columns as nat, home@, mode)[k].1,
{
    let mut out: Vec<(Module, String)> = Vec::new();
    let mut i: usize = 0;
    while i < modules.len()
        invariant
            i <= modules@.len(),
            modules@.contains(Module::Context) ==> payload.tokens_fit(),
            out@.len() == texts_for(*payload, *ambient, modules@.take(i as int), columns as nat, home@, mode).len(),
            forall|k: int|
                0 <= k < out@.len() ==> (#[trigger] out@[k]).0 == texts_for(
                    *payload,
                    *ambient,
                    modules@.take(i as int),
                    columns as nat,
                    home@,
                    mode,
                )[k].0 && out@[k].1@ == texts_for(
                    *payload,
                    *ambient,
                    modules@.take(i as int),
                    columns as nat,
                    home@,
                    mode,
                )[k].1,
        decreases modules.len() - i,
    {
        let ghost prefix = modules@.take(i + 1);
        assert(prefix.drop_last() =~= modules@.take(i as int));
        assert(prefix.last() == modules@[i as int]);
        let module = modules[i];
        assert(module == Module::Context ==> modules@.contains(Module::Context)) by {
            if module == Module::Context {
                assert(modules@[i as int] == Module::Context);
            }
        }
        match module_text(payload, ambient, module, columns, home, mode) {
            Some(text) => {
                out.push((module, text));
            },
            None => {},
        }
        i = i + 1;
    }
    assert(modules@.take(modules@.len() as int) =~= modules@);
    out
}

/// Every module name is non-empty lowercase ASCII: no comma, no whitespace.
proof fn lemma_module_name_plain(m: Module)
    ensures
        module_name(m).len() > 0,
        forall|i: int| 0 <= i < module_name(m).len() ==> 'a' <= #[trigger] module_name(m)[i] <= 'z',
{
    reveal_strlit("logo");
    reveal_strlit("dir");
    reveal_strlit("git");
    reveal_strlit("model");
    reveal_strlit("context");
    reveal_strlit("cost");
    reveal_strlit("usage");
    reveal_strlit("stats");
    reveal_strlit("effort");
}

/// No two modules share a name: their lengths or first letters differ.
proof fn lemma_module_names_distinct(a: Module, b: Module)
    requires
        a != b,
    ensures
        module_name(a) != module_name(b),
{
    reveal_strlit("logo");
    reveal_strlit("dir");
    reveal_strlit("git");
    reveal_strlit("model");
    reveal_strlit("context");
    reveal_strlit("cost");
    reveal_strlit("usage");
    reveal_strlit("stats");
    reveal_strlit("effort");
    assert(module_name(a).len() != module_name(b).len() || module_name(a)[0] != module_name(b)[0]);
}

proof fn lemma_first_named_reaches(m: Module, i: nat)
    requires
        i <= module_index(m),
    ensures
        first_named(module_name(m), i) == Some(m),
    decreases module_index(m) - i,
{
    if i < module_index(m) {
        assert(module_at(i) != m);
        lemma_module_names_distinct(module_at(i), m);
        lemma_first_named_reaches(m, i + 1);
    } else {
        assert(module_at(i) == m);
    }
}

/// Every module's CLI name parses back to that module.
pub proof fn module_name_round_trip(m: Module)
    ensures
        module_result(module_name(m)) == Ok::<Module, Seq<char>>(m),
{
    lemma_first_named_reaches(m, 0);
}

/// The names of a list of modules.
pub open spec fn names_of(ms: Seq<Module>) -> Seq<Seq<char>> {
    ms.map_values(|m: Module| module_name(m))
}

proof fn lemma_modules_from_names(ms: Seq<Module>)
    ensures
        modules_from(names_of(ms)) == Ok::<Seq<Module>, Seq<char>>(ms),
    decreases ms.len(),
{
    if ms.len() > 0 {
        let ps = names_of(ms);
        assert(ps.drop_first() =~= names_of(ms.drop_first()));
        lemma_modules_from_names(ms.drop_first());
        lemma_module_name_plain(ms[0]);
        let n = module_name(ms[0]);
        assert(!is_white(n[0]));
        assert(!is_white(n.last()));
        lemma_trimmed_unchanged(n);
        module_name_round_trip(ms[0]);
        assert(ps[0] == n);
        assert(trimmed(ps[0]) == n);
        assert(module_result(trimmed(ps[0])) == Ok::<Module, Seq<char>>(ms[0]));
        assert(modules_from(ps.drop_first()) == Ok::<Seq<Module>, Seq<char>>(ms.drop_first()));
        assert(trimmed(ps[0]).len() > 0);
        assert(modules_from(ps) == Ok::<Seq<Module>, Seq<char>>(seq![ms[0]] + ms.drop_first()));
        assert(seq![ms[0]] + ms.drop_first() =~= ms);
    } else {
        assert(names_of(ms) =~= Seq::<Seq<char>>::empty());
        assert(ms =~= Seq::<Module>::empty());
    }
}

/// Any list of modules, written as its names joined with commas (as
/// `--modules` takes it), parses back to the same list.
pub proof fn module_list_round_trip(ms: Seq<Module>)
    ensures
        modules_result(join(names_of(ms), ","@)) == Ok::<Seq<Module>, Seq<char>>(ms),
{
    reveal_strlit(",");
    let ps = names_of(ms);
    if ms.len() == 0 {
        let blank = Seq::<char>::empty();
        assert(ps =~= Seq::<Seq<char>>::empty());
        assert(join(ps, ","@) == blank);
        assert(split(blank, ',') == seq![blank]);
        assert(trimmed(blank).len() == 0);
        assert(seq![blank].drop_first() =~= Seq::<Seq<char>>::empty());
        assert(modules_from(seq![blank]) == modules_from(Seq::<Seq<char>>::empty()));
        assert(ms =~= Seq::<Module>::empty());
    } else {
        assert forall|k: int, i: int| 0 <= k < ps.len() && 0 <= i < ps[k].len() implies #[trigger] ps[k][i] != ',' by {
            lemma_module_name_plain(ms[k]);
            assert('a' <= module_name(ms[k])[i] <= 'z');
        }
        assert(","@ =~= seq![',']);
        lemma_split_join(ps, ',');
        lemma_modules_from_names(ms);
    }
}

/// The default `--modules` value parses to the default order: every
/// module, in registry order.
pub proof fn default_list_parses_to_default_order()
    ensures
        modules_result(default_list_text()) == Ok::<Seq<Module>, Seq<char>>(
            Seq::new(MODULE_COUNT as nat, |i: int| module_at(i as nat)),
        ),
{
    let ms = Seq::new(MODULE_COUNT as nat, |i: int| module_at(i as nat));
    assert(names_of(ms) =~= module_names());
    module_list_round_trip(ms);
}

/// More tokens never calm the context segment: the family only moves from
/// normal to warn to alert as the count grows.
pub proof fn context_family_is_monotone(fewer: u64, more: u64)
    requires
        fewer <= more,
    ensures
        context_family_for(Some(more)) == Family::Context ==> context_family_for(Some(fewer))
            == Family::Context,
        context_family_for(Some(fewer)) == Family::ContextAlert ==> context_family_for(Some(more))
            == Family::ContextAlert,
{
}

/// `s` without its commas.
pub open spec fn strip_commas(s: Seq<char>) -> Seq<char>
    decreases s.len(),
{
    if s.len() == 0 {
        s
    } else if s.last() == ',' {
        strip_commas(s.drop_last())
    } else {
        strip_commas(s.drop_last()).push(s.last())
    }
}

proof fn lemma_strip_commas_concat(a: Seq<char>, b: Seq<char>)
    ensures
        strip_commas(a + b) == strip_commas(a) + strip_commas(b),
    decreases b.len(),
{
    if b.len() == 0 {
        assert(a + b =~= a);
        assert(strip_commas(a) + strip_commas(b) =~= strip_commas(a));
    } else {
        assert((a + b).drop_last() =~= a + b.drop_last());
        lemma_strip_commas_concat(a, b.drop_last());
        if b.last() == ',' {
        } else {
            assert(strip_commas(a) + strip_commas(b.drop_last()).push(b.last()) =~= (strip_commas(a)
                + strip_commas(b.drop_last())).push(b.last()));
        }
    }
}

proof fn lemma_strip_commas_plain(s: Seq<char>)
    requires
        forall|i: int| 0 <= i < s.len() ==> s[i] != ',',
    ensures
        strip_commas(s) == s,
    decreases s.len(),
{
    if s.len() > 0 {
        lemma_strip_commas_plain(s.drop_last());
        assert(s.drop_last().push(s.last()) =~= s);
    }
}

/// Grouping digits in threes only adds commas: taking them out again gives
/// the digits back.
pub proof fn grouping_only_adds_commas(d: Seq<char>)
    requires
        forall|i: int| 0 <= i < d.len() ==> d[i] != ',',
    ensures
        strip_commas(grouped(d)) == d,
    decreases d.len(),
{
    if d.len() > 3 {
        let front = d.subrange(0, d.len() - 3);
        let back = d.subrange(d.len() - 3, d.len() as int);
        grouping_only_adds_commas(front);
        reveal_strlit(",");
        lemma_strip_commas_concat(grouped(front) + ","@, back);
        lemma_strip_commas_concat(grouped(front), ","@);
        assert(strip_commas(","@) =~= Seq::<char>::empty()) by {
            assert(","@.len() == 1);
            assert(","@.last() == ',');
            assert(","@.drop_last() =~= Seq::<char>::empty());
            assert(strip_commas(Seq::<char>::empty()) =~= Seq::<char>::empty());
        }
        lemma_strip_commas_plain(back);
        assert(front + back =~= d);
    } else {
        lemma_strip_commas_plain(d);
    }
}

/// Whether the data a module shows is there: the logo and the context
/// segment always render; every other module needs its payload field (or,
/// for cost and usage, the caller's readout; for git, the directory and a
/// branch).
pub open spec fn data_present(p: Payload, amb: Ambient, m: Module) -> bool {
    match m {
        Module::Logo => true,
        Module::Context => true,
        Module::Dir => p.dir_spec() is Some,
        Module::Git => p.dir_spec() is Some && amb.git_branch is Some,
        Module::Model => p.display_name_spec() is Some,
        Module::Cost => amb.cost is Some,
        Module::Usage => amb.usage is Some,
        Module::Stats => p.duration_spec() is Some,
        Module::Effort => p.effort_spec() is Some,
    }
}

/// Segments whose data is absent disappear rather than render
/// placeholders: the segments a list of modules renders are exactly the
/// modules whose data is present, in the order asked for.
pub proof fn absent_data_drops_the_segment(
    p: Payload,
    amb: Ambient,
    mods: Seq<Module>,
    columns: nat,
    home: Seq<char>,
    mode: Mode,
)
    ensures
        texts_for(p, amb, mods, columns, home, mode).map_values(|e: (Module, Seq<char>)| e.0)
            == mods.filter(|m: Module| data_present(p, amb, m)),
    decreases mods.len(),
{
    reveal_with_fuel(Seq::<_>::filter, 1);
    let texts = texts_for(p, amb, mods, columns, home, mode);
    if mods.len() == 0 {
        assert(texts.map_values(|e: (Module, Seq<char>)| e.0) =~= mods.filter(
            |m: Module| data_present(p, amb, m),
        ));
    } else {
        absent_data_drops_the_segment(p, amb, mods.drop_last(), columns, home, mode);
        let before = texts_for(p, amb, mods.drop_last(), columns, home, mode);
        let m = mods.last();
        assert(segment_text(p, amb, m, columns, home, mode) is Some <==> data_present(p, amb, m));
        match segment_text(p, amb, m, columns, home, mode) {
            Some(t) => {
                assert(texts == before.push((m, t)));
                assert(texts.map_values(|e: (Module, Seq<char>)| e.0) =~= before.map_values(
                    |e: (Module, Seq<char>)| e.0,
                ).push(m));
            },
            None => {
                assert(texts == before);
            },
        }
    }
}

/// Whether a module's data is present.
pub fn has_data(payload: &Payload, ambient: &Ambient, module: Module) -> (r: bool)
    ensures
        r == data_present(*payload, *ambient, module),
{
    match module {
        Module::Logo => true,
        Module::Context => true,
        Module::Dir => payload.dir().is_some(),
        Module::Git => payload.dir().is_some() && ambient.git_branch.is_some(),
        Module::Model => payload.model_display_name().is_some(),
        Module::Cost => ambient.cost.is_some(),
        Module::Usage => ambient.usage.is_some(),
        Module::Stats => payload.total_duration_ms().is_some(),
        Module::Effort => payload.effort_level().is_some(),
    }
}

/// The modules of a list whose data is present.
pub open spec fn present_modules(p: Payload, amb: Ambient, mods: Seq<Module>) -> Seq<Module> {
    mods.filter(|m: Module| data_present(p, amb, m))
}

/// Whether any module of a list has its data present, so that it renders.
pub fn renders_any(payload: &Payload, ambient: &Ambient, modules: &Vec<Module>) -> (r: bool)
    ensures
        r == (present_modules(*payload, *ambient, modules@).len() > 0),
{
    let mut i: usize = 0;
    while i < modules.len()
        invariant
            i <= modules@.len(),
            present_modules(*payload, *ambient, modules@.take(i as int)).len() == 0,
        decreases modules.len() - i,
    {
        proof {
            reveal_with_fuel(Seq::<_>::filter, 1);
            assert(modules@.take(i + 1).drop_last() =~= modules@.take(i as int));
        }
        if has_data(payload, ambient, modules[i]) {
            proof {
                lemma_present_grows(*payload, *ambient, modules@, i + 1);
            }
            return true;
        }
        i = i + 1;
    }
    assert(modules@.take(modules@.len() as int) =~= modules@);
    false
}

/// Present modules of a prefix stay present in the whole list.
proof fn lemma_present_grows(p: Payload, amb: Ambient, mods: Seq<Module>, n: int)
    requires
        0 <= n <= mods.len(),
    ensures
        present_modules(p, amb, mods.take(n)).len() <= present_modules(p, amb, mods).len(),
    decreases mods.len() - n,
{
    reveal_with_fuel(Seq::<_>::filter, 1);
    if n < mods.len() {
        lemma_present_grows(p, amb, mods, n + 1);
        assert(mods.take(n + 1).drop_last() =~= mods.take(n));
    } else {
        assert(mods.take(n) =~= mods);
    }
}

/// A list that holds the context module renders something.
pub proof fn context_always_renders(p: Payload, amb: Ambient, mods: Seq<Module>)
    requires
        mods.contains(Module::Context),
    ensures
        present_modules(p, amb, mods).len() > 0,
{
    let i = choose|i: int| 0 <= i < mods.len() && mods[i] == Module::Context;
    reveal_with_fuel(Seq::<_>::filter, 1);
    assert(mods.take(i + 1).drop_last() =~= mods.take(i));
    assert(present_modules(p, amb, mods.take(i + 1)).len() > 0);
    lemma_present_grows(p, amb, mods, i + 1);
}

/// The number of segments a list renders is the number of its modules whose
/// data is present.
pub proof fn rendered_count(
    p: Payload,
    amb: Ambient,
    mods: Seq<Module>,
    columns: nat,
    home: Seq<char>,
    mode: Mode,
)
    ensures
        texts_for(p, amb, mods, columns, home, mode).len() == present_modules(p, amb, mods).len(),
{
    absent_data_drops_the_segment(p, amb, mods, columns, home, mode);
    assert(texts_for(p, amb, mods, columns, home, mode).map_values(|e: (Module, Seq<char>)| e.0).len()
        == texts_for(p, amb, mods, columns, home, mode).len());
}

/// A rebase in progress shows as "rebasing" whatever other markers lie
/// beside it, whichever backend left its directory (`rebase-merge` or
/// `rebase-apply`); past that, the first marker present in the order merge,
/// cherry-pick, revert, bisect names the operation, and with no marker
/// nothing is shown.
pub proof fn rebase_marker_means_rebasing(
    rebase_merge: bool,
    rebase_apply: bool,
    merge_head: bool,
    cherry_pick_head: bool,
    revert_head: bool,
    bisect_log: bool,
)
    ensures
        rebase_merge ==> repo_state_text(
            rebase_merge,
            rebase_apply,
            merge_head,
            cherry_pick_head,
            revert_head,
            bisect_log,
        ) == Some("rebasing"@),
        rebase_apply ==> repo_state_text(
            rebase_merge,
            rebase_apply,
            merge_head,
            cherry_pick_head,
            revert_head,
            bisect_log,
        ) == Some("rebasing"@),
        !rebase_merge && !rebase_apply && merge_head ==> repo_state_text(
            rebase_merge,
            rebase_apply,
            merge_head,
            cherry_pick_head,
            revert_head,
            bisect_log,
        ) == Some("merging"@),
        repo_state_text(rebase_merge, rebase_apply, merge_head, cherry_pick_head, revert_head, bisect_log)
            is None <==> !(rebase_merge || rebase_apply || merge_head || cherry_pick_head
            || revert_head || bisect_log),
{
}

/// The context segment is painted by one family, picked by its token
/// count: below 80k the normal context pair, from 80k the warn pair, from
/// 125k the alert pair, both foreground and background, in every theme.
pub proof fn context_colors_follow_token_count(
    theme: Theme,
    tokens: Option<u64>,
    usage_family: Family,
    git_busy: bool,
)
    ensures
        module_colors(theme, Module::Context, tokens, usage_family, git_busy) == theme.family_colors(
            match tokens {
                Some(t) => if t >= 125_000 {
                    Family::ContextAlert
                } else if t >= 80_000 {
                    Family::ContextWarn
                } else {
                    Family::Context
                },
                None => Family::Context,
            },
        ),
{
}

/// The model icon goes by the family word anywhere in the name, not only at
/// its start: a name with `haiku` in it gets the haiku icon, one with `opus`
/// and no `haiku` the opus icon, and the icon is followed by a space and the
/// name unchanged. The plain-Unicode mode shows the name alone.
pub proof fn model_icon_found_anywhere_in_name(before: Seq<char>, after: Seq<char>, mode: Mode)
    ensures
        mode != Mode::Compatible ==> model_text(before + "haiku"@ + after, mode) == seq![HAIKU_ICON]
            + " "@ + (before + "haiku"@ + after),
        mode != Mode::Compatible && !contains_seq(before + "opus"@ + after, "haiku"@) ==> model_text(
            before + "opus"@ + after,
            mode,
        ) == seq![OPUS_ICON] + " "@ + (before + "opus"@ + after),
        model_text(before + after, Mode::Compatible) == before + after,
{
    let h = before + "haiku"@ + after;
    assert(h.subrange(before.len() as int, before.len() + "haiku"@.len() as int) =~= "haiku"@);
    assert(occurs_at(h, "haiku"@, before.len() as int));
    let o = before + "opus"@ + after;
    assert(o.subrange(before.len() as int, before.len() + "opus"@.len() as int) =~= "opus"@);
    assert(occurs_at(o, "opus"@, before.len() as int));
}

/// A name with neither family word in it gets the sonnet icon.
pub proof fn model_icon_absent_family_is_sonnet(name: Seq<char>)
    ensures
        !contains_seq(name, "haiku"@) && !contains_seq(name, "opus"@) ==> model_text(name, Mode::Patched)
            == seq![SONNET_ICON] + " "@ + name,
{
}

/// A directory one component below home shows as `~/name` at every
/// terminal width: the narrow-terminal cut to one component never drops the
/// `~` from a path directly under home.
pub proof fn directly_below_home_keeps_tilde(home: Seq<char>, name: Seq<char>, columns: nat)
    requires
        forall|i: int| 0 <= i < name.len() ==> name[i] != '/',
    ensures
        truncated_dir(home + "/"@ + name, home, columns) == "~/"@ + name,
{
    reveal_strlit("/");
    reveal_strlit("~");
    reveal_strlit("~/");
    let path = home + "/"@ + name;
    assert(path.subrange(0, home.len() as int) =~= home);
    assert(path[home.len() as int] == '/');
    assert(under_home(path, home));
    let tilde = seq!['~'];
    let display = tilde + seq!['/'] + name;
    assert(path.subrange(home.len() as int, path.len() as int) =~= seq!['/'] + name);
    assert(tilde_path(path, home) =~= display);
    assert(display =~= "~/"@ + name);
    lemma_split_around(tilde, name, '/', Seq::empty());
    lemma_split_single(tilde, '/', Seq::empty());
    lemma_split_single(name, '/', Seq::empty());
    assert(Seq::<char>::empty() + tilde =~= tilde);
    assert(Seq::<char>::empty() + name =~= name);
    let pieces = seq![tilde, name];
    assert(split(display, '/') =~= pieces);
    reveal_with_fuel(nonempty_pieces, 3);
    assert(pieces.drop_last() =~= seq![tilde]);
    assert(seq![tilde].drop_last() =~= Seq::<Seq<char>>::empty());
    let comps = nonempty_pieces(pieces);
    assert(comps.len() <= 2);
    assert(display[0] == '~');
}

} // verus!
