#![verifier::loop_isolation(false)]

//! Command-line arguments, `pagina.toml` configuration text, and the help
//! and error texts (colors only where enabled).

use vstd::prelude::*;
use crate::error::{Error, spec_message_body};
use crate::text::{
    chars_of, eq_str, lower_ascii_vec, push_str, push_vec, slice, spec_lines, spec_lower_ascii_seq,
    spec_trim, split_lines, starts_with_at, string_of, trim, trim_end_class, matches_at,
};

verus! {

broadcast use vstd::string::group_string_axioms;

#[derive(Debug)]
pub struct CliArgs {
    pub subcommand: Subcommand,
    /// Effective color mode (CLI `--color` overrides `pagina.toml`).
    pub color: ColorMode,
}

#[derive(Debug)]
pub enum Subcommand {
    ToHtml { input: String, output: String, gfm: bool },
    ToMd { input: String, output: String, gfm: bool },
    Help,
    Version,
}

// ---------------------------------------------------------------------------
// Color mode
// ---------------------------------------------------------------------------

/// When to emit ANSI colors in help text and error messages. Converted
/// output is never colorized; only human-facing diagnostics are.
#[derive(Debug, Clone, Copy, PartialEq, Eq, Structural)]
pub enum ColorMode {
    /// Emit colors only when the target stream is a TTY.
    Auto,
    /// Always emit colors, even when piped.
    Always,
    /// Never emit colors.
    Never,
}

impl Default for ColorMode {
    fn default() -> (r: Self)
        ensures
            r == ColorMode::Auto,
    {
        ColorMode::Auto
    }
}

pub open spec fn spec_use_color(m: ColorMode, tty: bool) -> bool {
    match m {
        ColorMode::Always => true,
        ColorMode::Never => false,
        ColorMode::Auto => tty,
    }
}

impl ColorMode {
    /// Resolve against a TTY probe (`true` when the target stream is a TTY).
    pub fn use_color(self, stream_is_tty: bool) -> (r: bool)
        ensures
            r == spec_use_color(self, stream_is_tty),
    {
        match self {
            ColorMode::Always => true,
            ColorMode::Never => false,
            ColorMode::Auto => stream_is_tty,
        }
    }

    /// The mode's name: `auto`, `always` or `never`.
    pub fn name(self) -> (r: String)
        ensures
            r@ == spec_color_name(self),
    {
        let mut out: Vec<char> = Vec::new();
        match self {
            ColorMode::Auto => push_str(&mut out, "auto"),
            ColorMode::Always => push_str(&mut out, "always"),
            ColorMode::Never => push_str(&mut out, "never"),
        }
        string_of(&out)
    }
}

pub open spec fn spec_color_name(m: ColorMode) -> Seq<char> {
    match m {
        ColorMode::Auto => "auto"@,
        ColorMode::Always => "always"@,
        ColorMode::Never => "never"@,
    }
}

/// Trimmed, ASCII-lowercased form of a setting value.
pub open spec fn spec_norm(s: Seq<char>) -> Seq<char> {
    spec_lower_ascii_seq(spec_trim(s, 0))
}

/// Color mode named by a value (trimmed, case-insensitive).
pub open spec fn spec_parse_color(s: Seq<char>) -> Option<ColorMode> {
    let t = spec_norm(s);
    if t == "auto"@ {
        Some(ColorMode::Auto)
    } else if t == "always"@ {
        Some(ColorMode::Always)
    } else if t == "never"@ {
        Some(ColorMode::Never)
    } else {
        None
    }
}

fn norm(s: &Vec<char>) -> (r: Vec<char>)
    ensures
        r@ == spec_norm(s@),
{
    let t = trim(s);
    lower_ascii_vec(&t)
}

/// Parse a color value: `auto`, `always` or `never`, trimmed and
/// case-insensitive. Anything else is `InvalidInput`, naming the value.
pub fn parse_color(s: &Vec<char>) -> (r: Result<ColorMode, Error>)
    ensures
        match r {
            Ok(m) => spec_parse_color(s@) == Some(m),
            Err(e) => spec_parse_color(s@) is None && (e matches Error::InvalidInput(msg) && msg@
                == "Invalid --color value '"@ + spec_norm(s@) + "' (expected auto, always, or never)"@),
        },
{
    let t = norm(s);
    if eq_str(&t, "auto") {
        Ok(ColorMode::Auto)
    } else if eq_str(&t, "always") {
        Ok(ColorMode::Always)
    } else if eq_str(&t, "never") {
        Ok(ColorMode::Never)
    } else {
        let mut m: Vec<char> = Vec::new();
        push_str(&mut m, "Invalid --color value '");
        push_vec(&mut m, &t);
        push_str(&mut m, "' (expected auto, always, or never)");
        Err(Error::InvalidInput(string_of(&m)))
    }
}

impl std::str::FromStr for ColorMode {
    type Err = Error;

    fn from_str(s: &str) -> Result<Self, Error> {
        let v = chars_of(s);
        parse_color(&v)
    }
}

// ---------------------------------------------------------------------------
// ANSI painting
// ---------------------------------------------------------------------------

pub open spec fn spec_paint(text: Seq<char>, code: Seq<char>, enabled: bool) -> Seq<char> {
    if enabled {
        code + text + "\x1b[0m"@
    } else {
        text
    }
}

fn push_paint(out: &mut Vec<char>, text: &str, code: &str, enabled: bool)
    ensures
        final(out)@ == old(out)@ + spec_paint(text@, code@, enabled),
{
    if enabled {
        push_str(out, code);
        push_str(out, text);
        push_str(out, "\x1b[0m");
    } else {
        push_str(out, text);
    }
}

// ---------------------------------------------------------------------------
// pagina.toml config
// ---------------------------------------------------------------------------

/// File-backed defaults. Recognized keys: `gfm` (bool), `color`
/// (`"auto"`/`"always"`/`"never"`). Unknown keys (and unparseable values)
/// are silently ignored.
#[derive(Debug, Clone, Copy, PartialEq, Eq, Structural)]
pub struct Config {
    pub gfm: bool,
    pub color: ColorMode,
}

impl Default for Config {
    fn default() -> (r: Self)
        ensures
            r == (Config { gfm: false, color: ColorMode::Auto }),
    {
        Config { gfm: false, color: ColorMode::Auto }
    }
}

/// Boolean named by a value: `true`/`1`/`yes`/`on` and
/// `false`/`0`/`no`/`off` (trimmed, case-insensitive).
pub open spec fn spec_config_bool(s: Seq<char>) -> Option<bool> {
    let t = spec_norm(s);
    if t == "true"@ || t == "1"@ || t == "yes"@ || t == "on"@ {
        Some(true)
    } else if t == "false"@ || t == "0"@ || t == "no"@ || t == "off"@ {
        Some(false)
    } else {
        None
    }
}

fn parse_config_bool(s: &Vec<char>) -> (r: Option<bool>)
    ensures
        r == spec_config_bool(s@),
{
    let t = norm(s);
    if eq_str(&t, "true") || eq_str(&t, "1") || eq_str(&t, "yes") || eq_str(&t, "on") {
        Some(true)
    } else if eq_str(&t, "false") || eq_str(&t, "0") || eq_str(&t, "no") || eq_str(&t, "off") {
        Some(false)
    } else {
        None
    }
}

/// Index of the first `#` outside single/double quotes, if any.
pub open spec fn comment_start_from(s: Seq<char>, i: int, sq: bool, dq: bool) -> Option<int>
    decreases s.len() - i,
{
    if i < 0 || i >= s.len() {
        None
    } else if s[i] == '\'' && !dq {
        comment_start_from(s, i + 1, !sq, dq)
    } else if s[i] == '"' && !sq {
        comment_start_from(s, i + 1, sq, !dq)
    } else if s[i] == '#' && !sq && !dq {
        Some(i)
    } else {
        comment_start_from(s, i + 1, sq, dq)
    }
}

/// Strip a trailing `#` comment (ignoring `#` inside quotes) and the
/// whitespace before it.
pub open spec fn spec_strip_comment(s: Seq<char>) -> Seq<char> {
    match comment_start_from(s, 0, false, false) {
        Some(i) => crate::text::spec_trim_end(s.take(i), 0),
        None => s,
    }
}

fn strip_config_comment(s: &Vec<char>) -> (r: Vec<char>)
    ensures
        r@ == spec_strip_comment(s@),
{
    let mut in_single = false;
    let mut in_double = false;
    let mut i: usize = 0;
    while i < s.len()
        invariant
            i <= s@.len(),
            comment_start_from(s@, 0, false, false) == comment_start_from(
                s@,
                i as int,
                in_single,
                in_double,
            ),
        decreases s@.len() - i,
    {
        let c = s[i];
        if c == '\'' && !in_double {
            in_single = !in_single;
        } else if c == '"' && !in_single {
            in_double = !in_double;
        } else if c == '#' && !in_single && !in_double {
            let head = slice(s, 0, i);
            assert(head@ =~= s@.take(i as int));
            return trim_end_class(&head, 0);
        }
        i += 1;
    }
    crate::text::copy(s)
}

/// Remove one layer of surrounding single/double quotes (after trimming).
pub open spec fn spec_unquote(s: Seq<char>) -> Seq<char> {
    let t = spec_trim(s, 0);
    if t.len() >= 2 && ((t[0] == '"' && t.last() == '"') || (t[0] == '\'' && t.last() == '\'')) {
        t.subrange(1, t.len() - 1)
    } else {
        t
    }
}

fn unquote_config_value(s: &Vec<char>) -> (r: Vec<char>)
    ensures
        r@ == spec_unquote(s@),
{
    let t = trim(s);
    let n = t.len();
    if n >= 2 {
        let first = t[0];
        let last = t[n - 1];
        if (first == '"' && last == '"') || (first == '\'' && last == '\'') {
            return slice(&t, 1, n - 1);
        }
    }
    t
}

/// Index of the first `=` in a line.
pub open spec fn first_eq(s: Seq<char>, i: int) -> Option<int>
    decreases s.len() - i,
{
    if i < 0 || i >= s.len() {
        None
    } else if s[i] == '=' {
        Some(i)
    } else {
        first_eq(s, i + 1)
    }
}

/// The effect of one config line on a config.
pub open spec fn spec_apply_line(cfg: Config, raw: Seq<char>) -> Config {
    let line = spec_trim(spec_strip_comment(raw), 0);
    if line.len() == 0 || line[0] == '#' || line[0] == ';' || line[0] == '[' {
        cfg
    } else {
        match first_eq(line, 0) {
            None => cfg,
            Some(eq) => {
                let key = spec_norm(line.take(eq));
                let value = spec_unquote(spec_trim(line.skip(eq + 1), 0));
                if key == "gfm"@ {
                    match spec_config_bool(value) {
                        Some(b) => Config { gfm: b, ..cfg },
                        None => cfg,
                    }
                } else if key == "color"@ {
                    match spec_parse_color(value) {
                        Some(m) => Config { color: m, ..cfg },
                        None => cfg,
                    }
                } else {
                    cfg
                }
            },
        }
    }
}

/// The effect of a whole config text: its lines applied in order.
pub open spec fn spec_apply_lines(cfg: Config, lines: Seq<Seq<char>>) -> Config
    decreases lines.len(),
{
    if lines.len() == 0 {
        cfg
    } else {
        spec_apply_line(spec_apply_lines(cfg, lines.drop_last()), lines.last())
    }
}

fn apply_line(cfg: &mut Config, raw: &Vec<char>)
    ensures
        *final(cfg) == spec_apply_line(*old(cfg), raw@),
{
    let stripped = strip_config_comment(raw);
    let line = trim(&stripped);
    if line.len() == 0 || line[0] == '#' || line[0] == ';' || line[0] == '[' {
        return;
    }
    let mut eq: usize = 0;
    while eq < line.len() && line[eq] != '='
        invariant
            eq <= line@.len(),
            first_eq(line@, 0) == first_eq(line@, eq as int),
        decreases line@.len() - eq,
    {
        eq += 1;
    }
    if eq >= line.len() {
        return;
    }
    let key_raw = slice(&line, 0, eq);
    assert(key_raw@ =~= line@.take(eq as int));
    let key = norm(&key_raw);
    let val_raw = slice(&line, eq + 1, line.len());
    assert(val_raw@ =~= line@.skip(eq + 1));
    let val_trim = trim(&val_raw);
    let value = unquote_config_value(&val_trim);
    if eq_str(&key, "gfm") {
        match parse_config_bool(&value) {
            Some(b) => {
                cfg.gfm = b;
            },
            None => {},
        }
    } else if eq_str(&key, "color") {
        match parse_color(&value) {
            Ok(m) => {
                cfg.color = m;
            },
            Err(_) => {},
        }
    }
}

impl Config {
    /// Parse TOML-subset text (`key = value` lines; `[table]` headers and
    /// unknown keys skipped).
    pub fn load_from_str(s: &str) -> (r: Self)
        ensures
            r == spec_apply_lines(Config { gfm: false, color: ColorMode::Auto }, spec_lines(s@)),
    {
        let mut cfg = Config { gfm: false, color: ColorMode::Auto };
        cfg.apply_str(s);
        cfg
    }

    /// Apply config text on top of this config (later settings win).
    pub fn apply_str(&mut self, text: &str)
        ensures
            *final(self) == spec_apply_lines(*old(self), spec_lines(text@)),
    {
        let v = chars_of(text);
        let lines = split_lines(&v);
        let ghost start = *self;
        let mut i: usize = 0;
        while i < lines.len()
            invariant
                i <= lines@.len(),
                lines@.len() == spec_lines(v@).len(),
                forall|k: int| 0 <= k < lines@.len() ==> #[trigger] lines@[k]@ == spec_lines(v@)[k],
                *self == spec_apply_lines(start, spec_lines(v@).take(i as int)),
            decreases lines@.len() - i,
        {
            apply_line(self, &lines[i]);
            assert(spec_lines(v@).take(i + 1).drop_last() =~= spec_lines(v@).take(i as int));
            i += 1;
        }
        assert(spec_lines(v@).take(lines@.len() as int) =~= spec_lines(v@));
    }
}

// ---------------------------------------------------------------------------
// Argument parsing
// ---------------------------------------------------------------------------

/// The views of argument strings.
pub open spec fn arg_views(v: Seq<Vec<char>>) -> Seq<Seq<char>> {
    Seq::new(v.len(), |k: int| v[k]@)
}

/// The arguments from `i` on without `--gfm` flags.
pub open spec fn drop_gfm_from(args: Seq<Seq<char>>, i: int) -> Seq<Seq<char>>
    decreases args.len() - i,
{
    if i < 0 || i >= args.len() {
        Seq::empty()
    } else if args[i] == "--gfm"@ {
        drop_gfm_from(args, i + 1)
    } else {
        seq![args[i]] + drop_gfm_from(args, i + 1)
    }
}

/// Split `--gfm` flags out of positional args (accepted anywhere after the
/// subcommand). Returns the remaining args and whether `--gfm` was seen.
fn split_gfm(args: &Vec<Vec<char>>, from: usize) -> (r: (Vec<Vec<char>>, bool))
    requires
        from <= args.len(),
    ensures
        r.1 == exists|k: int| from <= k < args@.len() && #[trigger] args@[k]@ == "--gfm"@,
        arg_views(r.0@) == drop_gfm_from(arg_views(args@), from as int),
{
    let ghost av = arg_views(args@);
    let mut positionals: Vec<Vec<char>> = Vec::new();
    let mut gfm = false;
    let mut i = from;
    while i < args.len()
        invariant
            from <= i <= args@.len(),
            av == arg_views(args@),
            gfm == exists|k: int| from <= k < i && #[trigger] args@[k]@ == "--gfm"@,
            arg_views(positionals@) + drop_gfm_from(av, i as int) == drop_gfm_from(av, from as int),
        decreases args@.len() - i,
    {
        let ghost before = arg_views(positionals@);
        assert(av[i as int] == args@[i as int]@);
        if eq_str(&args[i], "--gfm") {
            gfm = true;
        } else {
            positionals.push(crate::text::copy(&args[i]));
            assert(arg_views(positionals@) =~= before.push(av[i as int]));
            assert(before + drop_gfm_from(av, i as int) =~= arg_views(positionals@) + drop_gfm_from(
                av,
                i + 1,
            ));
        }
        i += 1;
    }
    assert(arg_views(positionals@) =~= drop_gfm_from(av, from as int));
    (positionals, gfm)
}

/// `--color` handling from argument `i` on: the other arguments and the
/// last color given, or an error kind: 1 for an invalid value, 2 for a
/// missing one (the first error wins).
pub open spec fn split_color_from(args: Seq<Seq<char>>, i: int) -> Result<
    (Seq<Seq<char>>, Option<ColorMode>),
    u8,
>
    decreases args.len() - i,
{
    if i < 0 || i >= args.len() {
        Ok((Seq::empty(), None))
    } else if matches_at(args[i], 0, "--color="@) {
        match spec_parse_color(args[i].skip(8)) {
            None => Err(1),
            Some(m) => match split_color_from(args, i + 1) {
                Ok((r, c)) => Ok((r, if c is Some { c } else { Some(m) })),
                Err(e) => Err(e),
            },
        }
    } else if args[i] == "--color"@ {
        if i + 1 >= args.len() {
            Err(2)
        } else {
            match spec_parse_color(args[i + 1]) {
                None => Err(1),
                Some(m) => match split_color_from(args, i + 2) {
                    Ok((r, c)) => Ok((r, if c is Some { c } else { Some(m) })),
                    Err(e) => Err(e),
                },
            }
        }
    } else {
        match split_color_from(args, i + 1) {
            Ok((r, c)) => Ok((seq![args[i]] + r, c)),
            Err(e) => Err(e),
        }
    }
}

/// Prefix `done` (with color `color` so far) joined to the result for the
/// remaining arguments.
pub open spec fn join_color(
    done: Seq<Seq<char>>,
    color: Option<ColorMode>,
    tail: Result<(Seq<Seq<char>>, Option<ColorMode>), u8>,
) -> Result<(Seq<Seq<char>>, Option<ColorMode>), u8> {
    match tail {
        Ok((r, c)) => Ok((done + r, if c is Some { c } else { color })),
        Err(e) => Err(e),
    }
}

/// Pull `--color=<v>` / `--color <v>` out of an arg list. Returns the
/// remaining args plus the last `--color` value seen; an invalid value is
/// `InvalidInput`, a missing one `MissingArgument`.
fn split_color(args: &Vec<Vec<char>>) -> (r: Result<(Vec<Vec<char>>, Option<ColorMode>), Error>)
    ensures
        match r {
            Ok((rest, c)) => split_color_from(arg_views(args@), 0) == Ok::<
                (Seq<Seq<char>>, Option<ColorMode>),
                u8,
            >((arg_views(rest@), c)),
            Err(e) => (split_color_from(arg_views(args@), 0) == Err::<
                (Seq<Seq<char>>, Option<ColorMode>),
                u8,
            >(1u8) && e is InvalidInput) || (split_color_from(arg_views(args@), 0) == Err::<
                (Seq<Seq<char>>, Option<ColorMode>),
                u8,
            >(2u8) && e is MissingArgument),
        },
{
    let ghost av = arg_views(args@);
    let mut rest: Vec<Vec<char>> = Vec::new();
    let mut color: Option<ColorMode> = None;
    let mut i: usize = 0;
    proof {
        reveal_strlit("--color=");
        assert(arg_views(rest@) =~= Seq::<Seq<char>>::empty());
        assert(join_color(Seq::empty(), None, split_color_from(av, 0)) =~= split_color_from(av, 0))
            by {
            match split_color_from(av, 0) {
                Ok((r, c)) => {
                    assert(Seq::<Seq<char>>::empty() + r =~= r);
                },
                Err(e) => {},
            }
        }
    }
    while i < args.len()
        invariant
            i <= args@.len(),
            av == arg_views(args@),
            join_color(arg_views(rest@), color, split_color_from(av, i as int)) == split_color_from(
                av,
                0,
            ),
        decreases args@.len() - i,
    {
        let a = &args[i];
        assert(av[i as int] == a@);
        if starts_with_at(a, 0, "--color=") {
            let value = slice(a, 8, a.len());
            assert(value@ =~= a@.skip(8));
            match parse_color(&value) {
                Ok(m) => {
                    color = Some(m);
                },
                Err(e) => {
                    return Err(e);
                },
            }
        } else if eq_str(a, "--color") {
            i += 1;
            if i >= args.len() {
                let mut m: Vec<char> = Vec::new();
                push_str(&mut m, "--color requires a value (auto, always, or never)");
                return Err(Error::MissingArgument(string_of(&m)));
            }
            assert(av[i as int] == args@[i as int]@);
            match parse_color(&args[i]) {
                Ok(m) => {
                    color = Some(m);
                },
                Err(e) => {
                    return Err(e);
                },
            }
        } else {
            let ghost before = arg_views(rest@);
            rest.push(crate::text::copy(a));
            proof {
                assert(arg_views(rest@) =~= before.push(a@));
                match split_color_from(av, i + 1) {
                    Ok((r, c)) => {
                        assert(before + (seq![a@] + r) =~= arg_views(rest@) + r);
                    },
                    Err(e) => {},
                }
            }
        }
        i += 1;
    }
    proof {
        assert(arg_views(rest@) + Seq::<Seq<char>>::empty() =~= arg_views(rest@));
    }
    Ok((rest, color))
}

/// The first parseable `--color=<v>` / `--color <v>` value from argument
/// `i` on.
pub open spec fn sniff_from(args: Seq<Seq<char>>, i: int) -> Option<ColorMode>
    decreases args.len() - i,
{
    if i < 0 || i >= args.len() {
        None
    } else if matches_at(args[i], 0, "--color="@) && spec_parse_color(args[i].skip(8)) is Some {
        spec_parse_color(args[i].skip(8))
    } else if !matches_at(args[i], 0, "--color="@) && args[i] == "--color"@ && i + 1 < args.len()
        && spec_parse_color(args[i + 1]) is Some {
        spec_parse_color(args[i + 1])
    } else {
        sniff_from(args, i + 1)
    }
}

/// Best-effort `--color` sniff for the error path: the first parseable
/// `--color=<v>` / `--color <v>` value. Never errors: without one it
/// falls back to `Auto`.
pub fn sniff_color(argv: &[String]) -> (r: ColorMode)
    ensures
        r == or_color(sniff_from(string_views(argv@), 0), ColorMode::Auto),
{
    let ghost av = string_views(argv@);
    let mut i: usize = 0;
    proof {
        reveal_strlit("--color=");
    }
    while i < argv.len()
        invariant
            i <= argv@.len(),
            av == string_views(argv@),
            sniff_from(av, i as int) == sniff_from(av, 0),
        decreases argv@.len() - i,
    {
        let a = chars_of(argv[i].as_str());
        assert(av[i as int] == a@);
        if starts_with_at(&a, 0, "--color=") {
            proof {
                reveal_strlit("--color=");
            }
            let value = slice(&a, 8, a.len());
            assert(value@ =~= a@.skip(8));
            match parse_color(&value) {
                Ok(m) => {
                    return m;
                },
                Err(_) => {},
            }
        } else if eq_str(&a, "--color") {
            if i + 1 < argv.len() {
                let v = chars_of(argv[i + 1].as_str());
                assert(av[i + 1] == v@);
                match parse_color(&v) {
                    Ok(m) => {
                        return m;
                    },
                    Err(_) => {},
                }
            }
        }
        i += 1;
    }
    ColorMode::Auto
}

/// The views of argument strings.
pub open spec fn string_views(v: Seq<String>) -> Seq<Seq<char>> {
    Seq::new(v.len(), |k: int| v[k]@)
}

pub open spec fn or_color(c: Option<ColorMode>, d: ColorMode) -> ColorMode {
    match c {
        Some(m) => m,
        None => d,
    }
}

pub open spec fn is_help_word(a: Seq<char>) -> bool {
    a == "--help"@ || a == "-h"@ || a == "help"@
}

pub open spec fn is_version_word(a: Seq<char>) -> bool {
    a == "--version"@ || a == "-v"@ || a == "version"@
}

/// An error of the kind that `--color` handling reports.
pub open spec fn color_error(kind: u8, r: Result<CliArgs, Error>) -> bool {
    if kind == 1 {
        r matches Err(e) && e is InvalidInput
    } else {
        r matches Err(e) && e is MissingArgument
    }
}

/// The result for the arguments left after the global `--color` handling
/// (`nc`, program name first) with the global color `gc`.
pub open spec fn spec_args_result(
    nc: Seq<Seq<char>>,
    gc: Option<ColorMode>,
    config: Config,
    r: Result<CliArgs, Error>,
) -> bool {
    if nc.len() < 2 {
        r matches Ok(a) && a.subcommand is Help && a.color == or_color(gc, config.color)
    } else {
        let first = nc[1];
        if first == "to-html"@ || first == "to-md"@ {
            let pos = drop_gfm_from(nc, 2);
            let g = exists|k: int| 2 <= k < nc.len() && #[trigger] nc[k] == "--gfm"@;
            match split_color_from(pos, 0) {
                Err(kind) => color_error(kind, r),
                Ok((p2, lc)) => {
                    let color = or_color(if lc is Some { lc } else { gc }, config.color);
                    if p2.len() < 2 {
                        r matches Err(e) && e is MissingArgument && e->MissingArgument_0@ == (if first
                            == "to-html"@ {
                            "to-html requires <input.md> <output.html> (use '-' for stdin/stdout)"@
                        } else {
                            "to-md requires <input.html> <output.md> (use '-' for stdin/stdout)"@
                        })
                    } else if first == "to-html"@ {
                        r matches Ok(a) && a.color == color && (a.subcommand matches Subcommand::ToHtml {
                            input,
                            output,
                            gfm,
                        } && input@ == p2[0] && output@ == p2[1] && gfm == (g || config.gfm))
                    } else {
                        r matches Ok(a) && a.color == color && (a.subcommand matches Subcommand::ToMd {
                            input,
                            output,
                            gfm,
                        } && input@ == p2[0] && output@ == p2[1] && gfm == (g || config.gfm))
                    }
                },
            }
        } else if is_help_word(first) {
            r matches Ok(a) && a.subcommand is Help && a.color == or_color(gc, config.color)
        } else if is_version_word(first) {
            r matches Ok(a) && a.subcommand is Version && a.color == or_color(gc, config.color)
        } else {
            r matches Err(e) && e is InvalidSubcommand && e->InvalidSubcommand_0@ == first
        }
    }
}

fn string_error_missing(text: &str) -> (e: Error)
    ensures
        e is MissingArgument,
        e->MissingArgument_0@ == text@,
{
    let mut m: Vec<char> = Vec::new();
    push_str(&mut m, text);
    Error::MissingArgument(string_of(&m))
}

/// Parse `argv` (including the program name at index 0) with an explicit
/// config.
///
/// With fewer than two arguments the result is help. `--color` may appear
/// before or after the subcommand (the last one wins, a later one after
/// the subcommand over an earlier one); `--gfm` anywhere after it.
/// `to-html` and `to-md` need two positionals (input, output);
/// `--help`/`-h`/`help` and `--version`/`-v`/`version` select help and
/// version; anything else is `InvalidSubcommand`. The color is the command
/// line's when given, else the config's; `gfm` is the flag or the config's
/// `gfm`.
pub fn parse_args_from_with_config(argv: &[String], config: &Config) -> (r: Result<CliArgs, Error>)
    ensures
        argv@.len() < 2 ==> (r matches Ok(a) && a.subcommand is Help && a.color == config.color),
        argv@.len() >= 2 ==> match split_color_from(string_views(argv@), 0) {
            Err(kind) => color_error(kind, r),
            Ok((nc, gc)) => spec_args_result(nc, gc, *config, r),
        },
{
    if argv.len() < 2 {
        return Ok(CliArgs { subcommand: Subcommand::Help, color: config.color });
    }
    let mut all: Vec<Vec<char>> = Vec::new();
    let mut k: usize = 0;
    while k < argv.len()
        invariant
            k <= argv@.len(),
            all@.len() == k,
            forall|q: int| 0 <= q < k ==> #[trigger] all@[q]@ == argv@[q]@,
        decreases argv@.len() - k,
    {
        all.push(chars_of(argv[k].as_str()));
        k += 1;
    }
    assert(arg_views(all@) =~= string_views(argv@));
    let (no_color, global_color) = match split_color(&all) {
        Ok(p) => p,
        Err(e) => {
            return Err(e);
        },
    };
    let ghost nc = arg_views(no_color@);
    if no_color.len() < 2 {
        let color = match global_color {
            Some(c) => c,
            None => config.color,
        };
        return Ok(CliArgs { subcommand: Subcommand::Help, color });
    }
    let first = &no_color[1];
    assert(nc[1] == first@);
    let is_html = eq_str(first, "to-html");
    let is_md = eq_str(first, "to-md");
    if is_html || is_md {
        let (positionals0, cli_gfm) = split_gfm(&no_color, 2);
        assert(cli_gfm == exists|q: int| 2 <= q < nc.len() && #[trigger] nc[q] == "--gfm"@) by {
            if cli_gfm {
                let q = choose|q: int| 2 <= q < no_color@.len() && #[trigger] no_color@[q]@ == "--gfm"@;
                assert(nc[q] == no_color@[q]@);
            }
            if exists|q: int| 2 <= q < nc.len() && #[trigger] nc[q] == "--gfm"@ {
                let q = choose|q: int| 2 <= q < nc.len() && #[trigger] nc[q] == "--gfm"@;
                assert(nc[q] == no_color@[q]@);
            }
        }
        let (positionals, local_color) = match split_color(&positionals0) {
            Ok(p) => p,
            Err(e) => {
                return Err(e);
            },
        };
        let color_opt = match local_color {
            Some(c) => Some(c),
            None => global_color,
        };
        let color = match color_opt {
            Some(c) => c,
            None => config.color,
        };
        if positionals.len() < 2 {
            if is_html {
                return Err(
                    string_error_missing(
                        "to-html requires <input.md> <output.html> (use '-' for stdin/stdout)",
                    ),
                );
            } else {
                return Err(
                    string_error_missing(
                        "to-md requires <input.html> <output.md> (use '-' for stdin/stdout)",
                    ),
                );
            }
        }
        let ghost p2 = arg_views(positionals@);
        assert(p2[0] == positionals@[0]@ && p2[1] == positionals@[1]@);
        let input = string_of(&positionals[0]);
        let output = string_of(&positionals[1]);
        let gfm = cli_gfm || config.gfm;
        if is_html {
            return Ok(CliArgs { subcommand: Subcommand::ToHtml { input, output, gfm }, color });
        } else {
            return Ok(CliArgs { subcommand: Subcommand::ToMd { input, output, gfm }, color });
        }
    }
    let color = match global_color {
        Some(c) => c,
        None => config.color,
    };
    if eq_str(first, "--help") || eq_str(first, "-h") || eq_str(first, "help") {
        return Ok(CliArgs { subcommand: Subcommand::Help, color });
    }
    if eq_str(first, "--version") || eq_str(first, "-v") || eq_str(first, "version") {
        return Ok(CliArgs { subcommand: Subcommand::Version, color });
    }
    Err(Error::InvalidSubcommand(string_of(first)))
}

// ---------------------------------------------------------------------------
// Help and error text (colors for headings only)
// ---------------------------------------------------------------------------

/// Some character of `s` is the escape character.
pub open spec fn holds_esc(s: Seq<char>) -> bool {
    exists|i: int| 0 <= i < s.len() && #[trigger] s[i] == '\x1b'
}

/// `p` stands in `s`.
pub open spec fn has_part(s: Seq<char>, p: Seq<char>) -> bool {
    exists|i: int| 0 <= i && i + p.len() <= s.len() && #[trigger] s.subrange(i, i + p.len()) == p
}

proof fn lemma_esc_concat(a: Seq<char>, b: Seq<char>)
    ensures
        holds_esc(a + b) == (holds_esc(a) || holds_esc(b)),
{
    if holds_esc(a) {
        let i = choose|i: int| 0 <= i < a.len() && #[trigger] a[i] == '\x1b';
        assert((a + b)[i] == a[i]);
    }
    if holds_esc(b) {
        let i = choose|i: int| 0 <= i < b.len() && #[trigger] b[i] == '\x1b';
        assert((a + b)[a.len() + i] == b[i]);
    }
    if holds_esc(a + b) {
        let i = choose|i: int| 0 <= i < (a + b).len() && #[trigger] (a + b)[i] == '\x1b';
        if i < a.len() {
            assert(a[i] == (a + b)[i]);
        } else {
            assert(b[i - a.len()] == (a + b)[i]);
        }
    }
}

proof fn lemma_part_concat(a: Seq<char>, b: Seq<char>, p: Seq<char>)
    ensures
        has_part(a, p) ==> has_part(a + b, p),
        has_part(b, p) ==> has_part(a + b, p),
{
    if has_part(a, p) {
        let i = choose|i: int| 0 <= i && i + p.len() <= a.len() && #[trigger] a.subrange(i, i + p.len()) == p;
        assert((a + b).subrange(i, i + p.len()) =~= a.subrange(i, i + p.len()));
    }
    if has_part(b, p) {
        let i = choose|i: int| 0 <= i && i + p.len() <= b.len() && #[trigger] b.subrange(i, i + p.len()) == p;
        assert((a + b).subrange(a.len() + i, a.len() + i + p.len()) =~= b.subrange(i, i + p.len()));
    }
}

proof fn lemma_paint_esc(text: Seq<char>, enabled: bool)
    requires
        !holds_esc(text),
    ensures
        holds_esc(spec_paint(text, "\x1b[1m"@, enabled)) == enabled,
        has_part(spec_paint(text, "\x1b[1m"@, enabled), text),
{
    reveal_strlit("\x1b[1m");
    reveal_strlit("\x1b[0m");
    let x = spec_paint(text, "\x1b[1m"@, enabled);
    if enabled {
        let c = "\x1b[1m"@;
        assert(c[0] == '\x1b');
        lemma_esc_concat(c, text);
        lemma_esc_concat(c + text, "\x1b[0m"@);
        let i = c.len() as int;
        assert(x.subrange(i, i + text.len()) =~= text);
    } else {
        let i = 0int;
        assert(x.subrange(i, i + text.len()) =~= text);
    }
}

/// The help text, with headings painted bold when `enabled`.
pub open spec fn spec_help_text(enabled: bool) -> Seq<char> {
    spec_paint("pagina - Markdown/HTML bidirectional converter"@, "\x1b[1m"@, enabled)
        + "\n\n"@
        + spec_paint("USAGE:"@, "\x1b[1m"@, enabled)
        + "\n    pagina [--color=auto|always|never] to-html [--gfm] <input.md> <output.html>\n"@
        + "    pagina [--color=auto|always|never] to-md [--gfm] <input.html> <output.md>\n"@
        + "\n"@
        + "    Use '-' as input to read from stdin, or as output to write to stdout.\n"@
        + "\n"@
        + spec_paint("EXAMPLES:"@, "\x1b[1m"@, enabled)
        + "\n    pagina to-html README.md README.html\n"@
        + "    pagina to-html --gfm notes.md notes.html\n"@
        + "    cat file.md | pagina to-html - output.html\n"@
        + "    pagina to-html file.md -\n"@
        + "\n"@
        + spec_paint("SUBCOMMANDS:"@, "\x1b[1m"@, enabled)
        + "\n    to-html    Convert Markdown to HTML\n"@
        + "    to-md      Convert HTML to Markdown\n"@
        + "\n"@
        + spec_paint("OPTIONS:"@, "\x1b[1m"@, enabled)
        + "\n    --gfm          Enable GFM extensions (task lists, strikethrough, bare autolinks, footnotes, deflists, math).\n"@
        + "                   Pipe tables render with or without --gfm (spec-neutral exception).\n"@
        + "    --color=WHEN   Colorize help and error messages: auto (default, TTY only), always, never.\n"@
        + "                   May also be set with `color` in pagina.toml; --color overrides the file.\n"@
        + "    -h, --help     Print help information\n"@
        + "    -v, --version  Print version information\n"@
        + "\n"@
        + spec_paint("CONFIG:"@, "\x1b[1m"@, enabled)
        + "\n    ./pagina.toml, then ~/.config/pagina/config.toml (former wins). Keys: gfm (bool),\n"@
        + "    color (auto|always|never). CLI flags override the file; unknown keys are ignored.\n"@
        + "\n"@
        + "Note: output preserves raw HTML and javascript:/data: URLs per CommonMark — sanitize before browser/email rendering.\n"@
}

/// The help text uses escape codes exactly when colors are on, and it
/// always names the usage, the `--color=` option and the configuration
/// file.
pub proof fn law_help_text(color: ColorMode, stdout_tty: bool)
    ensures
        holds_esc(spec_help_text(spec_use_color(color, stdout_tty))) == spec_use_color(color, stdout_tty),
        has_part(spec_help_text(spec_use_color(color, stdout_tty)), "USAGE:"@),
        has_part(spec_help_text(spec_use_color(color, stdout_tty)), "--color="@),
        has_part(spec_help_text(spec_use_color(color, stdout_tty)), "pagina.toml"@),
{
    let enabled = spec_use_color(color, stdout_tty);
    reveal_strlit("USAGE:");
    reveal_strlit("--color=");
    reveal_strlit("pagina.toml");
    reveal_strlit("pagina - Markdown/HTML bidirectional converter");
    assert(!holds_esc("pagina - Markdown/HTML bidirectional converter"@));
    reveal_strlit("\n\n");
    assert(!holds_esc("\n\n"@));
    reveal_strlit("USAGE:");
    assert(!holds_esc("USAGE:"@));
    reveal_strlit("\n    pagina [--color=auto|always|never] to-html [--gfm] <input.md> <output.html>\n");
    assert(!holds_esc("\n    pagina [--color=auto|always|never] to-html [--gfm] <input.md> <output.html>\n"@));
    reveal_strlit("    pagina [--color=auto|always|never] to-md [--gfm] <input.html> <output.md>\n");
    assert(!holds_esc("    pagina [--color=auto|always|never] to-md [--gfm] <input.html> <output.md>\n"@));
    reveal_strlit("\n");
    assert(!holds_esc("\n"@));
    reveal_strlit("    Use '-' as input to read from stdin, or as output to write to stdout.\n");
    assert(!holds_esc("    Use '-' as input to read from stdin, or as output to write to stdout.\n"@));
    reveal_strlit("EXAMPLES:");
    assert(!holds_esc("EXAMPLES:"@));
    reveal_strlit("\n    pagina to-html README.md README.html\n");
    assert(!holds_esc("\n    pagina to-html README.md README.html\n"@));
    reveal_strlit("    pagina to-html --gfm notes.md notes.html\n");
    assert(!holds_esc("    pagina to-html --gfm notes.md notes.html\n"@));
    reveal_strlit("    cat file.md | pagina to-html - output.html\n");
    assert(!holds_esc("    cat file.md | pagina to-html - output.html\n"@));
    reveal_strlit("    pagina to-html file.md -\n");
    assert(!holds_esc("    pagina to-html file.md -\n"@));
    reveal_strlit("SUBCOMMANDS:");
    assert(!holds_esc("SUBCOMMANDS:"@));
    reveal_strlit("\n    to-html    Convert Markdown to HTML\n");
    assert(!holds_esc("\n    to-html    Convert Markdown to HTML\n"@));
    reveal_strlit("    to-md      Convert HTML to Markdown\n");
    assert(!holds_esc("    to-md      Convert HTML to Markdown\n"@));
    reveal_strlit("OPTIONS:");
    assert(!holds_esc("OPTIONS:"@));
    reveal_strlit("\n    --gfm          Enable GFM extensions (task lists, strikethrough, bare autolinks, footnotes, deflists, math).\n");
    assert(!holds_esc("\n    --gfm          Enable GFM extensions (task lists, strikethrough, bare autolinks, footnotes, deflists, math).\n"@));
    reveal_strlit("                   Pipe tables render with or without --gfm (spec-neutral exception).\n");
    assert(!holds_esc("                   Pipe tables render with or without --gfm (spec-neutral exception).\n"@));
    reveal_strlit("    --color=WHEN   Colorize help and error messages: auto (default, TTY only), always, never.\n");
    assert(!holds_esc("    --color=WHEN   Colorize help and error messages: auto (default, TTY only), always, never.\n"@));
    reveal_strlit("                   May also be set with `color` in pagina.toml; --color overrides the file.\n");
    assert(!holds_esc("                   May also be set with `color` in pagina.toml; --color overrides the file.\n"@));
    reveal_strlit("    -h, --help     Print help information\n");
    assert(!holds_esc("    -h, --help     Print help information\n"@));
    reveal_strlit("    -v, --version  Print version information\n");
    assert(!holds_esc("    -v, --version  Print version information\n"@));
    reveal_strlit("CONFIG:");
    assert(!holds_esc("CONFIG:"@));
    reveal_strlit("\n    ./pagina.toml, then ~/.config/pagina/config.toml (former wins). Keys: gfm (bool),\n");
    assert(!holds_esc("\n    ./pagina.toml, then ~/.config/pagina/config.toml (former wins). Keys: gfm (bool),\n"@));
    reveal_strlit("    color (auto|always|never). CLI flags override the file; unknown keys are ignored.\n");
    assert(!holds_esc("    color (auto|always|never). CLI flags override the file; unknown keys are ignored.\n"@));
    reveal_strlit("Note: output preserves raw HTML and javascript:/data: URLs per CommonMark — sanitize before browser/email rendering.\n");
    assert(!holds_esc("Note: output preserves raw HTML and javascript:/data: URLs per CommonMark — sanitize before browser/email rendering.\n"@));
    assert("\n    pagina [--color=auto|always|never] to-html [--gfm] <input.md> <output.html>\n"@.subrange(13int, 13int + "--color="@.len()) =~= "--color="@);
    assert(has_part("\n    pagina [--color=auto|always|never] to-html [--gfm] <input.md> <output.html>\n"@, "--color="@));
    assert("                   May also be set with `color` in pagina.toml; --color overrides the file.\n"@.subrange(51int, 51int + "pagina.toml"@.len()) =~= "pagina.toml"@);
    assert(has_part("                   May also be set with `color` in pagina.toml; --color overrides the file.\n"@, "pagina.toml"@));
    lemma_paint_esc("pagina - Markdown/HTML bidirectional converter"@, enabled);
    lemma_paint_esc("USAGE:"@, enabled);
    lemma_paint_esc("EXAMPLES:"@, enabled);
    lemma_paint_esc("SUBCOMMANDS:"@, enabled);
    lemma_paint_esc("OPTIONS:"@, enabled);
    lemma_paint_esc("CONFIG:"@, enabled);
    let a0 = spec_paint("pagina - Markdown/HTML bidirectional converter"@, "\x1b[1m"@, enabled);
    lemma_esc_concat(a0, "\n\n"@);
    lemma_part_concat(a0, "\n\n"@, "USAGE:"@);
    lemma_part_concat(a0, "\n\n"@, "--color="@);
    lemma_part_concat(a0, "\n\n"@, "pagina.toml"@);
    let a1 = a0 + "\n\n"@;
    lemma_esc_concat(a1, spec_paint("USAGE:"@, "\x1b[1m"@, enabled));
    lemma_part_concat(a1, spec_paint("USAGE:"@, "\x1b[1m"@, enabled), "USAGE:"@);
    lemma_part_concat(a1, spec_paint("USAGE:"@, "\x1b[1m"@, enabled), "--color="@);
    lemma_part_concat(a1, spec_paint("USAGE:"@, "\x1b[1m"@, enabled), "pagina.toml"@);
    let a2 = a1 + spec_paint("USAGE:"@, "\x1b[1m"@, enabled);
    lemma_esc_concat(a2, "\n    pagina [--color=auto|always|never] to-html [--gfm] <input.md> <output.html>\n"@);
    lemma_part_concat(a2, "\n    pagina [--color=auto|always|never] to-html [--gfm] <input.md> <output.html>\n"@, "USAGE:"@);
    lemma_part_concat(a2, "\n    pagina [--color=auto|always|never] to-html [--gfm] <input.md> <output.html>\n"@, "--color="@);
    lemma_part_concat(a2, "\n    pagina [--color=auto|always|never] to-html [--gfm] <input.md> <output.html>\n"@, "pagina.toml"@);
    let a3 = a2 + "\n    pagina [--color=auto|always|never] to-html [--gfm] <input.md> <output.html>\n"@;
    lemma_esc_concat(a3, "    pagina [--color=auto|always|never] to-md [--gfm] <input.html> <output.md>\n"@);
    lemma_part_concat(a3, "    pagina [--color=auto|always|never] to-md [--gfm] <input.html> <output.md>\n"@, "USAGE:"@);
    lemma_part_concat(a3, "    pagina [--color=auto|always|never] to-md [--gfm] <input.html> <output.md>\n"@, "--color="@);
    lemma_part_concat(a3, "    pagina [--color=auto|always|never] to-md [--gfm] <input.html> <output.md>\n"@, "pagina.toml"@);
    let a4 = a3 + "    pagina [--color=auto|always|never] to-md [--gfm] <input.html> <output.md>\n"@;
    lemma_esc_concat(a4, "\n"@);
    lemma_part_concat(a4, "\n"@, "USAGE:"@);
    lemma_part_concat(a4, "\n"@, "--color="@);
    lemma_part_concat(a4, "\n"@, "pagina.toml"@);
    let a5 = a4 + "\n"@;
    lemma_esc_concat(a5, "    Use '-' as input to read from stdin, or as output to write to stdout.\n"@);
    lemma_part_concat(a5, "    Use '-' as input to read from stdin, or as output to write to stdout.\n"@, "USAGE:"@);
    lemma_part_concat(a5, "    Use '-' as input to read from stdin, or as output to write to stdout.\n"@, "--color="@);
    lemma_part_concat(a5, "    Use '-' as input to read from stdin, or as output to write to stdout.\n"@, "pagina.toml"@);
    let a6 = a5 + "    Use '-' as input to read from stdin, or as output to write to stdout.\n"@;
    lemma_esc_concat(a6, "\n"@);
    lemma_part_concat(a6, "\n"@, "USAGE:"@);
    lemma_part_concat(a6, "\n"@, "--color="@);
    lemma_part_concat(a6, "\n"@, "pagina.toml"@);
    let a7 = a6 + "\n"@;
    lemma_esc_concat(a7, spec_paint("EXAMPLES:"@, "\x1b[1m"@, enabled));
    lemma_part_concat(a7, spec_paint("EXAMPLES:"@, "\x1b[1m"@, enabled), "USAGE:"@);
    lemma_part_concat(a7, spec_paint("EXAMPLES:"@, "\x1b[1m"@, enabled), "--color="@);
    lemma_part_concat(a7, spec_paint("EXAMPLES:"@, "\x1b[1m"@, enabled), "pagina.toml"@);
    let a8 = a7 + spec_paint("EXAMPLES:"@, "\x1b[1m"@, enabled);
    lemma_esc_concat(a8, "\n    pagina to-html README.md README.html\n"@);
    lemma_part_concat(a8, "\n    pagina to-html README.md README.html\n"@, "USAGE:"@);
    lemma_part_concat(a8, "\n    pagina to-html README.md README.html\n"@, "--color="@);
    lemma_part_concat(a8, "\n    pagina to-html README.md README.html\n"@, "pagina.toml"@);
    let a9 = a8 + "\n    pagina to-html README.md README.html\n"@;
    lemma_esc_concat(a9, "    pagina to-html --gfm notes.md notes.html\n"@);
    lemma_part_concat(a9, "    pagina to-html --gfm notes.md notes.html\n"@, "USAGE:"@);
    lemma_part_concat(a9, "    pagina to-html --gfm notes.md notes.html\n"@, "--color="@);
    lemma_part_concat(a9, "    pagina to-html --gfm notes.md notes.html\n"@, "pagina.toml"@);
    let a10 = a9 + "    pagina to-html --gfm notes.md notes.html\n"@;
    lemma_esc_concat(a10, "    cat file.md | pagina to-html - output.html\n"@);
    lemma_part_concat(a10, "    cat file.md | pagina to-html - output.html\n"@, "USAGE:"@);
    lemma_part_concat(a10, "    cat file.md | pagina to-html - output.html\n"@, "--color="@);
    lemma_part_concat(a10, "    cat file.md | pagina to-html - output.html\n"@, "pagina.toml"@);
    let a11 = a10 + "    cat file.md | pagina to-html - output.html\n"@;
    lemma_esc_concat(a11, "    pagina to-html file.md -\n"@);
    lemma_part_concat(a11, "    pagina to-html file.md -\n"@, "USAGE:"@);
    lemma_part_concat(a11, "    pagina to-html file.md -\n"@, "--color="@);
    lemma_part_concat(a11, "    pagina to-html file.md -\n"@, "pagina.toml"@);
    let a12 = a11 + "    pagina to-html file.md -\n"@;
    lemma_esc_concat(a12, "\n"@);
    lemma_part_concat(a12, "\n"@, "USAGE:"@);
    lemma_part_concat(a12, "\n"@, "--color="@);
    lemma_part_concat(a12, "\n"@, "pagina.toml"@);
    let a13 = a12 + "\n"@;
    lemma_esc_concat(a13, spec_paint("SUBCOMMANDS:"@, "\x1b[1m"@, enabled));
    lemma_part_concat(a13, spec_paint("SUBCOMMANDS:"@, "\x1b[1m"@, enabled), "USAGE:"@);
    lemma_part_concat(a13, spec_paint("SUBCOMMANDS:"@, "\x1b[1m"@, enabled), "--color="@);
    lemma_part_concat(a13, spec_paint("SUBCOMMANDS:"@, "\x1b[1m"@, enabled), "pagina.toml"@);
    let a14 = a13 + spec_paint("SUBCOMMANDS:"@, "\x1b[1m"@, enabled);
    lemma_esc_concat(a14, "\n    to-html    Convert Markdown to HTML\n"@);
    lemma_part_concat(a14, "\n    to-html    Convert Markdown to HTML\n"@, "USAGE:"@);
    lemma_part_concat(a14, "\n    to-html    Convert Markdown to HTML\n"@, "--color="@);
    lemma_part_concat(a14, "\n    to-html    Convert Markdown to HTML\n"@, "pagina.toml"@);
    let a15 = a14 + "\n    to-html    Convert Markdown to HTML\n"@;
    lemma_esc_concat(a15, "    to-md      Convert HTML to Markdown\n"@);
    lemma_part_concat(a15, "    to-md      Convert HTML to Markdown\n"@, "USAGE:"@);
    lemma_part_concat(a15, "    to-md      Convert HTML to Markdown\n"@, "--color="@);
    lemma_part_concat(a15, "    to-md      Convert HTML to Markdown\n"@, "pagina.toml"@);
    let a16 = a15 + "    to-md      Convert HTML to Markdown\n"@;
    lemma_esc_concat(a16, "\n"@);
    lemma_part_concat(a16, "\n"@, "USAGE:"@);
    lemma_part_concat(a16, "\n"@, "--color="@);
    lemma_part_concat(a16, "\n"@, "pagina.toml"@);
    let a17 = a16 + "\n"@;
    lemma_esc_concat(a17, spec_paint("OPTIONS:"@, "\x1b[1m"@, enabled));
    lemma_part_concat(a17, spec_paint("OPTIONS:"@, "\x1b[1m"@, enabled), "USAGE:"@);
    lemma_part_concat(a17, spec_paint("OPTIONS:"@, "\x1b[1m"@, enabled), "--color="@);
    lemma_part_concat(a17, spec_paint("OPTIONS:"@, "\x1b[1m"@, enabled), "pagina.toml"@);
    let a18 = a17 + spec_paint("OPTIONS:"@, "\x1b[1m"@, enabled);
    lemma_esc_concat(a18, "\n    --gfm          Enable GFM extensions (task lists, strikethrough, bare autolinks, footnotes, deflists, math).\n"@);
    lemma_part_concat(a18, "\n    --gfm          Enable GFM extensions (task lists, strikethrough, bare autolinks, footnotes, deflists, math).\n"@, "USAGE:"@);
    lemma_part_concat(a18, "\n    --gfm          Enable GFM extensions (task lists, strikethrough, bare autolinks, footnotes, deflists, math).\n"@, "--color="@);
    lemma_part_concat(a18, "\n    --gfm          Enable GFM extensions (task lists, strikethrough, bare autolinks, footnotes, deflists, math).\n"@, "pagina.toml"@);
    let a19 = a18 + "\n    --gfm          Enable GFM extensions (task lists, strikethrough, bare autolinks, footnotes, deflists, math).\n"@;
    lemma_esc_concat(a19, "                   Pipe tables render with or without --gfm (spec-neutral exception).\n"@);
    lemma_part_concat(a19, "                   Pipe tables render with or without --gfm (spec-neutral exception).\n"@, "USAGE:"@);
    lemma_part_concat(a19, "                   Pipe tables render with or without --gfm (spec-neutral exception).\n"@, "--color="@);
    lemma_part_concat(a19, "                   Pipe tables render with or without --gfm (spec-neutral exception).\n"@, "pagina.toml"@);
    let a20 = a19 + "                   Pipe tables render with or without --gfm (spec-neutral exception).\n"@;
    lemma_esc_concat(a20, "    --color=WHEN   Colorize help and error messages: auto (default, TTY only), always, never.\n"@);
    lemma_part_concat(a20, "    --color=WHEN   Colorize help and error messages: auto (default, TTY only), always, never.\n"@, "USAGE:"@);
    lemma_part_concat(a20, "    --color=WHEN   Colorize help and error messages: auto (default, TTY only), always, never.\n"@, "--color="@);
    lemma_part_concat(a20, "    --color=WHEN   Colorize help and error messages: auto (default, TTY only), always, never.\n"@, "pagina.toml"@);
    let a21 = a20 + "    --color=WHEN   Colorize help and error messages: auto (default, TTY only), always, never.\n"@;
    lemma_esc_concat(a21, "                   May also be set with `color` in pagina.toml; --color overrides the file.\n"@);
    lemma_part_concat(a21, "                   May also be set with `color` in pagina.toml; --color overrides the file.\n"@, "USAGE:"@);
    lemma_part_concat(a21, "                   May also be set with `color` in pagina.toml; --color overrides the file.\n"@, "--color="@);
    lemma_part_concat(a21, "                   May also be set with `color` in pagina.toml; --color overrides the file.\n"@, "pagina.toml"@);
    let a22 = a21 + "                   May also be set with `color` in pagina.toml; --color overrides the file.\n"@;
    lemma_esc_concat(a22, "    -h, --help     Print help information\n"@);
    lemma_part_concat(a22, "    -h, --help     Print help information\n"@, "USAGE:"@);
    lemma_part_concat(a22, "    -h, --help     Print help information\n"@, "--color="@);
    lemma_part_concat(a22, "    -h, --help     Print help information\n"@, "pagina.toml"@);
    let a23 = a22 + "    -h, --help     Print help information\n"@;
    lemma_esc_concat(a23, "    -v, --version  Print version information\n"@);
    lemma_part_concat(a23, "    -v, --version  Print version information\n"@, "USAGE:"@);
    lemma_part_concat(a23, "    -v, --version  Print version information\n"@, "--color="@);
    lemma_part_concat(a23, "    -v, --version  Print version information\n"@, "pagina.toml"@);
    let a24 = a23 + "    -v, --version  Print version information\n"@;
    lemma_esc_concat(a24, "\n"@);
    lemma_part_concat(a24, "\n"@, "USAGE:"@);
    lemma_part_concat(a24, "\n"@, "--color="@);
    lemma_part_concat(a24, "\n"@, "pagina.toml"@);
    let a25 = a24 + "\n"@;
    lemma_esc_concat(a25, spec_paint("CONFIG:"@, "\x1b[1m"@, enabled));
    lemma_part_concat(a25, spec_paint("CONFIG:"@, "\x1b[1m"@, enabled), "USAGE:"@);
    lemma_part_concat(a25, spec_paint("CONFIG:"@, "\x1b[1m"@, enabled), "--color="@);
    lemma_part_concat(a25, spec_paint("CONFIG:"@, "\x1b[1m"@, enabled), "pagina.toml"@);
    let a26 = a25 + spec_paint("CONFIG:"@, "\x1b[1m"@, enabled);
    lemma_esc_concat(a26, "\n    ./pagina.toml, then ~/.config/pagina/config.toml (former wins). Keys: gfm (bool),\n"@);
    lemma_part_concat(a26, "\n    ./pagina.toml, then ~/.config/pagina/config.toml (former wins). Keys: gfm (bool),\n"@, "USAGE:"@);
    lemma_part_concat(a26, "\n    ./pagina.toml, then ~/.config/pagina/config.toml (former wins). Keys: gfm (bool),\n"@, "--color="@);
    lemma_part_concat(a26, "\n    ./pagina.toml, then ~/.config/pagina/config.toml (former wins). Keys: gfm (bool),\n"@, "pagina.toml"@);
    let a27 = a26 + "\n    ./pagina.toml, then ~/.config/pagina/config.toml (former wins). Keys: gfm (bool),\n"@;
    lemma_esc_concat(a27, "    color (auto|always|never). CLI flags override the file; unknown keys are ignored.\n"@);
    lemma_part_concat(a27, "    color (auto|always|never). CLI flags override the file; unknown keys are ignored.\n"@, "USAGE:"@);
    lemma_part_concat(a27, "    color (auto|always|never). CLI flags override the file; unknown keys are ignored.\n"@, "--color="@);
    lemma_part_concat(a27, "    color (auto|always|never). CLI flags override the file; unknown keys are ignored.\n"@, "pagina.toml"@);
    let a28 = a27 + "    color (auto|always|never). CLI flags override the file; unknown keys are ignored.\n"@;
    lemma_esc_concat(a28, "\n"@);
    lemma_part_concat(a28, "\n"@, "USAGE:"@);
    lemma_part_concat(a28, "\n"@, "--color="@);
    lemma_part_concat(a28, "\n"@, "pagina.toml"@);
    let a29 = a28 + "\n"@;
    lemma_esc_concat(a29, "Note: output preserves raw HTML and javascript:/data: URLs per CommonMark — sanitize before browser/email rendering.\n"@);
    lemma_part_concat(a29, "Note: output preserves raw HTML and javascript:/data: URLs per CommonMark — sanitize before browser/email rendering.\n"@, "USAGE:"@);
    lemma_part_concat(a29, "Note: output preserves raw HTML and javascript:/data: URLs per CommonMark — sanitize before browser/email rendering.\n"@, "--color="@);
    lemma_part_concat(a29, "Note: output preserves raw HTML and javascript:/data: URLs per CommonMark — sanitize before browser/email rendering.\n"@, "pagina.toml"@);
    let a30 = a29 + "Note: output preserves raw HTML and javascript:/data: URLs per CommonMark — sanitize before browser/email rendering.\n"@;
    assert(a30 == spec_help_text(enabled));
}


/// Render help text. `stdout_tty` selects `Auto` behavior. With colors off
/// the text holds no escape character; with colors on, the title and the
/// section headings are bold.
pub fn render_help(color: ColorMode, stdout_tty: bool) -> (r: String)
    ensures
        r@ == spec_help_text(spec_use_color(color, stdout_tty)),
{
    let enabled = color.use_color(stdout_tty);
    let mut out: Vec<char> = Vec::new();
    push_paint(&mut out, "pagina - Markdown/HTML bidirectional converter", "\x1b[1m", enabled);
    push_str(&mut out, "\n\n");
    push_paint(&mut out, "USAGE:", "\x1b[1m", enabled);
    push_str(
        &mut out,
        "\n    pagina [--color=auto|always|never] to-html [--gfm] <input.md> <output.html>\n",
    );
    push_str(
        &mut out,
        "    pagina [--color=auto|always|never] to-md [--gfm] <input.html> <output.md>\n",
    );
    push_str(&mut out, "\n");
    push_str(&mut out, "    Use '-' as input to read from stdin, or as output to write to stdout.\n");
    push_str(&mut out, "\n");
    push_paint(&mut out, "EXAMPLES:", "\x1b[1m", enabled);
    push_str(&mut out, "\n    pagina to-html README.md README.html\n");
    push_str(&mut out, "    pagina to-html --gfm notes.md notes.html\n");
    push_str(&mut out, "    cat file.md | pagina to-html - output.html\n");
    push_str(&mut out, "    pagina to-html file.md -\n");
    push_str(&mut out, "\n");
    push_paint(&mut out, "SUBCOMMANDS:", "\x1b[1m", enabled);
    push_str(&mut out, "\n    to-html    Convert Markdown to HTML\n");
    push_str(&mut out, "    to-md      Convert HTML to Markdown\n");
    push_str(&mut out, "\n");
    push_paint(&mut out, "OPTIONS:", "\x1b[1m", enabled);
    push_str(
        &mut out,
        "\n    --gfm          Enable GFM extensions (task lists, strikethrough, bare autolinks, footnotes, deflists, math).\n",
    );
    push_str(
        &mut out,
        "                   Pipe tables render with or without --gfm (spec-neutral exception).\n",
    );
    push_str(
        &mut out,
        "    --color=WHEN   Colorize help and error messages: auto (default, TTY only), always, never.\n",
    );
    push_str(
        &mut out,
        "                   May also be set with `color` in pagina.toml; --color overrides the file.\n",
    );
    push_str(&mut out, "    -h, --help     Print help information\n");
    push_str(&mut out, "    -v, --version  Print version information\n");
    push_str(&mut out, "\n");
    push_paint(&mut out, "CONFIG:", "\x1b[1m", enabled);
    push_str(
        &mut out,
        "\n    ./pagina.toml, then ~/.config/pagina/config.toml (former wins). Keys: gfm (bool),\n",
    );
    push_str(
        &mut out,
        "    color (auto|always|never). CLI flags override the file; unknown keys are ignored.\n",
    );
    push_str(&mut out, "\n");
    push_str(
        &mut out,
        "Note: output preserves raw HTML and javascript:/data: URLs per CommonMark — sanitize before browser/email rendering.\n",
    );
    string_of(&out)
}

/// Render an error line for stderr. Only the `Error` prefix is painted.
pub fn render_error(err: &Error, color: ColorMode, stderr_tty: bool) -> (r: String)
    ensures
        !(*err is Io) ==> r@ == spec_paint("Error"@, "\x1b[31m"@, spec_use_color(color, stderr_tty))
            + ": "@ + spec_message_body(*err),
        *err is Io ==> exists|text: Seq<char>|
            r@ == spec_paint("Error"@, "\x1b[31m"@, spec_use_color(color, stderr_tty)) + ": "@
                + "I/O error: "@ + text,
{
    let enabled = color.use_color(stderr_tty);
    let mut out: Vec<char> = Vec::new();
    push_paint(&mut out, "Error", "\x1b[31m", enabled);
    push_str(&mut out, ": ");
    let ghost before = out@;
    let m = err.message();
    push_str(&mut out, m.as_str());
    proof {
        if *err is Io {
            assert(m@ =~= "I/O error: "@ + m@.skip(11));
            assert(out@ =~= before + "I/O error: "@ + m@.skip(11));
        }
    }
    string_of(&out)
}

} // verus!
