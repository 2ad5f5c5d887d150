use vstd::prelude::*;
use vstd::string::*;

use crate::error::{result_view, ErrorView, RenderError};
use crate::text::{decimal, decimal_text, has_prefix, same_text, strip_prefix, trim_end, trimmed_end};

verus! {

/// A fact about the running system that an `@` placeholder can name.
#[derive(Debug, Clone, Copy, PartialEq, Eq, Structural)]
pub enum Fact {
    Username,
    Hostname,
    Distro,
    Kernel,
    Uptime,
    Pkgs,
    Shell,
}

/// What a placeholder asks for, decided from its first character.
#[derive(Debug, PartialEq, Eq)]
pub enum Lookup {
    /// `$name`: the value of an environment variable.
    Env(String),
    /// `@name` for a system fact.
    Fact(Fact),
    /// `@name` for a style: the text is already known.
    Literal(String),
    /// `#command`: what a shell command prints.
    Shell(String),
}

pub enum LookupView {
    Env(Seq<char>),
    Fact(Fact),
    Literal(Seq<char>),
    Shell(Seq<char>),
}

impl View for Lookup {
    type V = LookupView;

    open spec fn view(&self) -> LookupView {
        match self {
            Lookup::Env(s) => LookupView::Env(s@),
            Lookup::Fact(f) => LookupView::Fact(*f),
            Lookup::Literal(s) => LookupView::Literal(s@),
            Lookup::Shell(s) => LookupView::Shell(s@),
        }
    }
}

pub open spec fn lookup_result_view(r: Result<Lookup, RenderError>) -> Result<
    LookupView,
    ErrorView,
> {
    match r {
        Ok(l) => Ok(l@),
        Err(e) => Err(e@),
    }
}

/// The system fact that `name` stands for.
pub open spec fn fact_named(name: Seq<char>) -> Option<Fact> {
    if name == "username"@ {
        Some(Fact::Username)
    } else if name == "hostname"@ {
        Some(Fact::Hostname)
    } else if name == "distro"@ {
        Some(Fact::Distro)
    } else if name == "kernel"@ {
        Some(Fact::Kernel)
    } else if name == "uptime"@ {
        Some(Fact::Uptime)
    } else if name == "pkgs"@ {
        Some(Fact::Pkgs)
    } else if name == "shell"@ {
        Some(Fact::Shell)
    } else {
        None
    }
}

/// The style table: the terminal escape sequence of each named style.
pub open spec fn style_named(name: Seq<char>) -> Option<Seq<char>> {
    if name == "reset"@ {
        Some("\x1b[0m"@)
    } else if name == "bold"@ {
        Some("\x1b[1m"@)
    } else if name == "dim"@ {
        Some("\x1b[2m"@)
    } else if name == "italic"@ {
        Some("\x1b[3m"@)
    } else if name == "underline"@ {
        Some("\x1b[4m"@)
    } else {
        None
    }
}

/// The escape sequence that selects color `n` of the 256-color palette for
/// the foreground.
pub open spec fn color_escape(n: nat) -> Seq<char> {
    "\x1b[38;5;"@ + decimal(n) + "m"@
}

pub open spec fn is_digit(c: char) -> bool {
    '0' <= c && c <= '9'
}

pub open spec fn digit_value(c: char) -> nat {
    ((c as u32) - ('0' as u32)) as nat
}

/// The number that a sequence of decimal digits writes.
pub open spec fn digits_value(s: Seq<char>) -> nat
    decreases s.len(),
{
    if s.len() == 0 {
        0
    } else {
        digits_value(s.drop_last()) * 10 + digit_value(s.last())
    }
}

/// The color number that `s` writes: one or more decimal digits whose value
/// is at most 255.
pub open spec fn color_number(s: Seq<char>) -> Option<nat> {
    if s.len() > 0 && (forall|i: int| 0 <= i < s.len() ==> is_digit(#[trigger] s[i]))
        && digits_value(s) <= 255 {
        Some(digits_value(s))
    } else {
        None
    }
}

/// What the name of an `@` placeholder resolves to: a system fact, a style,
/// or `color<N>` for a color of the palette.
pub open spec fn builtin_lookup(name: Seq<char>) -> Result<LookupView, ErrorView> {
    match fact_named(name) {
        Some(f) => Ok(LookupView::Fact(f)),
        None => match style_named(name) {
            Some(e) => Ok(LookupView::Literal(e)),
            None => if has_prefix(name, "color"@) {
                let suffix = name.skip("color"@.len() as int);
                match color_number(suffix) {
                    Some(n) => Ok(LookupView::Literal(color_escape(n))),
                    None => Err(ErrorView::UnknownColor(suffix)),
                }
            } else {
                Err(ErrorView::UnknownVariable(name))
            },
        },
    }
}

/// What a placeholder body asks for, by its first character: `$` an
/// environment variable, `@` a built-in name, `#` a shell command.
pub open spec fn body_lookup(body: Seq<char>) -> Result<LookupView, ErrorView> {
    if body.len() == 0 {
        Err(ErrorView::UnknownVariable(body))
    } else if body[0] == '$' {
        Ok(LookupView::Env(body.drop_first()))
    } else if body[0] == '@' {
        builtin_lookup(body.drop_first())
    } else if body[0] == '#' {
        Ok(LookupView::Shell(body.drop_first()))
    } else {
        Err(ErrorView::UnknownVariable(body))
    }
}

fn fact_by_name(name: &str) -> (r: Option<Fact>)
    ensures
        r == fact_named(name@),
{
    if same_text(name, "username") {
        Some(Fact::Username)
    } else if same_text(name, "hostname") {
        Some(Fact::Hostname)
    } else if same_text(name, "distro") {
        Some(Fact::Distro)
    } else if same_text(name, "kernel") {
        Some(Fact::Kernel)
    } else if same_text(name, "uptime") {
        Some(Fact::Uptime)
    } else if same_text(name, "pkgs") {
        Some(Fact::Pkgs)
    } else if same_text(name, "shell") {
        Some(Fact::Shell)
    } else {
        None
    }
}

fn style_by_name(name: &str) -> (r: Option<String>)
    ensures
        match r {
            Some(s) => style_named(name@) == Some(s@),
            None => style_named(name@) is None,
        },
{
    if same_text(name, "reset") {
        Some(String::from_str("\x1b[0m"))
    } else if same_text(name, "bold") {
        Some(String::from_str("\x1b[1m"))
    } else if same_text(name, "dim") {
        Some(String::from_str("\x1b[2m"))
    } else if same_text(name, "italic") {
        Some(String::from_str("\x1b[3m"))
    } else if same_text(name, "underline") {
        Some(String::from_str("\x1b[4m"))
    } else {
        None
    }
}

proof fn lemma_digits_value_grows(s: Seq<char>, c: char)
    requires
        is_digit(c),
    ensures
        digits_value(s.push(c)) == digits_value(s) * 10 + digit_value(c),
        digits_value(s.push(c)) >= digits_value(s),
{
    assert(s.push(c).drop_last() =~= s);
}

/// The color number that `s` writes, if it writes one from 0 to 255.
pub fn parse_color_number(s: &str) -> (r: Option<u8>)
    ensures
        match r {
            Some(n) => color_number(s@) == Some(n as nat),
            None => color_number(s@) is None,
        },
{
    let n = s.unicode_len();
    if n == 0 {
        return None;
    }
    let mut value: u32 = 0;
    let mut i: usize = 0;
    while i < n
        invariant
            n == s@.len(),
            i <= n,
            forall|k: int| 0 <= k < i ==> is_digit(#[trigger] s@[k]),
            value <= 256,
            value <= 255 ==> value as nat == digits_value(s@.take(i as int)),
            value == 256 ==> digits_value(s@.take(i as int)) > 255,
        decreases n - i,
    {
        let c = s.get_char(i);
        if !('0' <= c && c <= '9') {
            assert(!is_digit(s@[i as int]));
            return None;
        }
        proof {
            assert(s@.take(i + 1) =~= s@.take(i as int).push(c));
            lemma_digits_value_grows(s@.take(i as int), c);
        }
        if value <= 255 {
            let d = (c as u32) - ('0' as u32);
            let next = value * 10 + d;
            value = if next > 255 {
                256
            } else {
                next
            };
        }
        i += 1;
    }
    assert(s@.take(n as int) =~= s@);
    if value <= 255 {
        Some(value as u8)
    } else {
        None
    }
}

/// Resolves the name of an `@` placeholder against the system facts, the
/// style table and the `color<N>` form.
pub fn replace_var(key: &str) -> (r: Result<Lookup, RenderError>)
    ensures
        lookup_result_view(r) == builtin_lookup(key@),
{
    if let Some(f) = fact_by_name(key) {
        return Ok(Lookup::Fact(f));
    }
    if let Some(e) = style_by_name(key) {
        return Ok(Lookup::Literal(e));
    }
    match strip_prefix(key, "color") {
        Some(suffix) => match parse_color_number(suffix) {
            Some(n) => {
                let mut e = String::from_str("\x1b[38;5;");
                let digits = decimal_text(n as u64);
                e.append(digits.as_str());
                e.append("m");
                Ok(Lookup::Literal(e))
            },
            None => Err(RenderError::UnknownColor(String::from_str(suffix))),
        },
        None => Err(RenderError::UnknownVariable(String::from_str(key))),
    }
}

/// Decides what a placeholder body asks for, by its first character.
pub fn parse_var(var: &str) -> (r: Result<Lookup, RenderError>)
    ensures
        lookup_result_view(r) == body_lookup(var@),
{
    let n = var.unicode_len();
    if n == 0 {
        return Err(RenderError::UnknownVariable(String::from_str(var)));
    }
    let sigil = var.get_char(0);
    let rest = var.substring_char(1, n);
    assert(rest@ =~= var@.drop_first());
    if sigil == '$' {
        Ok(Lookup::Env(String::from_str(rest)))
    } else if sigil == '@' {
        replace_var(rest)
    } else if sigil == '#' {
        Ok(Lookup::Shell(String::from_str(rest)))
    } else {
        Err(RenderError::UnknownVariable(String::from_str(var)))
    }
}

pub open spec fn option_view(value: Option<String>) -> Option<Seq<char>> {
    match value {
        Some(v) => Some(v@),
        None => None,
    }
}

/// What a `$name` placeholder resolves to when the environment holds `value`
/// for `name`.
pub open spec fn env_result(name: Seq<char>, value: Option<Seq<char>>) -> Result<
    Seq<char>,
    ErrorView,
> {
    match value {
        Some(v) => Ok(v),
        None => Err(ErrorView::MissingEnvVar(name)),
    }
}

/// A `$name` placeholder always asks for the variable `name`, and what it
/// resolves to depends on nothing but what the environment holds for that
/// name: two resolutions of it against the same environment give the same
/// string, or fail alike when the variable is not set.
pub proof fn env_placeholder_resolves_alike(
    body: Seq<char>,
    first: Option<Seq<char>>,
    second: Option<Seq<char>>,
)
    requires
        body.len() > 0,
        body[0] == '$',
        first == second,
    ensures
        body_lookup(body) == Ok::<LookupView, ErrorView>(LookupView::Env(body.drop_first())),
        env_result(body.drop_first(), first) == env_result(body.drop_first(), second),
        first is None ==> env_result(body.drop_first(), first) == Err::<Seq<char>, ErrorView>(
            ErrorView::MissingEnvVar(body.drop_first()),
        ),
{
}

/// The value of a `$name` placeholder, given what the environment holds for
/// `name`: that value verbatim, or an error when it is not set.
pub fn env_value(name: &str, value: Option<String>) -> (r: Result<String, RenderError>)
    ensures
        result_view(r) == env_result(name@, option_view(value)),
{
    match value {
        Some(v) => Ok(v),
        None => Err(RenderError::MissingEnvVar(String::from_str(name))),
    }
}

/// The value of a `#command` placeholder, given what the command wrote: any
/// output on standard error makes it fail with that text, and otherwise it is
/// the standard output without trailing white space.
pub fn shell_output(stdout: &str, stderr: &str) -> (r: Result<String, RenderError>)
    ensures
        result_view(r) == if stderr@.len() > 0 {
            Err(ErrorView::CommandExecution(trimmed_end(stderr@)))
        } else {
            Ok::<Seq<char>, ErrorView>(trimmed_end(stdout@))
        },
{
    if stderr.unicode_len() > 0 {
        Err(RenderError::CommandExecution(String::from_str(trim_end(stderr))))
    } else {
        Ok(String::from_str(trim_end(stdout)))
    }
}

} // verus!
