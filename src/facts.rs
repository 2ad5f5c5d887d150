use vstd::prelude::*;
use vstd::string::*;

use crate::template::{push_char, string_views};
use crate::text::{decimal, decimal_text, is_white_space, is_whitespace, lemma_words_end_in_word, words};

verus! {

/// What a fact shows when the system does not give it.
pub open spec fn not_available() -> Seq<char> {
    "N/A"@
}

/// `parts` with `sep` between each two of them.
pub open spec fn join(parts: Seq<Seq<char>>, sep: Seq<char>) -> Seq<char>
    decreases parts.len(),
{
    if parts.len() == 0 {
        Seq::empty()
    } else if parts.len() == 1 {
        parts[0]
    } else {
        join(parts.drop_last(), sep) + sep + parts.last()
    }
}

/// Joins `parts` with `sep` between each two of them.
pub fn join_parts(parts: &Vec<String>, sep: &str) -> (r: String)
    ensures
        r@ == join(string_views(parts@), sep@),
{
    let ghost pv = string_views(parts@);
    let mut out = String::new();
    let mut i: usize = 0;
    while i < parts.len()
        invariant
            i <= parts.len(),
            pv == string_views(parts@),
            out@ == join(pv.take(i as int), sep@),
        decreases parts.len() - i,
    {
        if i > 0 {
            out.append(sep);
        }
        out.append(parts[i].as_str());
        proof {
            assert(pv.take(i + 1).drop_last() =~= pv.take(i as int));
            if i == 0 {
                assert(join(pv.take(0), sep@) =~= Seq::<char>::empty());
                assert(out@ =~= pv.take(1)[0]);
            }
        }
        i += 1;
    }
    assert(pv.take(i as int) =~= pv);
    out
}

/// The value of a fact as the system gave it, or the not-available marker.
pub fn fact_or_not_available(value: Option<String>) -> (r: String)
    ensures
        r@ == match value {
            Some(v) => v@,
            None => not_available(),
        },
{
    match value {
        Some(v) => v,
        None => String::from_str("N/A"),
    }
}

/// Relies on whoami::fallible::username: the user's name, when the system
/// gives one.
#[verifier::external_body]
fn system_username() -> (r: Option<String>) {
    whoami::fallible::username().ok()
}

/// Relies on whoami::fallible::hostname: the name of the host, when the
/// system gives one.
#[verifier::external_body]
fn system_hostname() -> (r: Option<String>) {
    whoami::fallible::hostname().ok()
}

/// Relies on whoami::fallible::distro: the name of the operating system
/// distribution, when the system gives one.
#[verifier::external_body]
fn system_distro() -> (r: Option<String>) {
    whoami::fallible::distro().ok()
}

/// The name of the current user, or the not-available marker.
pub fn get_username() -> String {
    fact_or_not_available(system_username())
}

/// The name of the host, or the not-available marker.
pub fn get_hostname() -> String {
    fact_or_not_available(system_hostname())
}

/// The name of the operating system distribution, or the not-available marker.
pub fn get_distro() -> String {
    fact_or_not_available(system_distro())
}

/// `n` followed by `unit`, in the plural when `n` is more than one.
pub open spec fn counted(n: nat, unit: Seq<char>) -> Seq<char> {
    decimal(n) + " "@ + unit + if n > 1 {
        "s"@
    } else {
        Seq::empty()
    }
}

fn counted_text(n: u64, unit: &str) -> (r: String)
    ensures
        r@ == counted(n as nat, unit@),
{
    let mut r = decimal_text(n);
    r.append(" ");
    r.append(unit);
    if n > 1 {
        r.append("s");
    }
    assert(r@ =~= counted(n as nat, unit@)) by {
        if n <= 1 {
            assert(decimal(n as nat) + " "@ + unit@ + Seq::<char>::empty() =~= decimal(n as nat)
                + " "@ + unit@);
        }
    }
    r
}

/// The non-zero parts among the days, hours and minutes of an uptime.
pub open spec fn uptime_parts(seconds: nat) -> Seq<Seq<char>> {
    let days = seconds / 86400;
    let hours = (seconds % 86400) / 3600;
    let minutes = (seconds % 3600) / 60;
    (if days > 0 {
        seq![counted(days, "day"@)]
    } else {
        Seq::empty()
    }) + (if hours > 0 {
        seq![counted(hours, "hour"@)]
    } else {
        Seq::empty()
    }) + (if minutes > 0 {
        seq![counted(minutes, "minute"@)]
    } else {
        Seq::empty()
    })
}

/// An uptime in words: its non-zero days, hours and minutes joined with
/// ", ", or "0 minutes" when all three are zero.
pub open spec fn uptime_words(seconds: nat) -> Seq<char> {
    if uptime_parts(seconds).len() == 0 {
        "0 minutes"@
    } else {
        join(uptime_parts(seconds), ", "@)
    }
}

/// Describes an uptime of `seconds` in words.
pub fn uptime_text(seconds: u64) -> (r: String)
    ensures
        r@ == uptime_words(seconds as nat),
{
    let days = seconds / 86400;
    let hours = (seconds % 86400) / 3600;
    let minutes = (seconds % 3600) / 60;
    let mut parts: Vec<String> = Vec::new();
    if days > 0 {
        parts.push(counted_text(days, "day"));
    }
    if hours > 0 {
        parts.push(counted_text(hours, "hour"));
    }
    if minutes > 0 {
        parts.push(counted_text(minutes, "minute"));
    }
    assert(string_views(parts@) =~= uptime_parts(seconds as nat));
    if parts.len() == 0 {
        String::from_str("0 minutes")
    } else {
        join_parts(&parts, ", ")
    }
}

/// How many packages each package manager has installed.
pub struct PackageCounts {
    pub pacman: u64,
    pub xbps: u64,
    pub apt: u64,
    pub flatpak: u64,
    pub nix: u64,
}

/// `"<count> (<manager>)"`.
pub open spec fn package_entry(count: nat, manager: Seq<char>) -> Seq<char> {
    decimal(count) + " ("@ + manager + ")"@
}

pub open spec fn entry_if_any(count: nat, manager: Seq<char>) -> Seq<Seq<char>> {
    if count > 0 {
        seq![package_entry(count, manager)]
    } else {
        Seq::empty()
    }
}

/// The entries of the managers that have packages, in a fixed order.
pub open spec fn package_entries(c: PackageCounts) -> Seq<Seq<char>> {
    entry_if_any(c.pacman as nat, "pacman"@) + entry_if_any(c.xbps as nat, "xbps"@)
        + entry_if_any(c.apt as nat, "apt"@) + entry_if_any(c.flatpak as nat, "flatpak"@)
        + entry_if_any(c.nix as nat, "nix"@)
}

/// The package counts in words: the entries joined with ", ", or the
/// not-available marker when no manager has packages.
pub open spec fn package_words(c: PackageCounts) -> Seq<char> {
    if package_entries(c).len() == 0 {
        not_available()
    } else {
        join(package_entries(c), ", "@)
    }
}

fn push_entry(parts: &mut Vec<String>, count: u64, manager: &str)
    ensures
        string_views(final(parts)@) == string_views(old(parts)@) + entry_if_any(
            count as nat,
            manager@,
        ),
{
    let ghost before = parts@;
    if count > 0 {
        let mut e = decimal_text(count);
        e.append(" (");
        e.append(manager);
        e.append(")");
        parts.push(e);
        assert(string_views(parts@) =~= string_views(before) + entry_if_any(
            count as nat,
            manager@,
        ));
    } else {
        assert(string_views(parts@) =~= string_views(before) + entry_if_any(
            count as nat,
            manager@,
        ));
    }
}

/// Describes the package counts in words.
pub fn package_summary(counts: &PackageCounts) -> (r: String)
    ensures
        r@ == package_words(*counts),
{
    let mut parts: Vec<String> = Vec::new();
    assert(string_views(parts@) =~= Seq::<Seq<char>>::empty());
    push_entry(&mut parts, counts.pacman, "pacman");
    push_entry(&mut parts, counts.xbps, "xbps");
    push_entry(&mut parts, counts.apt, "apt");
    push_entry(&mut parts, counts.flatpak, "flatpak");
    push_entry(&mut parts, counts.nix, "nix");
    assert(string_views(parts@) =~= package_entries(*counts));
    if parts.len() == 0 {
        String::from_str("N/A")
    } else {
        join_parts(&parts, ", ")
    }
}

/// What follows the last `/` of `path`, or all of it when it has none.
pub open spec fn last_component(path: Seq<char>) -> Seq<char>
    decreases path.len(),
{
    if path.len() == 0 {
        path
    } else if path.last() == '/' {
        Seq::empty()
    } else {
        last_component(path.drop_last()).push(path.last())
    }
}

/// The name of a shell from its path: what follows the last `/`.
pub fn shell_name(path: &str) -> (r: String)
    ensures
        r@ == last_component(path@),
{
    let n = path.unicode_len();
    let mut start: usize = 0;
    let mut i: usize = 0;
    while i < n
        invariant
            n == path@.len(),
            start <= i <= n,
            last_component(path@.take(i as int)) == path@.subrange(start as int, i as int),
        decreases n - i,
    {
        let c = path.get_char(i);
        assert(path@.take(i + 1).drop_last() =~= path@.take(i as int));
        if c == '/' {
            start = i + 1;
        }
        assert(last_component(path@.take(i + 1)) =~= path@.subrange(start as int, i + 1));
        i += 1;
    }
    assert(path@.take(n as int) =~= path@);
    String::from_str(path.substring_char(start, n))
}

/// The kernel release in the text of a kernel version banner: its third
/// word, or the whole text when it has fewer than three words.
pub open spec fn release_in(banner: Seq<char>) -> Seq<char> {
    if words(banner).len() > 2 {
        words(banner)[2]
    } else {
        banner
    }
}

/// Finds the kernel release in the text of a kernel version banner.
pub fn kernel_release(banner: &str) -> (r: String)
    ensures
        r@ == release_in(banner@),
{
    let n = banner.unicode_len();
    let mut count: usize = 0;
    let mut third = String::new();
    let mut prev_white = true;
    let mut i: usize = 0;
    while i < n
        invariant
            n == banner@.len(),
            i <= n,
            count <= i,
            count == words(banner@.take(i as int)).len(),
            count >= 3 ==> third@ == words(banner@.take(i as int))[2],
            prev_white == (i == 0 || is_white_space(banner@[i - 1])),
        decreases n - i,
    {
        let c = banner.get_char(i);
        let ghost s = banner@.take(i + 1);
        assert(s.drop_last() =~= banner@.take(i as int));
        assert(s.last() == c);
        let white = is_whitespace(c);
        if !white {
            if !prev_white {
                assert(s[s.len() - 2] == banner@[i - 1]);
                proof {
                    lemma_words_end_in_word(banner@.take(i as int));
                }
                if count == 3 {
                    push_char(&mut third, c);
                }
            } else {
                if i > 0 {
                    assert(s[s.len() - 2] == banner@[i - 1]);
                }
                if count == 2 {
                    third = String::new();
                    push_char(&mut third, c);
                    assert(third@ =~= seq![c]);
                }
                count = count + 1;
            }
        }
        prev_white = white;
        i += 1;
    }
    assert(banner@.take(n as int) =~= banner@);
    if count > 2 {
        third
    } else {
        String::from_str(banner)
    }
}

} // verus!
