//! Whether a newer release exists, and how this copy would be replaced by it.
//!
//! Deciding is separated from doing: what to run is worked out here from plain
//! values, and running it is the caller's business.
use crate::text::{parse_u64, split_on, trim};
use vstd::prelude::*;

verus! {

/// Where releases are published.
pub const RELEASES: &'static str = "https://github.com/OliverRhyme/jev-pilot/releases";

/// The endpoint naming the latest release.
pub const LATEST_API: &'static str = "https://api.github.com/repos/OliverRhyme/jev-pilot/releases/latest";

/// How this copy is to be replaced.
#[derive(Debug, Clone, PartialEq, Eq)]
pub enum Plan {
    /// Run the installer again, which replaces the copy it installed.
    Installer {
        /// The program to run.
        program: String,
        /// Its arguments.
        args: Vec<String>,
    },
    /// This copy was built some other way, and is updated the same way.
    FromSource {
        /// What to tell the person.
        hint: String,
    },
}

/// Whether `exe` lies inside `home/.jev-pilot/bin`, comparing whole path
/// components, as `std::path::Path::starts_with` does.
pub uninterp spec fn path_within_install(exe: Seq<char>, home: Seq<char>) -> bool;

/// `Path::new(exe).starts_with(Path::new(home).join(".jev-pilot").join("bin"))`.
#[verifier::external_body]
fn installed_under(exe: &str, home: &str) -> (r: bool)
    ensures
        r == path_within_install(exe@, home@),
{
    let home = std::path::Path::new(home).join(".jev-pilot").join("bin");
    std::path::Path::new(exe).starts_with(home)
}

/// The hint given to a copy the installer did not put in place.
pub open spec fn from_source_hint(exe: Seq<char>) -> Seq<char> {
    "this copy was not installed by the jev-pilot installer ("@ + exe
        + "). Update it the way it was built, for example from a clone: git pull && cargo install --path . --features mcp --locked"@
}

/// What a Windows copy runs to update itself.
pub open spec fn windows_script() -> Seq<char> {
    "irm https://github.com/OliverRhyme/jev-pilot/releases/latest/download/jev-pilot-installer.ps1 | iex"@
}

/// What any other copy runs to update itself.
pub open spec fn unix_script() -> Seq<char> {
    "curl --proto '=https' --tlsv1.2 -LsSf https://github.com/OliverRhyme/jev-pilot/releases/latest/download/jev-pilot-installer.sh | sh"@
}

/// How the copy at `exe` is to be updated, for a user whose home is `home`.
///
/// Only a copy the installer put in place is replaced by running it again;
/// anything else was built by hand, and overwriting it would lose whatever it
/// was built with.
pub fn plan(exe: &str, home: &str, windows: bool) -> (p: Plan)
    ensures
        !path_within_install(exe@, home@) ==> (p matches Plan::FromSource { hint } && hint@ == from_source_hint(exe@)),
        path_within_install(exe@, home@) && windows ==> (p matches Plan::Installer { program, args } && program@ == "powershell"@
            && crate::snapshot::texts(args@) == seq!["-ExecutionPolicy"@, "Bypass"@, "-c"@, windows_script()]),
        path_within_install(exe@, home@) && !windows ==> (p matches Plan::Installer { program, args } && program@ == "sh"@
            && crate::snapshot::texts(args@) == seq!["-c"@, unix_script()]),
{
    if !installed_under(exe, home) {
        let mut hint = String::from_str("this copy was not installed by the jev-pilot installer (");
        crate::text::push_str(&mut hint, exe);
        crate::text::push_str(&mut hint, "). Update it the way it was built, for example from a clone: git pull && cargo install --path . --features mcp --locked");
        return Plan::FromSource { hint };
    }
    if windows {
        let args = vec![
            String::from_str("-ExecutionPolicy"),
            String::from_str("Bypass"),
            String::from_str("-c"),
            String::from_str("irm https://github.com/OliverRhyme/jev-pilot/releases/latest/download/jev-pilot-installer.ps1 | iex"),
        ];
        assert(crate::snapshot::texts(args@) =~= seq!["-ExecutionPolicy"@, "Bypass"@, "-c"@, windows_script()]);
        Plan::Installer { program: String::from_str("powershell"), args }
    } else {
        let args = vec![
            String::from_str("-c"),
            String::from_str("curl --proto '=https' --tlsv1.2 -LsSf https://github.com/OliverRhyme/jev-pilot/releases/latest/download/jev-pilot-installer.sh | sh"),
        ];
        assert(crate::snapshot::texts(args@) =~= seq!["-c"@, unix_script()]);
        Plan::Installer { program: String::from_str("sh"), args }
    }
}

/// `s` without any `v` it starts with.
pub open spec fn without_vs(s: Seq<char>) -> Seq<char>
    decreases s.len(),
{
    if s.len() > 0 && s[0] == 'v' {
        without_vs(s.drop_first())
    } else {
        s
    }
}

/// A version as `major.minor.patch`, after any leading `v`: exactly three
/// numbers, each fitting a `u64`.
pub open spec fn version_of(s: Seq<char>) -> Option<(u64, u64, u64)> {
    let parts = split_on(without_vs(trim(s)), '.');
    if parts.len() == 3 {
        match (parse_u64(parts[0]), parse_u64(parts[1]), parse_u64(parts[2])) {
            (Some(a), Some(b), Some(c)) => Some((a, b, c)),
            _ => None,
        }
    } else {
        None
    }
}

/// Whether one version comes after another, number by number.
pub open spec fn later(a: (u64, u64, u64), b: (u64, u64, u64)) -> bool {
    a.0 > b.0 || (a.0 == b.0 && (a.1 > b.1 || (a.1 == b.1 && a.2 > b.2)))
}

/// Being newer is a strict order: no version is newer than itself, two
/// versions are never each newer than the other, and a version newer than
/// one newer than a third is newer than the third.
pub proof fn newer_is_a_strict_order(a: (u64, u64, u64), b: (u64, u64, u64), c: (u64, u64, u64))
    ensures
        !later(a, a),
        later(a, b) ==> !later(b, a),
        later(a, b) && later(b, c) ==> later(a, c),
        a != b ==> later(a, b) || later(b, a),
{
}

/// A version, or nothing when it is not three numbers.
fn parse(version: &str) -> (r: Option<(u64, u64, u64)>)
    ensures
        r == version_of(version@),
{
    let chars = crate::text::chars_of(version);
    let t = crate::text::trim_chars(chars.as_slice());
    let mut start: usize = 0;
    assert(t@.skip(0) =~= t@);
    while start < t.len() && t[start] == 'v'
        invariant
            start <= t@.len(),
            without_vs(t@) == without_vs(t@.skip(start as int)),
        decreases t@.len() - start,
    {
        assert(t@.skip(start as int).drop_first() =~= t@.skip(start + 1));
        start = start + 1;
    }
    let body = crate::text::slice_of(t.as_slice(), start, t.len());
    assert(body@ =~= t@.skip(start as int));
    let parts = crate::text::split_chars(body.as_slice(), '.');
    assert(crate::text::runs(parts@) == split_on(body@, '.'));
    if parts.len() != 3 {
        return None;
    }
    assert(crate::text::runs(parts@)[0] == parts@[0]@);
    assert(crate::text::runs(parts@)[1] == parts@[1]@);
    assert(crate::text::runs(parts@)[2] == parts@[2]@);
    proof {
        crate::text::lemma_parse_natural_nonneg(parts@[0]@);
        crate::text::lemma_parse_natural_nonneg(parts@[1]@);
        crate::text::lemma_parse_natural_nonneg(parts@[2]@);
    }
    let a = crate::text::natural_of(parts[0].as_slice(), u64::MAX);
    let b = crate::text::natural_of(parts[1].as_slice(), u64::MAX);
    let c = crate::text::natural_of(parts[2].as_slice(), u64::MAX);
    match (a, b, c) {
        (Some(a), Some(b), Some(c)) => Some((a, b, c)),
        _ => None,
    }
}

/// Whether `tag` names a later release than `current`. Anything that does not
/// read as a version is never newer: a malformed answer is no reason to
/// replace a working copy.
pub fn is_newer(current: &str, tag: &str) -> (r: bool)
    ensures
        r == match (version_of(current@), version_of(tag@)) {
            (Some(c), Some(t)) => later(t, c),
            _ => false,
        },
{
    match (parse(current), parse(tag)) {
        (Some(c), Some(t)) => t.0 > c.0 || (t.0 == c.0 && (t.1 > c.1 || (t.1 == c.1 && t.2 > c.2))),
        _ => false,
    }
}

} // verus!
