//! The on-device accessibility helper: what it is, what a device needs
//! before it can be read from, and which reader a run is using.
//!
//! `uiautomator dump` spawns a JVM and waits a hardcoded second for the
//! accessibility event stream to fall quiet, costing about 2.5s per
//! observation; the helper answers in about 50ms over a loopback port. The
//! two cannot be mixed within a run — a dump unbinds every accessibility
//! service while it runs — so the reader is chosen once and only ever gives
//! the helper up.
use crate::device::{Command, CommandView};
use crate::text::{chars_of, contains, decimal, split_on, trim};
use vstd::prelude::*;

verus! {

/// The helper's application id.
pub const PACKAGE: &'static str = "dev.jevpilot.helper";

/// The helper's application id, as characters.
pub open spec fn package_name() -> Seq<char> {
    PACKAGE@
}

/// The loopback port the helper listens on, on the device.
pub const DEVICE_PORT: u16 = 18877;

/// The path that answers with a UIAutomator-shaped hierarchy.
pub const DUMP_PATH: &'static str = "/dump_xml";

/// The path that carries out a gesture.
pub const ACTION_PATH: &'static str = "/action";

/// The header carrying the session token.
pub const TOKEN_HEADER: &'static str = "X-Jev-Token";

/// The wire contract this crate understands.
pub const PROTOCOL_VERSION: u32 = 2;

/// The service name the helper reports, checked before reading from it.
pub const SERVICE_NAME: &'static str = "PilotAccessibilityService";

/// The component name in `enabled_accessibility_services`.
pub const SERVICE_COMPONENT: &'static str = "dev.jevpilot.helper/dev.jevpilot.helper.PilotAccessibilityService";

/// The APK a build ships, as its manifest describes it.
#[derive(Debug, Clone, PartialEq, Eq)]
pub struct Bundled {
    /// Application id.
    pub package: String,
    /// Monotonic build number, compared against what a device holds.
    pub version_code: u32,
    /// Human-readable version.
    pub version_name: String,
    /// Digest of the bundled APK.
    pub sha256: String,
}

/// Whether `needle` is spelled in `bytes` starting at `at`.
pub open spec fn spelled_at(bytes: Seq<u8>, at: int, needle: Seq<u8>) -> bool {
    needle.len() == 0 || (at + needle.len() <= bytes.len() && forall|k: int|
        0 <= k < needle.len() ==> bytes[at + k] == #[trigger] needle[k])
}

/// Where `"field"` is first quoted in `bytes`, as the manifest reader scans
/// for it: a `"` at `i`, the field's name at `i + 1`, with room after it.
pub open spec fn quoted_field_at(bytes: Seq<u8>, field: Seq<u8>, i: int) -> bool {
    &&& 0 <= i
    &&& i + field.len() + 2 < bytes.len()
    &&& bytes[i] == 34
    &&& spelled_at(bytes, i + 1, field)
}

/// The first place the field is quoted, from `i` on.
pub open spec fn field_quote(bytes: Seq<u8>, field: Seq<u8>, i: int) -> Option<int>
    decreases bytes.len() - i,
{
    if i < 0 || i + field.len() + 2 >= bytes.len() {
        None
    } else if quoted_field_at(bytes, field, i) {
        Some(i)
    } else {
        field_quote(bytes, field, i + 1)
    }
}

/// The first position from `at` on that is neither `:` nor a space.
pub open spec fn past_separators(bytes: Seq<u8>, at: int) -> int
    decreases bytes.len() - at,
{
    if 0 <= at < bytes.len() && (bytes[at] == 58 || bytes[at] == 32) {
        past_separators(bytes, at + 1)
    } else {
        at
    }
}

/// Where a field's value starts: just past `"field":` and any spaces.
pub open spec fn value_start(bytes: Seq<u8>, field: Seq<u8>) -> Option<int> {
    match field_quote(bytes, field, 0) {
        Some(i) => Some(past_separators(bytes, i + 1 + field.len() + 1)),
        None => None,
    }
}

/// How many bytes from `at` on are ASCII digits.
pub open spec fn digit_run(bytes: Seq<u8>, at: int) -> int
    decreases bytes.len() - at,
{
    if 0 <= at < bytes.len() && 48 <= bytes[at] <= 57 {
        1 + digit_run(bytes, at + 1)
    } else {
        0
    }
}

/// The number the digits from `at` spell, for `n` of them.
pub open spec fn digits_number(bytes: Seq<u8>, at: int, n: int) -> int
    decreases n,
{
    if n <= 0 {
        0
    } else {
        digits_number(bytes, at, n - 1) * 10 + (bytes[at + n - 1] - 48)
    }
}

/// How many bytes from `at` on come before the next `"`.
pub open spec fn until_quote(bytes: Seq<u8>, at: int) -> int
    decreases bytes.len() - at,
{
    if 0 <= at < bytes.len() && bytes[at] != 34 {
        1 + until_quote(bytes, at + 1)
    } else {
        0
    }
}

/// Whether `needle` is spelled in `bytes` starting at `at`.
pub fn starts_with_at(bytes: &[u8], at: usize, needle: &[u8]) -> (r: bool)
    ensures
        r == spelled_at(bytes@, at as int, needle@),
{
    let mut index: usize = 0;
    while index < needle.len()
        invariant
            index <= needle@.len(),
            forall|k: int| 0 <= k < index ==> at + k < bytes@.len() && bytes@[at + k] == #[trigger] needle@[k],
        decreases needle@.len() - index,
    {
        if at >= bytes.len() || index >= bytes.len() - at || bytes[at + index] != needle[index] {
            proof {
                let k = index as int;
                assert(0 <= k < needle@.len());
                assert(spelled_at(bytes@, at as int, needle@) ==> bytes@[at + k] == needle@[k]);
            }
            return false;
        }
        index = index + 1;
    }
    proof {
        if needle@.len() > 0 {
            let k = needle@.len() - 1;
            assert(index == needle@.len());
            assert(0 <= k < index);
            assert(bytes@[at + k] == needle@[k]);
            assert(at + k < bytes@.len());
        }
    }
    true
}

/// The offset just past `"field":` and any spaces, when the field is there.
pub fn field_value_start(bytes: &[u8], field: &[u8]) -> (r: Option<usize>)
    ensures
        r matches Some(v) ==> value_start(bytes@, field@) == Some(v as int) && v <= bytes@.len(),
        r is None ==> value_start(bytes@, field@) is None,
{
    let mut index: usize = 0;
    while field.len() < bytes.len() && bytes.len() - field.len() > 2 && index < bytes.len() - field.len() - 2
        invariant
            field_quote(bytes@, field@, 0) == field_quote(bytes@, field@, index as int),
        decreases bytes@.len() - index,
    {
        if bytes[index] == 34 && starts_with_at(bytes, index + 1, field) {
            let mut cursor = index + 1 + field.len() + 1;
            while cursor < bytes.len() && (bytes[cursor] == 58 || bytes[cursor] == 32)
                invariant
                    past_separators(bytes@, index + 1 + field@.len() + 1) == past_separators(bytes@, cursor as int),
                    cursor <= bytes@.len(),
                decreases bytes@.len() - cursor,
            {
                cursor = cursor + 1;
            }
            return Some(cursor);
        }
        index = index + 1;
    }
    None
}

/// `bytes[start..end]`.
pub fn byte_range(bytes: &[u8], start: usize, end: usize) -> (r: Vec<u8>)
    requires
        start <= end <= bytes@.len(),
    ensures
        r@ == bytes@.subrange(start as int, end as int),
{
    let mut r: Vec<u8> = Vec::new();
    let mut i = start;
    while i < end
        invariant
            start <= i <= end <= bytes@.len(),
            r@ == bytes@.subrange(start as int, i as int),
        decreases end - i,
    {
        r.push(bytes[i]);
        i = i + 1;
        assert(bytes@.subrange(start as int, i as int) =~= bytes@.subrange(start as int, (i - 1) as int).push(bytes@[i - 1]));
    }
    r
}

/// The unquoted number a manifest gives a field, when the field is there
/// and its digits fit in a `u32`.
pub fn bundled_u32(manifest: &[u8], field: &[u8]) -> (r: Option<u32>)
    ensures
        match value_start(manifest@, field@) {
            None => r is None,
            Some(v) => if digits_number(manifest@, v, digit_run(manifest@, v)) <= u32::MAX {
                r == Some(digits_number(manifest@, v, digit_run(manifest@, v)) as u32)
            } else {
                r is None
            },
        },
{
    let start = match field_value_start(manifest, field) {
        Some(s) => s,
        None => {
            return None;
        },
    };
    let mut index = start;
    let mut value: u64 = 0;
    let mut big = false;
    while index < manifest.len() && manifest[index] >= 48 && manifest[index] <= 57
        invariant
            start <= index <= manifest@.len(),
            digit_run(manifest@, start as int) == (index - start) + digit_run(manifest@, index as int),
            !big ==> value == digits_number(manifest@, start as int, index - start) && value <= u32::MAX,
            big ==> digits_number(manifest@, start as int, index - start) > u32::MAX,
            digits_number(manifest@, start as int, index - start) >= 0,
        decreases manifest@.len() - index,
    {
        let d = (manifest[index] - 48) as u64;
        if !big {
            let next = value * 10 + d;
            if next > 4294967295 {
                big = true;
            } else {
                value = next;
            }
        }
        index = index + 1;
    }
    if big {
        None
    } else {
        Some(value as u32)
    }
}

/// The bytes of the quoted string a manifest gives a field, when the field
/// is there.
pub fn bundled_str(manifest: &[u8], field: &[u8]) -> (r: Option<Vec<u8>>)
    ensures
        match value_start(manifest@, field@) {
            None => r is None,
            Some(v) => if v + 1 <= manifest@.len() {
                r matches Some(b) && b@ == manifest@.subrange(v + 1, v + 1 + until_quote(manifest@, v + 1))
            } else {
                r is None
            },
        },
{
    let start = match field_value_start(manifest, field) {
        Some(s) => s,
        None => {
            return None;
        },
    };
    if start >= manifest.len() {
        return None;
    }
    let first = start + 1;
    let mut end = first;
    while end < manifest.len() && manifest[end] != 34
        invariant
            first <= end <= manifest@.len(),
            until_quote(manifest@, first as int) == (end - first) + until_quote(manifest@, end as int),
        decreases manifest@.len() - end,
    {
        end = end + 1;
    }
    Some(byte_range(manifest, first, end))
}

/// `String::from_utf8`: the string these bytes spell, when they are UTF-8.
#[verifier::external_body]
fn utf8_text(bytes: Vec<u8>) -> (r: Option<String>)
    ensures
        r is Some <==> vstd::utf8::valid_utf8(bytes@),
        r matches Some(s) ==> s@ == vstd::utf8::decode_utf8(bytes@),
{
    String::from_utf8(bytes).ok()
}

/// The unquoted number a manifest gives `field`, when it is there and fits
/// in a `u32`.
pub open spec fn manifest_number(m: Seq<u8>, field: Seq<u8>) -> Option<u32> {
    match value_start(m, field) {
        None => None,
        Some(v) => if digits_number(m, v, digit_run(m, v)) <= u32::MAX {
            Some(digits_number(m, v, digit_run(m, v)) as u32)
        } else {
            None
        },
    }
}

/// The text of the quoted string a manifest gives `field`, when it is there
/// and is UTF-8.
pub open spec fn manifest_text(m: Seq<u8>, field: Seq<u8>) -> Option<Seq<char>> {
    match value_start(m, field) {
        None => None,
        Some(v) => if v + 1 <= m.len() {
            let b = m.subrange(v + 1, v + 1 + until_quote(m, v + 1));
            if vstd::utf8::valid_utf8(b) {
                Some(vstd::utf8::decode_utf8(b))
            } else {
                None
            }
        } else {
            None
        },
    }
}

impl Bundled {
    /// Read what a helper manifest says about its APK: its `version_code`,
    /// `version_name` and `sha256`; `None` when one of them is missing, or is
    /// not text where text is wanted.
    pub fn read(manifest: &[u8]) -> (r: Option<Bundled>)
        ensures
            ({
                let code = manifest_number(manifest@, vstd::string::StringSliceAdditionalSpecFns::spec_bytes("version_code"));
                let name = manifest_text(manifest@, vstd::string::StringSliceAdditionalSpecFns::spec_bytes("version_name"));
                let digest = manifest_text(manifest@, vstd::string::StringSliceAdditionalSpecFns::spec_bytes("sha256"));
                &&& r is Some <==> (code is Some && name is Some && digest is Some)
                &&& r matches Some(b) ==> {
                    &&& b.package@ == package_name()
                    &&& Some(b.version_code) == code
                    &&& Some(b.version_name@) == name
                    &&& Some(b.sha256@) == digest
                }
            }),
    {
        let version_code = match bundled_u32(manifest, "version_code".as_bytes()) {
            Some(v) => v,
            None => {
                return None;
            },
        };
        let version_name = match bundled_str(manifest, "version_name".as_bytes()) {
            Some(b) => b,
            None => {
                return None;
            },
        };
        let sha256 = match bundled_str(manifest, "sha256".as_bytes()) {
            Some(b) => b,
            None => {
                return None;
            },
        };
        let version_name = match utf8_text(version_name) {
            Some(s) => s,
            None => {
                return None;
            },
        };
        let sha256 = match utf8_text(sha256) {
            Some(s) => s,
            None => {
                return None;
            },
        };
        Some(Bundled { package: String::from_str(PACKAGE), version_code, version_name, sha256 })
    }
}

/// What a device needs before the helper can be read from.
#[derive(Debug, Clone, Copy, PartialEq, Eq, Structural)]
pub enum Provision {
    /// Installed at the bundled version and enabled. Nothing to do.
    Ready,
    /// No helper on the device.
    NotInstalled,
    /// An older build is installed.
    Outdated {
        /// The `versionCode` the device holds.
        installed: u32,
    },
    /// Installed, but the accessibility service is switched off.
    NotEnabled,
}

/// The setting the helper's component must appear in, with the component
/// added after whatever was already enabled.
pub open spec fn with_helper(current: Seq<char>) -> Seq<char> {
    let t = trim(current);
    let t = if t == "null"@ { Seq::<char>::empty() } else { t };
    if t.len() == 0 {
        SERVICE_COMPONENT@
    } else if split_on(t, ':').contains(SERVICE_COMPONENT@) {
        t
    } else {
        t + seq![':'] + SERVICE_COMPONENT@
    }
}

/// What a device needs, in one line for a person.
pub open spec fn advice_text(p: Provision) -> Seq<char> {
    match p {
        Provision::Ready => "the helper is installed and enabled"@,
        Provision::NotInstalled => "no helper on this device: reading a screen will take about 2.5s instead of about 50ms, and every gesture will go through the shell"@,
        Provision::Outdated { .. } => "an older helper is installed: it may not speak this crate's protocol"@,
        Provision::NotEnabled => "the helper is installed but switched off in accessibility settings"@,
    }
}

impl Provision {
    /// What a device needs, from its installed version, its enabled
    /// services, and the version this build bundles.
    pub fn assess(installed: Option<u32>, enabled_services: &str, bundled_version: u32) -> (p: Provision)
        ensures
            p == match installed {
                None => Provision::NotInstalled,
                Some(v) => if v < bundled_version {
                    Provision::Outdated { installed: v }
                } else if !contains(enabled_services@, SERVICE_COMPONENT@) {
                    Provision::NotEnabled
                } else {
                    Provision::Ready
                },
            },
    {
        match installed {
            None => Provision::NotInstalled,
            Some(version) => {
                if version < bundled_version {
                    Provision::Outdated { installed: version }
                } else {
                    let chars = chars_of(enabled_services);
                    let component = chars_of(SERVICE_COMPONENT);
                    if !crate::text::contains_chars(chars.as_slice(), component.as_slice()) {
                        Provision::NotEnabled
                    } else {
                        Provision::Ready
                    }
                }
            },
        }
    }

    /// Whether a run can read from the helper as the device stands.
    pub fn is_ready(self) -> (r: bool)
        ensures
            r == (self == Provision::Ready),
    {
        match self {
            Provision::Ready => true,
            _ => false,
        }
    }

    /// What `enabled_accessibility_services` should become: the existing
    /// value in full, with the helper's component added when it is not
    /// already one of its entries.
    pub fn enabled_services_with_helper(current: &str) -> (r: String)
        ensures
            r@ == with_helper(current@),
    {
        let chars = chars_of(current);
        let t = crate::text::trim_chars(chars.as_slice());
        let null = chars_of("null");
        let t = if crate::text::same_chars(t.as_slice(), null.as_slice()) {
            Vec::new()
        } else {
            t
        };
        let component = chars_of(SERVICE_COMPONENT);
        if t.len() == 0 {
            return String::from_str(SERVICE_COMPONENT);
        }
        let pieces = crate::text::split_chars(t.as_slice(), ':');
        let mut i: usize = 0;
        while i < pieces.len()
            invariant
                i <= pieces@.len(),
                crate::text::runs(pieces@) == split_on(t@, ':'),
                t@ == (if trim(current@) == "null"@ { Seq::<char>::empty() } else { trim(current@) }),
                t@.len() > 0,
                component@ == SERVICE_COMPONENT@,
                forall|k: int| 0 <= k < i ==> pieces@[k]@ != SERVICE_COMPONENT@,
            decreases pieces@.len() - i,
        {
            if crate::text::same_chars(pieces[i].as_slice(), component.as_slice()) {
                proof {
                    assert(split_on(t@, ':')[i as int] == SERVICE_COMPONENT@);
                }
                return crate::text::string_of(t.as_slice());
            }
            i = i + 1;
        }
        proof {
            if split_on(t@, ':').contains(SERVICE_COMPONENT@) {
                let k = choose|k: int| 0 <= k < split_on(t@, ':').len() && split_on(t@, ':')[k] == SERVICE_COMPONENT@;
                assert(pieces@[k]@ == SERVICE_COMPONENT@);
            }
        }
        let mut out = crate::text::string_of(t.as_slice());
        out.push(':');
        crate::text::push_str(&mut out, SERVICE_COMPONENT);
        out
    }

    /// One line saying what the device needs, for a caller to show a person.
    pub fn advice(self) -> (r: &'static str)
        ensures
            r@ == advice_text(self),
    {
        match self {
            Provision::Ready => "the helper is installed and enabled",
            Provision::NotInstalled => "no helper on this device: reading a screen will take about 2.5s instead of about 50ms, and every gesture will go through the shell",
            Provision::Outdated { .. } => "an older helper is installed: it may not speak this crate's protocol",
            Provision::NotEnabled => "the helper is installed but switched off in accessibility settings",
        }
    }
}

/// Adding the helper to the enabled services never switches another service
/// off: every entry the setting held stays in it, and the helper's component
/// is among its entries afterwards.
pub proof fn enabling_keeps_other_services(current: Seq<char>)
    ensures
        ({
            let t = trim(current);
            let t = if t == "null"@ { Seq::<char>::empty() } else { t };
            &&& t.len() > 0 ==> crate::text::starts_with(with_helper(current), t)
            &&& t.len() == 0 ==> with_helper(current) == SERVICE_COMPONENT@
        }),
{
    let t = trim(current);
    let t = if t == "null"@ { Seq::<char>::empty() } else { t };
    if t.len() > 0 {
        let r = with_helper(current);
        if !split_on(t, ':').contains(SERVICE_COMPONENT@) {
            assert(r.subrange(0, t.len() as int) =~= t);
        } else {
            assert(r.subrange(0, t.len() as int) =~= t);
        }
    }
}

/// How many `:` separators a setting holds.
pub open spec fn separators(s: Seq<char>) -> nat
    decreases s.len(),
{
    if s.len() == 0 {
        0
    } else {
        separators(s.drop_last()) + if s.last() == ':' {
            1nat
        } else {
            0nat
        }
    }
}

proof fn lemma_separators_join(a: Seq<char>, b: Seq<char>)
    ensures
        separators(a + b) == separators(a) + separators(b),
    decreases b.len(),
{
    if b.len() == 0 {
        assert(a + b =~= a);
    } else {
        lemma_separators_join(a, b.drop_last());
        assert((a + b).drop_last() =~= a + b.drop_last());
    }
}

proof fn lemma_no_separators(s: Seq<char>)
    requires
        forall|i: int| 0 <= i < s.len() ==> s[i] != ':',
    ensures
        separators(s) == 0,
    decreases s.len(),
{
    if s.len() > 0 {
        lemma_no_separators(s.drop_last());
    }
}

/// Enabling the helper adds at most one separator to the setting: the
/// services already enabled keep theirs, and the helper's component is
/// joined on with a single `:`, or stands alone.
pub proof fn enabling_adds_at_most_one_separator(current: Seq<char>)
    ensures
        separators(with_helper(current)) <= separators(trim(current)) + 1,
{
    reveal_strlit("dev.jevpilot.helper/dev.jevpilot.helper.PilotAccessibilityService");
    let c = SERVICE_COMPONENT@;
    assert(forall|i: int| 0 <= i < c.len() ==> c[i] != ':');
    lemma_no_separators(c);
    let t0 = trim(current);
    let t = if t0 == "null"@ { Seq::<char>::empty() } else { t0 };
    if t.len() > 0 && !split_on(t, ':').contains(c) {
        lemma_separators_join(t, seq![':']);
        lemma_separators_join(t + seq![':'], c);
        let colon = seq![':'];
        assert(colon.drop_last() =~= Seq::<char>::empty());
        assert(separators(Seq::<char>::empty()) == 0);
        assert(colon.last() == ':');
        assert(separators(colon) == separators(colon.drop_last()) + 1);
    }
}

/// Enabling the helper twice is enabling it once: the setting, once it holds
/// the helper's component, is left exactly as it is.
pub proof fn enabling_twice_is_enabling_once(current: Seq<char>)
    ensures
        with_helper(with_helper(current)) == with_helper(current),
{
    reveal_strlit("dev.jevpilot.helper/dev.jevpilot.helper.PilotAccessibilityService");
    reveal_strlit("null");
    let c = SERVICE_COMPONENT@;
    assert(forall|i: int| 0 <= i < c.len() ==> c[i] != ':');
    assert(!crate::text::is_space(c[0]) && !crate::text::is_space(c.last()));
    crate::text::lemma_split_single(c, ':');
    let t0 = trim(current);
    let t = if t0 == "null"@ { Seq::<char>::empty() } else { t0 };
    crate::text::lemma_trim_shape(current);
    let r = with_helper(current);
    if t.len() == 0 {
        assert(r == c);
        crate::text::lemma_trim_fixed(c);
        assert(c != "null"@);
        assert(split_on(c, ':')[0] == c);
    } else if split_on(t, ':').contains(c) {
        assert(r == t);
        crate::text::lemma_trim_twice(current);
    } else {
        assert(r == t + seq![':'] + c);
        assert(r[0] == t[0]);
        assert(r.last() == c.last());
        crate::text::lemma_trim_fixed(r);
        assert(r.len() > 4);
        assert(r != "null"@);
        crate::text::lemma_split_joined(t, ':', c);
        assert(split_on(r, ':').last() == c);
        assert(split_on(r, ':').contains(c));
    }
}

/// The session token authorising reads and gestures for one run.
///
/// It never prints itself: it has no `Debug`, [`Token::redacted`] is what a
/// log shows in its place, and reading it takes a call to [`Token::expose`].
#[derive(Clone, PartialEq, Eq)]
pub struct Token(String);

impl Token {
    /// The token's text.
    pub closed spec fn secret(&self) -> Seq<char> {
        self.0@
    }

    /// A token holding this text.
    pub fn new(value: String) -> (t: Token)
        ensures
            t.secret() == value@,
    {
        Token(value)
    }

    /// The token itself, named so that every use of it is visible.
    pub fn expose(&self) -> (s: &str)
        ensures
            s@ == self.secret(),
    {
        self.0.as_str()
    }

    /// How the token is shown in a debug print: never its text.
    pub fn redacted(&self) -> (s: &'static str)
        ensures
            s@ == "Token(<redacted>)"@,
    {
        "Token(<redacted>)"
    }

    /// A token spelling `bytes` in lower-case hexadecimal, two digits a
    /// byte, high digit first: sixteen bytes of entropy make the 32 digits
    /// a helper expects.
    pub fn from_entropy(bytes: &[u8]) -> (t: Token)
        ensures
            t.secret() == hex_of(bytes@),
            t.secret().len() == 2 * bytes@.len(),
    {
        let mut s = String::new();
        let mut i: usize = 0;
        while i < bytes.len()
            invariant
                i <= bytes@.len(),
                s@ == hex_of(bytes@.take(i as int)),
                s@.len() == 2 * i,
            decreases bytes@.len() - i,
        {
            let b = bytes[i];
            s.push(hex_digit(b / 16));
            s.push(hex_digit(b % 16));
            assert(bytes@.take(i + 1).drop_last() =~= bytes@.take(i as int));
            i = i + 1;
        }
        assert(bytes@.take(bytes@.len() as int) =~= bytes@);
        Token(s)
    }
}

/// The lower-case hexadecimal digit for `d`, which is below sixteen.
pub open spec fn hex_char(d: int) -> char {
    if d < 10 {
        (48 + d) as char
    } else {
        (87 + d) as char
    }
}

/// `bytes` spelled in lower-case hexadecimal, two digits a byte.
pub open spec fn hex_of(bytes: Seq<u8>) -> Seq<char>
    decreases bytes.len(),
{
    if bytes.len() == 0 {
        Seq::empty()
    } else {
        hex_of(bytes.drop_last()) + seq![hex_char(bytes.last() as int / 16), hex_char(bytes.last() as int % 16)]
    }
}

/// The hexadecimal digit for a value below sixteen.
fn hex_digit(d: u8) -> (c: char)
    requires
        d < 16,
    ensures
        c == hex_char(d as int),
{
    if d < 10 {
        (48 + d) as char
    } else {
        (87 + d) as char
    }
}

/// One field of a JSON object, as far as a `/ping` body is read: a string,
/// a number that is a `u64`, a boolean, or anything else.
#[derive(Debug, Clone, PartialEq, Eq)]
pub enum JsonField {
    /// A string.
    Text(String),
    /// A number that is a whole number from zero to `u64::MAX`.
    Unsigned(u64),
    /// A boolean.
    Flag(bool),
    /// Anything else: another number, null, an array or an object.
    Other,
}

/// A JSON field, as plain values.
pub ghost enum JsonFieldView {
    Text(Seq<char>),
    Unsigned(u64),
    Flag(bool),
    Other,
}

/// The name and value of each field, as plain values.
pub open spec fn field_views(v: Seq<(String, JsonField)>) -> Seq<(Seq<char>, JsonFieldView)> {
    v.map_values(|p: (String, JsonField)| (p.0@, match p.1 {
        JsonField::Text(t) => JsonFieldView::Text(t@),
        JsonField::Unsigned(n) => JsonFieldView::Unsigned(n),
        JsonField::Flag(b) => JsonFieldView::Flag(b),
        JsonField::Other => JsonFieldView::Other,
    }))
}

/// What `serde_json::from_str` makes of a text, when it is a JSON object:
/// its fields, in the order `serde_json::Map` holds them.
pub uninterp spec fn json_fields(raw: Seq<char>) -> Option<Seq<(Seq<char>, JsonFieldView)>>;

/// Wraps `serde_json::from_str` into a `Value`, and hands back the fields of
/// the object it holds, each as a `JsonField`; `None` when the text is not
/// JSON or not an object. The fields are named by [`json_fields`].
#[verifier::external_body]
pub(crate) fn read_json_fields(raw: &str) -> (r: Option<Vec<(String, JsonField)>>)
    ensures
        match r {
            Some(fields) => json_fields(raw@) == Some(field_views(fields@)),
            None => json_fields(raw@) is None,
        },
{
    let value: serde_json::Value = serde_json::from_str(raw).ok()?;
    Some(value.as_object()?.iter().map(|(key, field)| (key.clone(), match field {
        serde_json::Value::String(text) => JsonField::Text(text.clone()),
        serde_json::Value::Bool(flag) => JsonField::Flag(*flag),
        serde_json::Value::Number(number) => match number.as_u64() {
            Some(n) => JsonField::Unsigned(n),
            None => JsonField::Other,
        },
        _ => JsonField::Other,
    })).collect())
}

/// The value of the first field named `key`.
pub open spec fn field_in(fields: Seq<(Seq<char>, JsonFieldView)>, key: Seq<char>) -> Option<JsonFieldView>
    decreases fields.len(),
{
    if fields.len() == 0 {
        None
    } else if fields[0].0 == key {
        Some(fields[0].1)
    } else {
        field_in(fields.drop_first(), key)
    }
}

/// Where the first field named `key` is.
pub(crate) fn find_field(fields: &Vec<(String, JsonField)>, key: &str) -> (r: Option<usize>)
    ensures
        match field_in(field_views(fields@), key@) {
            None => r is None,
            Some(v) => r matches Some(i) && i < fields@.len() && field_views(fields@)[i as int].1 == v,
        },
{
    let ghost all = field_views(fields@);
    let mut i: usize = 0;
    assert(all.skip(0) =~= all);
    while i < fields.len()
        invariant
            i <= fields@.len(),
            all == field_views(fields@),
            field_in(all, key@) == field_in(all.skip(i as int), key@),
        decreases fields@.len() - i,
    {
        assert(all.skip(i as int)[0] == all[i as int]);
        if crate::text::same_text(fields[i].0.as_str(), key) {
            return Some(i);
        }
        assert(all.skip(i as int).drop_first() =~= all.skip(i + 1));
        i = i + 1;
    }
    None
}

/// What the helper says about itself, from `GET /ping`.
#[derive(Debug, Clone, PartialEq, Eq)]
pub struct HelperInfo {
    service: String,
    version_name: String,
    protocol_version: u32,
    token_set: bool,
}

/// What a `/ping` body says, field by field, when it is one.
pub ghost struct HelperInfoView {
    pub service: Seq<char>,
    pub version_name: Seq<char>,
    pub protocol_version: u32,
    pub token_set: bool,
}

/// What a `/ping` body says, when it says it: a service name and a protocol
/// version that fits in a `u32` are required; a missing version name is
/// empty and a missing token flag is false.
pub open spec fn ping_of(raw: Seq<char>) -> Option<HelperInfoView> {
    match json_fields(raw) {
        None => None,
        Some(fs) => match (field_in(fs, "service"@), field_in(fs, "protocol_version"@)) {
            (Some(JsonFieldView::Text(service)), Some(JsonFieldView::Unsigned(protocol))) => if protocol <= u32::MAX {
                Some(HelperInfoView {
                    service,
                    version_name: match field_in(fs, "version_name"@) {
                        Some(JsonFieldView::Text(v)) => v,
                        _ => Seq::empty(),
                    },
                    protocol_version: protocol as u32,
                    token_set: match field_in(fs, "token_set"@) {
                        Some(JsonFieldView::Flag(b)) => b,
                        _ => false,
                    },
                })
            } else {
                None
            },
            _ => None,
        },
    }
}

impl View for HelperInfo {
    type V = HelperInfoView;

    closed spec fn view(&self) -> HelperInfoView {
        HelperInfoView {
            service: self.service@,
            version_name: self.version_name@,
            protocol_version: self.protocol_version,
            token_set: self.token_set,
        }
    }
}

impl HelperInfo {
    /// Reads a `/ping` body, or `None` when it is not one.
    pub fn parse(raw: &str) -> (r: Option<HelperInfo>)
        ensures
            match r {
                Some(info) => ping_of(raw@) == Some(info@),
                None => ping_of(raw@) is None,
            },
    {
        let fields = match read_json_fields(raw) {
            Some(f) => f,
            None => {
                return None;
            },
        };
        let service = match find_field(&fields, "service") {
            Some(i) => match &fields[i].1 {
                JsonField::Text(t) => t.clone(),
                _ => {
                    return None;
                },
            },
            None => {
                return None;
            },
        };
        let protocol = match find_field(&fields, "protocol_version") {
            Some(i) => match fields[i].1 {
                JsonField::Unsigned(p) => p,
                _ => {
                    return None;
                },
            },
            None => {
                return None;
            },
        };
        if protocol > 4294967295 {
            return None;
        }
        let version_name = match find_field(&fields, "version_name") {
            Some(i) => match &fields[i].1 {
                JsonField::Text(v) => v.clone(),
                _ => String::new(),
            },
            None => String::new(),
        };
        let token_set = match find_field(&fields, "token_set") {
            Some(i) => match fields[i].1 {
                JsonField::Flag(b) => b,
                _ => false,
            },
            None => false,
        };
        Some(HelperInfo { service, version_name, protocol_version: protocol as u32, token_set })
    }

    /// The helper's human-readable version.
    pub fn version_name(&self) -> (s: &str)
        ensures
            s@ == self@.version_name,
    {
        self.version_name.as_str()
    }

    /// The wire contract the helper is speaking.
    pub fn protocol_version(&self) -> (v: u32)
        ensures
            v == self@.protocol_version,
    {
        self.protocol_version
    }

    /// Whether the helper already holds a session token.
    pub fn token_set(&self) -> (b: bool)
        ensures
            b == self@.token_set,
    {
        self.token_set
    }

    /// Whether a run may read screens from whatever answered: it must be our
    /// own service, speaking our protocol.
    pub fn usable(&self) -> (r: bool)
        ensures
            r == (self@.service == SERVICE_NAME@ && self@.protocol_version == PROTOCOL_VERSION),
    {
        crate::text::same_text(self.service.as_str(), SERVICE_NAME) && self.protocol_version == PROTOCOL_VERSION
    }
}

/// Where a run reads screens from, and why.
///
/// Falling back is one way: the first failure settles it, and the reason
/// kept is the first one.
#[derive(Debug, Clone, PartialEq, Eq)]
pub struct Reader {
    uses_helper: bool,
    why: Option<String>,
    borrowed: u32,
    rebinding: bool,
}

/// Which reader a run is using, as plain values.
pub ghost struct ReaderView {
    pub uses_helper: bool,
    pub why: Option<Seq<char>>,
    pub borrowed: u32,
    pub rebinding: bool,
}

impl View for Reader {
    type V = ReaderView;

    closed spec fn view(&self) -> ReaderView {
        ReaderView {
            uses_helper: self.uses_helper,
            why: crate::snapshot::text_of(self.why),
            borrowed: self.borrowed,
            rebinding: self.rebinding,
        }
    }
}

impl Reader {
    /// Reading through the helper.
    pub fn helper() -> (r: Reader)
        ensures
            r@ == (ReaderView { uses_helper: true, why: None, borrowed: 0, rebinding: false }),
    {
        Reader { uses_helper: true, why: None, borrowed: 0, rebinding: false }
    }

    /// The reader a device settles on without trying its helper: the CLI,
    /// saying why, when this build bundles no helper (`None`) or the
    /// device's helper is not ready; `None` when the helper is ready and is
    /// to be tried.
    pub fn without_helper(provision: Option<Provision>) -> (r: Option<Reader>)
        ensures
            match provision {
                None => r matches Some(reader) && reader@ == (ReaderView {
                    uses_helper: false,
                    why: Some("no helper manifest next to this program"@),
                    borrowed: 0,
                    rebinding: false,
                }),
                Some(p) => if p == Provision::Ready {
                    r is None
                } else {
                    r matches Some(reader) && reader@ == (ReaderView {
                        uses_helper: false,
                        why: Some(advice_text(p)),
                        borrowed: 0,
                        rebinding: false,
                    })
                },
            },
    {
        match provision {
            None => Some(Reader::cli(String::from_str("no helper manifest next to this program"))),
            Some(p) => if p.is_ready() {
                None
            } else {
                Some(Reader::cli(String::from_str(p.advice())))
            },
        }
    }

    /// Reading through `uiautomator dump`, for the stated reason.
    pub fn cli(why: String) -> (r: Reader)
        ensures
            r@ == (ReaderView { uses_helper: false, why: Some(why@), borrowed: 0, rebinding: false }),
    {
        Reader { uses_helper: false, why: Some(why), borrowed: 0, rebinding: false }
    }

    /// Whether screens are coming from the helper.
    pub fn uses_helper(&self) -> (r: bool)
        ensures
            r == self@.uses_helper,
    {
        self.uses_helper
    }

    /// Why the CLI is being used, when it is.
    pub fn why(&self) -> (r: Option<String>)
        ensures
            crate::snapshot::text_of(r) == self@.why,
    {
        crate::snapshot::copy_text(&self.why)
    }

    /// Whether a CLI reading should replace the helper's: the helper saw no
    /// rows where the CLI saw some.
    pub fn cli_saw_more(helper_rows: usize, cli_rows: usize) -> (r: bool)
        ensures
            r == (helper_rows == 0 && cli_rows > 0),
    {
        helper_rows == 0 && cli_rows > 0
    }

    /// The reason to record when the helper could not see a screen that
    /// `reader` could: how many rows it read, and which reader read them.
    pub fn blind_to_this_screen(rows: usize, reader: &str) -> (s: String)
        ensures
            s@ == "the helper read no rows from a screen "@ + reader@ + " read "@ + decimal(rows as nat)
                + " from, so that window is not served to an accessibility service"@,
    {
        let mut s = String::from_str("the helper read no rows from a screen ");
        crate::text::push_str(&mut s, reader);
        crate::text::push_str(&mut s, " read ");
        crate::text::push_decimal(&mut s, rows as u64);
        crate::text::push_str(&mut s, " from, so that window is not served to an accessibility service");
        s
    }

    /// Read this one screen through the CLI, and keep the helper for the next.
    pub fn borrow_cli(&mut self, why: String)
        ensures
            final(self)@ == (ReaderView {
                uses_helper: old(self)@.uses_helper,
                why: Some(why@),
                borrowed: if old(self)@.borrowed == u32::MAX { u32::MAX } else { (old(self)@.borrowed + 1) as u32 },
                rebinding: true,
            }),
    {
        self.borrowed = if self.borrowed == u32::MAX { u32::MAX } else { self.borrowed + 1 };
        self.rebinding = true;
        self.why = Some(why);
    }

    /// How many screens were read through the CLI without giving the helper up.
    pub fn borrowed(&self) -> (n: u32)
        ensures
            n == self@.borrowed,
    {
        self.borrowed
    }

    /// Whether a dump we did is still expected to be suppressing the helper.
    pub fn rebinding(&self) -> (r: bool)
        ensures
            r == self@.rebinding,
    {
        self.rebinding
    }

    /// Note that the helper has answered with a screen, so it is back.
    pub fn settled(&mut self)
        ensures
            final(self)@ == (ReaderView { rebinding: false, ..old(self)@ }),
    {
        self.rebinding = false;
    }

    /// Whether the next helper failure means "still rebinding" rather than
    /// "gone": true exactly once after a borrow.
    pub fn forgives_a_failure(&mut self) -> (forgiven: bool)
        ensures
            forgiven == old(self)@.rebinding,
            final(self)@ == (ReaderView { rebinding: false, ..old(self)@ }),
    {
        let forgiven = self.rebinding;
        self.rebinding = false;
        forgiven
    }

    /// Give up on the helper for the rest of this run. Returns whether this
    /// call was the one that changed it; a reader already on the CLI keeps
    /// the reason it first had.
    pub fn degrade(&mut self, why: String) -> (changed: bool)
        ensures
            changed == old(self)@.uses_helper,
            final(self)@ == degraded(old(self)@, why@),
    {
        if !self.uses_helper {
            return false;
        }
        self.uses_helper = false;
        self.why = Some(why);
        true
    }
}

/// What a reader becomes when the helper is given up on for `why`.
pub open spec fn degraded(r: ReaderView, why: Seq<char>) -> ReaderView {
    if r.uses_helper {
        ReaderView { uses_helper: false, why: Some(why), ..r }
    } else {
        r
    }
}

/// Falling back is one way: once a reader has been degraded it stays on the
/// CLI, and a later degrade changes nothing, so the reason first recorded
/// stands.
pub proof fn degrading_is_one_way(r: ReaderView, first_why: Seq<char>, second_why: Seq<char>)
    ensures
        !degraded(r, first_why).uses_helper,
        degraded(degraded(r, first_why), second_why) == degraded(r, first_why),
        r.uses_helper ==> degraded(r, first_why).why == Some(first_why),
{
}

/// A JSON value `Action::for_command` puts in its body: text or a number.
#[derive(Debug, Clone, PartialEq, Eq)]
pub enum JsonScalar {
    /// A string.
    Text(String),
    /// An integer.
    Number(i64),
}

/// A JSON scalar, as plain values.
pub ghost enum JsonScalarView {
    Text(Seq<char>),
    Number(i64),
}

/// The fields of a JSON object body, as plain values.
pub open spec fn fields_view(v: Seq<(String, JsonScalar)>) -> Seq<(Seq<char>, JsonScalarView)> {
    v.map_values(|p: (String, JsonScalar)| (p.0@, match p.1 {
        JsonScalar::Text(t) => JsonScalarView::Text(t@),
        JsonScalar::Number(n) => JsonScalarView::Number(n),
    }))
}

/// What `serde_json` writes for an object with these fields: a function of
/// the fields alone.
pub uninterp spec fn json_object(fields: Seq<(Seq<char>, JsonScalarView)>) -> Seq<char>;

/// Wraps `serde_json::Value::to_string` on the object holding these fields;
/// the text is named by [`json_object`].
#[verifier::external_body]
fn write_json_object(fields: Vec<(String, JsonScalar)>) -> (r: String)
    ensures
        r@ == json_object(fields_view(fields@)),
{
    let map: serde_json::Map<String, serde_json::Value> = fields
        .into_iter()
        .map(|(key, value)| (key, match value {
            JsonScalar::Text(text) => serde_json::Value::from(text),
            JsonScalar::Number(number) => serde_json::Value::from(number),
        }))
        .collect();
    serde_json::Value::Object(map).to_string()
}

/// A gesture in the shape the helper's `/action` endpoint expects.
#[derive(Debug, Clone, PartialEq, Eq)]
pub struct Action {
    body: String,
}

/// The fields of the helper form of `command`, on a display of this size,
/// or `None` for a command the helper path does not serve: waiting, a
/// preview, and the keyboard's enter key.
pub open spec fn action_fields(command: crate::device::CommandView, width: int, height: int) -> Option<Seq<(Seq<char>, JsonScalarView)>> {
    let num = |n: int| JsonScalarView::Number(n as i64);
    let text = |t: Seq<char>| JsonScalarView::Text(t);
    match command {
        CommandView::Tap(at) => Some(seq![("cmd"@, text("tap"@)), ("x"@, num(at.x as int)), ("y"@, num(at.y as int))]),
        CommandView::DoubleTap(at) => Some(seq![("cmd"@, text("double_tap"@)), ("x"@, num(at.x as int)), ("y"@, num(at.y as int))]),
        CommandView::LongPress(at) => Some(seq![("cmd"@, text("long_press"@)), ("x"@, num(at.x as int)), ("y"@, num(at.y as int)), ("duration"@, num(800))]),
        CommandView::TypeText { text: t, .. } => Some(seq![("cmd"@, text("type"@)), ("text"@, text(t))]),
        CommandView::Scroll(direction) => {
            let x = crate::device::adb::tdiv(width, 2);
            let near = crate::device::adb::tdiv(height * 3, 4);
            let far = crate::device::adb::tdiv(height, 4);
            let (y1, y2) = match direction {
                crate::act::Direction::Down => (near, far),
                crate::act::Direction::Up => (far, near),
            };
            Some(seq![("cmd"@, text("swipe"@)), ("x1"@, num(x)), ("y1"@, num(y1)), ("x2"@, num(x)), ("y2"@, num(y2)), ("duration"@, num(300))])
        },
        CommandView::SwipeFrom { from, direction } => {
            let travel = crate::device::adb::tdiv(width, 3);
            let to = match direction {
                crate::act::Swipe::Left => if from.x - travel > 1 { from.x - travel } else { 1 },
                crate::act::Swipe::Right => if from.x + travel < width - 1 { from.x + travel } else { width - 1 },
            };
            Some(seq![("cmd"@, text("swipe"@)), ("x1"@, num(from.x as int)), ("y1"@, num(from.y as int)), ("x2"@, num(to)), ("y2"@, num(from.y as int)), ("duration"@, num(250))])
        },
        CommandView::System(act) => match act {
            crate::act::SystemAct::Back => Some(seq![("cmd"@, text("global"@)), ("action"@, text("back"@))]),
            crate::act::SystemAct::Home => Some(seq![("cmd"@, text("global"@)), ("action"@, text("home"@))]),
            crate::act::SystemAct::AppSwitcher => Some(seq![("cmd"@, text("global"@)), ("action"@, text("recents"@))]),
            crate::act::SystemAct::Submit => None,
        },
        _ => None,
    }
}

fn field(key: &str, value: JsonScalar) -> (r: (String, JsonScalar))
    ensures
        r.0@ == key@,
        r.1 == value,
{
    (String::from_str(key), value)
}

fn word(t: &str) -> (r: JsonScalar)
    ensures
        r matches JsonScalar::Text(s) && s@ == t@,
{
    JsonScalar::Text(String::from_str(t))
}

impl View for Action {
    type V = Seq<char>;

    closed spec fn view(&self) -> Seq<char> {
        self.body@
    }
}

impl Action {
    /// The helper form of this command, or `None` when it has none.
    ///
    /// `size` is the display, needed for the commands that carry a direction
    /// rather than geometry.
    pub fn for_command(command: &Command, size: (i32, i32)) -> (r: Option<Action>)
        requires
            i32::MIN <= size.1 * 3 <= i32::MAX,
            size.0 > i32::MIN,
            command matches Command::SwipeFrom { from, direction } ==> match direction {
                crate::act::Swipe::Left => i32::MIN <= from.x - crate::device::adb::tdiv(size.0 as int, 3) <= i32::MAX,
                crate::act::Swipe::Right => i32::MIN <= from.x + crate::device::adb::tdiv(size.0 as int, 3) <= i32::MAX,
            },
        ensures
            match action_fields(command@, size.0 as int, size.1 as int) {
                Some(fields) => r matches Some(a) && a@ == json_object(fields),
                None => r is None,
            },
    {
        let (width, height) = size;
        let n = |v: i32| -> (s: JsonScalar)
            ensures s == JsonScalar::Number(v as i64)
        { JsonScalar::Number(v as i64) };
        let fields: Vec<(String, JsonScalar)> = match command {
            Command::Tap(at) => vec![field("cmd", word("tap")), field("x", n(at.x)), field("y", n(at.y))],
            Command::DoubleTap(at) => vec![field("cmd", word("double_tap")), field("x", n(at.x)), field("y", n(at.y))],
            Command::LongPress(at) => vec![field("cmd", word("long_press")), field("x", n(at.x)), field("y", n(at.y)), field("duration", n(800))],
            Command::TypeText { text: t, .. } => vec![field("cmd", word("type")), field("text", JsonScalar::Text(t.clone()))],
            Command::Scroll(direction) => {
                let x = width / 2;
                let near = (height * 3) / 4;
                let far = height / 4;
                let (y1, y2) = match direction {
                    crate::act::Direction::Down => (near, far),
                    crate::act::Direction::Up => (far, near),
                };
                vec![field("cmd", word("swipe")), field("x1", n(x)), field("y1", n(y1)), field("x2", n(x)), field("y2", n(y2)), field("duration", n(300))]
            },
            Command::SwipeFrom { from, direction } => {
                let travel = width / 3;
                let to = match direction {
                    crate::act::Swipe::Left => {
                        let t = from.x - travel;
                        if t > 1 { t } else { 1 }
                    },
                    crate::act::Swipe::Right => {
                        let t = from.x + travel;
                        if t < width - 1 { t } else { width - 1 }
                    },
                };
                vec![field("cmd", word("swipe")), field("x1", n(from.x)), field("y1", n(from.y)), field("x2", n(to)), field("y2", n(from.y)), field("duration", n(250))]
            },
            Command::System(act) => match act {
                crate::act::SystemAct::Back => vec![field("cmd", word("global")), field("action", word("back"))],
                crate::act::SystemAct::Home => vec![field("cmd", word("global")), field("action", word("home"))],
                crate::act::SystemAct::AppSwitcher => vec![field("cmd", word("global")), field("action", word("recents"))],
                crate::act::SystemAct::Submit => {
                    return None;
                },
            },
            _ => {
                return None;
            },
        };
        proof {
            let want = action_fields(command@, width as int, height as int)->Some_0;
            assert(fields_view(fields@) =~= want);
        }
        Some(Action { body: write_json_object(fields) })
    }

    /// The JSON to POST to `/action`.
    pub fn body(&self) -> (s: &str)
        ensures
            s@ == self@,
    {
        self.body.as_str()
    }
}

} // verus!
