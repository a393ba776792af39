//! Driving an Android device through `adb`: the argument vectors of every
//! invocation, and what its answers say.
//!
//! Building an invocation is separated from running one, so the escaping
//! rules that actually bite — remote shell quoting, the ASCII limit of
//! `input text` — are stated and proved here without a phone.
use crate::act::{Direction, Swipe, SystemAct};
use crate::snapshot::{texts, Point};
use crate::text::{
    chars_of, decimal, first_from, is_digit, last_occurrence, lines, lines_of, parse_i32,
    parse_u16, parse_u32, push_decimal, push_signed, runs, signed_decimal, starts_with, trim,
    trim_start, words, words_of,
};
use vstd::prelude::*;

verus! {

/// A device reachable over `adb`.
#[derive(Debug, Clone)]
pub struct Adb {
    serial: String,
}

/// Text that `input text` cannot deliver.
#[derive(Debug, Clone, Copy, PartialEq, Eq, Structural)]
pub enum TextError {
    /// The string contains characters outside ASCII.
    NotAscii {
        /// The first character that cannot be typed.
        offender: char,
    },
}

/// A dump failure `uiautomator` reports in prose rather than in its status.
#[derive(Debug, Clone, Copy, PartialEq, Eq, Structural)]
pub enum DumpFailure {
    /// The screen never stopped animating long enough to be read.
    NeverSettled,
    /// There was no readable window, which usually means a locked screen.
    NoActiveWindow,
}

/// How the device is navigated, which decides how the app switcher is reached.
#[derive(Debug, Clone, Copy, PartialEq, Eq, Structural)]
pub enum Navigation {
    /// Three-button or two-button navigation.
    Buttons,
    /// Gesture navigation, where there is no recents key binding.
    Gesture,
}

/// An argument vector pinned to one device: `-s <serial>` first.
pub open spec fn pinned(serial: Seq<char>, rest: Seq<Seq<char>>) -> Seq<Seq<char>> {
    seq!["-s"@, serial] + rest
}

/// `a / b` rounded towards zero, as Rust divides an `i32`.
pub open spec fn tdiv(a: int, b: int) -> int {
    if a >= 0 {
        a / b
    } else {
        -((-a) / b)
    }
}

/// `text` with every `'` closed, escaped and reopened.
pub open spec fn quote_body(text: Seq<char>) -> Seq<char>
    decreases text.len(),
{
    if text.len() == 0 {
        Seq::empty()
    } else {
        quote_body(text.drop_last()) + if text.last() == '\'' {
            seq!['\'', '\\', '\'', '\'']
        } else {
            seq![text.last()]
        }
    }
}

/// `text` quoted so the device's shell sees it as one literal argument.
pub open spec fn quoted(text: Seq<char>) -> Seq<char> {
    seq!['\''] + quote_body(text) + seq!['\'']
}

/// Whether a character is ASCII.
pub open spec fn is_ascii_char(c: char) -> bool {
    (c as u32) < 128
}

/// Where the first character outside ASCII stands, if there is one.
pub open spec fn first_non_ascii(s: Seq<char>, from: int) -> Option<int>
    decreases s.len() - from,
{
    if from < 0 || from >= s.len() {
        None
    } else if !is_ascii_char(s[from]) {
        Some(from)
    } else {
        first_non_ascii(s, from + 1)
    }
}

/// The first line, from `i` on, that starts with `label` once its leading
/// white space is set aside.
pub open spec fn line_starting(ls: Seq<Seq<char>>, label: Seq<char>, i: int) -> Option<int>
    decreases ls.len() - i,
{
    if i < 0 || i >= ls.len() {
        None
    } else if starts_with(trim_start(ls[i]), label) {
        Some(i)
    } else {
        line_starting(ls, label, i + 1)
    }
}

/// A `wm size` line's `<width>x<height>`, read after its last `:`.
pub open spec fn size_in_line(line: Seq<char>) -> Option<(i32, i32)> {
    match last_occurrence(line, seq![':']) {
        None => None,
        Some(colon) => {
            let rest = trim(line.subrange(colon + 1, line.len() as int));
            match first_from(rest, seq!['x'], 0) {
                None => None,
                Some(x) => match (
                    parse_i32(trim(rest.subrange(0, x))),
                    parse_i32(trim(rest.subrange(x + 1, rest.len() as int))),
                ) {
                    (Some(w), Some(h)) => Some((w, h)),
                    _ => None,
                },
            }
        },
    }
}

/// The size on the first line labelled `label`, if that line has one.
pub open spec fn labelled_size(raw: Seq<char>, label: Seq<char>) -> Option<(i32, i32)> {
    let ls = lines_of(raw);
    match line_starting(ls, label, 0) {
        Some(i) => size_in_line(ls[i]),
        None => None,
    }
}

/// The digits at the start of `s`.
pub open spec fn leading_digits(s: Seq<char>) -> Seq<char>
    decreases s.len(),
{
    if s.len() > 0 && is_digit(s[0]) {
        seq![s[0]] + leading_digits(s.drop_first())
    } else {
        Seq::empty()
    }
}

/// The first line, from `i` on, whose first three words name this serial
/// and, third, the remote `tcp:` port.
pub open spec fn forward_line(ls: Seq<Seq<char>>, serial: Seq<char>, remote: Seq<char>, i: int) -> Option<int>
    decreases ls.len() - i,
{
    if i < 0 || i >= ls.len() {
        None
    } else if words_of(ls[i]).len() >= 3 && words_of(ls[i])[0] == serial && words_of(ls[i])[2] == remote {
        Some(i)
    } else {
        forward_line(ls, serial, remote, i + 1)
    }
}

/// The port in a `tcp:<port>` word.
pub open spec fn tcp_port(word: Seq<char>) -> Option<u16> {
    if starts_with(word, "tcp:"@) {
        parse_u16(word.skip(4))
    } else {
        None
    }
}

/// Where the lines after `adb devices`' header begin.
pub open spec fn after_header(ls: Seq<Seq<char>>, i: int) -> int
    decreases ls.len() - i,
{
    if 0 <= i < ls.len() && starts_with(ls[i], "List of devices"@) {
        after_header(ls, i + 1)
    } else {
        i
    }
}

/// The serials, among lines `from` to `to`, of those reading
/// `<serial>\t<state>` with the state `device`.
pub open spec fn ready_serials(ls: Seq<Seq<char>>, from: int, to: int) -> Seq<Seq<char>>
    decreases to - from,
{
    if to <= from || to > ls.len() || from < 0 {
        Seq::empty()
    } else {
        let rest = ready_serials(ls, from, to - 1);
        match ready_serial(ls[to - 1]) {
            Some(serial) => rest.push(serial),
            None => rest,
        }
    }
}

/// The serial on a `<serial>\t<state>` line whose state is `device`.
pub open spec fn ready_serial(line: Seq<char>) -> Option<Seq<char>> {
    match first_from(line, seq!['\t'], 0) {
        Some(tab) => if trim(line.subrange(tab + 1, line.len() as int)) == "device"@ {
            Some(trim(line.subrange(0, tab)))
        } else {
            None
        },
        None => None,
    }
}

/// A string holding these characters.
fn arg(s: &str) -> (r: String)
    ensures
        r@ == s@,
{
    String::from_str(s)
}

/// The decimal spelling of a coordinate.
fn num(n: i32) -> (r: String)
    ensures
        r@ == signed_decimal(n as int),
{
    crate::text::signed_text(n as i64)
}

/// `n / d` rounded towards zero.
fn div_toward_zero(n: i32, d: i32) -> (q: i32)
    requires
        d > 0,
    ensures
        q == tdiv(n as int, d as int),
{
    let wide: i64 = n as i64;
    let q: i64 = if wide >= 0 {
        wide / (d as i64)
    } else {
        -((-wide) / (d as i64))
    };
    q as i32
}

impl Adb {
    /// The serial every invocation is pinned to.
    pub closed spec fn serial_of(&self) -> Seq<char> {
        self.serial@
    }

    /// Target a specific device by serial.
    pub fn new(serial: String) -> (a: Adb)
        ensures
            a.serial_of() == serial@,
    {
        Adb { serial }
    }

    /// The serial every invocation is pinned to.
    pub fn serial(&self) -> (s: &str)
        ensures
            s@ == self.serial_of(),
    {
        self.serial.as_str()
    }

    /// Always name the device explicitly: without `-s`, `adb` fails once a
    /// second device appears.
    pub fn targeted(&self, rest: Vec<String>) -> (r: Vec<String>)
        ensures
            texts(r@) == pinned(self.serial_of(), texts(rest@)),
    {
        let mut args: Vec<String> = Vec::new();
        args.push(arg("-s"));
        args.push(self.serial.clone());
        let mut i: usize = 0;
        while i < rest.len()
            invariant
                i <= rest@.len(),
                args@.len() == i + 2,
                args@[0]@ == "-s"@,
                args@[1]@ == self.serial@,
                forall|j: int| 0 <= j < i ==> #[trigger] args@[j + 2]@ == rest@[j]@,
            decreases rest@.len() - i,
        {
            args.push(rest[i].clone());
            i = i + 1;
        }
        assert(texts(args@) =~= pinned(self.serial_of(), texts(rest@))) by {
            assert forall|k: int| 0 <= k < args@.len() implies #[trigger] texts(args@)[k] == pinned(self.serial_of(), texts(rest@))[k] by {
                if k >= 2 {
                    assert(args@[(k - 2) + 2]@ == rest@[k - 2]@);
                }
            }
        }
        args
    }

    /// Read the UI hierarchy, streamed straight to stdout.
    pub fn dump_args(&self) -> (r: Vec<String>)
        ensures
            texts(r@) == pinned(self.serial_of(), seq!["exec-out"@, "uiautomator"@, "dump"@, "/dev/tty"@]),
    {
        let rest = vec![arg("exec-out"), arg("uiautomator"), arg("dump"), arg("/dev/tty")];
        assert(texts(rest@) =~= seq!["exec-out"@, "uiautomator"@, "dump"@, "/dev/tty"@]);
        self.targeted(rest)
    }

    /// Tap a point.
    pub fn tap_args(&self, point: Point) -> (r: Vec<String>)
        ensures
            texts(r@) == pinned(self.serial_of(), seq!["shell"@, "input"@, "tap"@, signed_decimal(point.x as int), signed_decimal(point.y as int)]),
    {
        let rest = vec![arg("shell"), arg("input"), arg("tap"), num(point.x), num(point.y)];
        assert(texts(rest@) =~= seq!["shell"@, "input"@, "tap"@, signed_decimal(point.x as int), signed_decimal(point.y as int)]);
        self.targeted(rest)
    }

    /// Press and hold at a point: a swipe that goes nowhere, held for 700ms,
    /// which outlasts Android's long-press threshold.
    pub fn long_press_args(&self, at: Point) -> (r: Vec<String>)
        ensures
            texts(r@) == pinned(self.serial_of(), seq!["shell"@, "input"@, "swipe"@, signed_decimal(at.x as int), signed_decimal(at.y as int), signed_decimal(at.x as int), signed_decimal(at.y as int), "700"@]),
    {
        let rest = vec![arg("shell"), arg("input"), arg("swipe"), num(at.x), num(at.y), num(at.x), num(at.y), arg("700")];
        assert(texts(rest@) =~= seq!["shell"@, "input"@, "swipe"@, signed_decimal(at.x as int), signed_decimal(at.y as int), signed_decimal(at.x as int), signed_decimal(at.y as int), "700"@]);
        self.targeted(rest)
    }

    /// Tap twice in quick succession at a point, both taps in one invocation
    /// so they arrive inside the double-tap window.
    pub fn double_tap_args(&self, at: Point) -> (r: Vec<String>)
        ensures
            ({
                let tap = "input tap "@ + signed_decimal(at.x as int) + seq![' '] + signed_decimal(at.y as int);
                texts(r@) == pinned(self.serial_of(), seq!["shell"@, tap + "; "@ + tap])
            }),
    {
        let mut tap = arg("input tap ");
        push_signed(&mut tap, at.x as i64);
        tap.push(' ');
        push_signed(&mut tap, at.y as i64);
        let mut both = tap.clone();
        crate::text::push_str(&mut both, "; ");
        crate::text::push_str(&mut both, tap.as_str());
        let ghost spelled = "input tap "@ + signed_decimal(at.x as int) + seq![' '] + signed_decimal(at.y as int);
        assert(tap@ =~= spelled);
        assert(both@ =~= spelled + "; "@ + spelled);
        let rest = vec![arg("shell"), both];
        assert(texts(rest@) =~= seq!["shell"@, spelled + "; "@ + spelled]);
        self.targeted(rest)
    }

    /// Drag sideways from a point, a third of the screen's width, stopping
    /// short of the edge where the system claims the touch.
    pub fn swipe_from_args(&self, from: Point, direction: Swipe, width: i32) -> (r: Vec<String>)
        requires
            width > i32::MIN,
            direction == Swipe::Left ==> i32::MIN <= from.x - tdiv(width as int, 3) <= i32::MAX,
            direction == Swipe::Right ==> i32::MIN <= from.x + tdiv(width as int, 3) <= i32::MAX,
        ensures
            ({
                let travel = tdiv(width as int, 3);
                let to = match direction {
                    Swipe::Left => if from.x - travel > 1 { from.x - travel } else { 1 },
                    Swipe::Right => if from.x + travel < width - 1 { from.x + travel } else { width - 1 },
                };
                texts(r@) == pinned(self.serial_of(), seq!["shell"@, "input"@, "swipe"@, signed_decimal(from.x as int), signed_decimal(from.y as int), signed_decimal(to), signed_decimal(from.y as int), "250"@])
            }),
    {
        let travel = div_toward_zero(width, 3);
        let to = match direction {
            Swipe::Left => {
                let t = from.x - travel;
                if t > 1 { t } else { 1 }
            },
            Swipe::Right => {
                let t = from.x + travel;
                if t < width - 1 { t } else { width - 1 }
            },
        };
        let rest = vec![arg("shell"), arg("input"), arg("swipe"), num(from.x), num(from.y), num(to), num(from.y), arg("250")];
        assert(texts(rest@) =~= seq!["shell"@, "input"@, "swipe"@, signed_decimal(from.x as int), signed_decimal(from.y as int), signed_decimal(to as int), signed_decimal(from.y as int), "250"@]);
        self.targeted(rest)
    }

    /// Type into whatever currently has focus.
    ///
    /// Refused with [`TextError::NotAscii`], naming the first character
    /// outside ASCII, for text the IME cannot deliver.
    pub fn type_text_args(&self, text: &str) -> (r: Result<Vec<String>, TextError>)
        ensures
            match first_non_ascii(text@, 0) {
                Some(i) => r == Err::<Vec<String>, TextError>(TextError::NotAscii { offender: text@[i] }),
                None => r matches Ok(v) && texts(v@) == pinned(self.serial_of(), seq!["shell"@, "input"@, "text"@, quoted(text@)]),
            },
    {
        let chars = chars_of(text);
        let mut i: usize = 0;
        while i < chars.len()
            invariant
                i <= chars@.len(),
                chars@ == text@,
                first_non_ascii(text@, 0) == first_non_ascii(text@, i as int),
            decreases chars@.len() - i,
        {
            if (chars[i] as u32) >= 128 {
                return Err(TextError::NotAscii { offender: chars[i] });
            }
            i = i + 1;
        }
        let rest = vec![arg("shell"), arg("input"), arg("text"), shell_quote(text)];
        assert(texts(rest@) =~= seq!["shell"@, "input"@, "text"@, quoted(text@)]);
        Ok(self.targeted(rest))
    }

    /// Perform a system gesture as its key event.
    pub fn system_args(&self, gesture: SystemAct) -> (r: Vec<String>)
        ensures
            texts(r@) == pinned(self.serial_of(), seq!["shell"@, "input"@, "keyevent"@, match gesture {
                SystemAct::Back => "KEYCODE_BACK"@,
                SystemAct::Home => "KEYCODE_HOME"@,
                SystemAct::AppSwitcher => "KEYCODE_APP_SWITCH"@,
                SystemAct::Submit => "KEYCODE_ENTER"@,
            }]),
    {
        let keycode = match gesture {
            SystemAct::Back => arg("KEYCODE_BACK"),
            SystemAct::Home => arg("KEYCODE_HOME"),
            SystemAct::AppSwitcher => arg("KEYCODE_APP_SWITCH"),
            SystemAct::Submit => arg("KEYCODE_ENTER"),
        };
        let rest = vec![arg("shell"), arg("input"), arg("keyevent"), keycode];
        assert(texts(rest@) =~= seq!["shell"@, "input"@, "keyevent"@, rest@[3]@]);
        self.targeted(rest)
    }

    /// Read the display size.
    pub fn size_args(&self) -> (r: Vec<String>)
        ensures
            texts(r@) == pinned(self.serial_of(), seq!["shell"@, "wm"@, "size"@]),
    {
        let rest = vec![arg("shell"), arg("wm"), arg("size")];
        assert(texts(rest@) =~= seq!["shell"@, "wm"@, "size"@]);
        self.targeted(rest)
    }

    /// Swipe up from the bottom edge and dwell, opening the app switcher.
    pub fn app_switcher_swipe_args(&self, width: i32, height: i32) -> (r: Vec<String>)
        requires
            height > i32::MIN,
        ensures
            texts(r@) == pinned(self.serial_of(), seq!["shell"@, "input"@, "swipe"@, signed_decimal(tdiv(width as int, 2)), signed_decimal(height - 1), signed_decimal(tdiv(width as int, 2)), signed_decimal(tdiv(height as int, 2)), "400"@]),
    {
        let x = div_toward_zero(width, 2);
        let bottom = height - 1;
        let midway = div_toward_zero(height, 2);
        let rest = vec![arg("shell"), arg("input"), arg("swipe"), num(x), num(bottom), num(x), num(midway), arg("400")];
        assert(texts(rest@) =~= seq!["shell"@, "input"@, "swipe"@, signed_decimal(x as int), signed_decimal(bottom as int), signed_decimal(x as int), signed_decimal(midway as int), "400"@]);
        self.targeted(rest)
    }

    /// The hierarchy document, without what `uiautomator` prints around it:
    /// from the first `<hierarchy` to the last `</hierarchy>` after it.
    pub fn extract_hierarchy(raw: &str) -> (r: Option<String>)
        ensures
            match first_from(raw@, "<hierarchy"@, 0) {
                None => r is None,
                Some(start) => match last_occurrence(raw@.skip(start), "</hierarchy>"@) {
                    None => r is None,
                    Some(at) => r matches Some(doc) && doc@ == raw@.subrange(start, start + at + 12),
                },
            },
    {
        let chars = chars_of(raw);
        let open = chars_of("<hierarchy");
        let close = chars_of("</hierarchy>");
        proof {
            reveal_strlit("</hierarchy>");
        }
        let start = match crate::text::find_from(chars.as_slice(), open.as_slice(), 0) {
            Some(s) => s,
            None => {
                return None;
            },
        };
        let tail = crate::text::slice_of(chars.as_slice(), start, chars.len());
        assert(tail@ =~= raw@.skip(start as int));
        let at = match crate::text::rfind(tail.as_slice(), close.as_slice()) {
            Some(a) => a,
            None => {
                return None;
            },
        };
        proof {
            assert(crate::text::occurs_at(tail@, close@, at as int));
        }
        let end = start + at + 12;
        Some(crate::text::string_between(chars.as_slice(), start, end))
    }

    /// Swipe to scroll one view in `direction`, within the middle band of the
    /// screen so the gesture is not read as system navigation.
    pub fn scroll_args(&self, direction: Direction, width: i32, height: i32) -> (r: Vec<String>)
        requires
            i32::MIN <= height * 3 <= i32::MAX,
        ensures
            ({
                let x = signed_decimal(tdiv(width as int, 2));
                let near = signed_decimal(tdiv(height * 3, 4));
                let far = signed_decimal(tdiv(height as int, 4));
                let (from, to) = match direction {
                    Direction::Down => (near, far),
                    Direction::Up => (far, near),
                };
                texts(r@) == pinned(self.serial_of(), seq!["shell"@, "input"@, "swipe"@, x, from, x, to, "300"@])
            }),
    {
        let x = div_toward_zero(width, 2);
        let near = div_toward_zero(height * 3, 4);
        let far = div_toward_zero(height, 4);
        let (from, to) = match direction {
            Direction::Down => (near, far),
            Direction::Up => (far, near),
        };
        let rest = vec![arg("shell"), arg("input"), arg("swipe"), num(x), num(from), num(x), num(to), arg("300")];
        assert(texts(rest@) =~= seq!["shell"@, "input"@, "swipe"@, signed_decimal(x as int), signed_decimal(from as int), signed_decimal(x as int), signed_decimal(to as int), "300"@]);
        self.targeted(rest)
    }

    /// The display size `wm size` reports: an `Override size` line wins over
    /// the `Physical size` one, since that is what is rendered.
    pub fn parse_size(raw: &str) -> (r: Option<(i32, i32)>)
        ensures
            r == match labelled_size(raw@, "Override size"@) {
                Some(size) => Some(size),
                None => labelled_size(raw@, "Physical size"@),
            },
    {
        match read_size(raw, "Override size") {
            Some(size) => Some(size),
            None => read_size(raw, "Physical size"),
        }
    }

    /// What `uiautomator` said went wrong, if anything.
    pub fn classify_stderr(stderr: &str) -> (r: Option<DumpFailure>)
        ensures
            r == if crate::text::contains(stderr@, "null root node"@) {
                Some(DumpFailure::NoActiveWindow)
            } else if crate::text::contains(stderr@, "could not get idle state"@) {
                Some(DumpFailure::NeverSettled)
            } else {
                None
            },
    {
        let chars = chars_of(stderr);
        let locked = chars_of("null root node");
        if crate::text::contains_chars(chars.as_slice(), locked.as_slice()) {
            return Some(DumpFailure::NoActiveWindow);
        }
        let busy = chars_of("could not get idle state");
        if crate::text::contains_chars(chars.as_slice(), busy.as_slice()) {
            return Some(DumpFailure::NeverSettled);
        }
        None
    }

    /// Open a tunnel from a host port adb allocates to a port on the device.
    pub fn forward_args(&self, device_port: u16) -> (r: Vec<String>)
        ensures
            texts(r@) == pinned(self.serial_of(), seq!["forward"@, "tcp:0"@, "tcp:"@ + decimal(device_port as nat)]),
    {
        let mut remote = arg("tcp:");
        push_decimal(&mut remote, device_port as u64);
        let rest = vec![arg("forward"), arg("tcp:0"), remote];
        assert(texts(rest@) =~= seq!["forward"@, "tcp:0"@, rest@[2]@]);
        self.targeted(rest)
    }

    /// The host port adb allocated, as it prints it: the first line of its
    /// answer, trimmed.
    pub fn parse_forward_port(raw: &str) -> (r: Option<u16>)
        ensures
            r == if lines_of(trim(raw@)).len() > 0 {
                parse_u16(trim(lines_of(trim(raw@))[0]))
            } else {
                None
            },
    {
        let chars = chars_of(raw);
        let trimmed = crate::text::trim_chars(chars.as_slice());
        let ls = lines(trimmed.as_slice());
        if ls.len() == 0 {
            return None;
        }
        assert(runs(ls@)[0] == ls@[0]@);
        let first = crate::text::trim_chars(ls[0].as_slice());
        proof {
            crate::text::lemma_parse_natural_nonneg(first@);
        }
        match crate::text::natural_of(first.as_slice(), 65535) {
            Some(v) => Some(v as u16),
            None => None,
        }
    }

    /// Every forward adb currently holds, for every device.
    pub fn forward_list_args(&self) -> (r: Vec<String>)
        ensures
            texts(r@) == pinned(self.serial_of(), seq!["forward"@, "--list"@]),
    {
        let rest = vec![arg("forward"), arg("--list")];
        assert(texts(rest@) =~= seq!["forward"@, "--list"@]);
        self.targeted(rest)
    }

    /// Close a tunnel by the host port it occupies.
    pub fn forward_remove_args(&self, local_port: u16) -> (r: Vec<String>)
        ensures
            texts(r@) == pinned(self.serial_of(), seq!["forward"@, "--remove"@, "tcp:"@ + decimal(local_port as nat)]),
    {
        let mut local = arg("tcp:");
        push_decimal(&mut local, local_port as u64);
        let rest = vec![arg("forward"), arg("--remove"), local];
        assert(texts(rest@) =~= seq!["forward"@, "--remove"@, rest@[2]@]);
        self.targeted(rest)
    }

    /// The host port of a tunnel already reaching `device_port` on this
    /// device: the first `<serial> tcp:<local> tcp:<remote>` line for this
    /// serial and that remote port.
    pub fn parse_forward_reuse(&self, raw: &str, device_port: u16) -> (r: Option<u16>)
        ensures
            ({
                let ls = lines_of(raw@);
                match forward_line(ls, self.serial_of(), "tcp:"@ + decimal(device_port as nat), 0) {
                    Some(i) => r == tcp_port(words_of(ls[i])[1]),
                    None => r is None,
                }
            }),
    {
        let mut remote = arg("tcp:");
        push_decimal(&mut remote, device_port as u64);
        let remote_chars = chars_of(remote.as_str());
        let serial_chars = chars_of(self.serial.as_str());
        let chars = chars_of(raw);
        let ls = lines(chars.as_slice());
        let ghost lv = lines_of(raw@);
        let mut i: usize = 0;
        while i < ls.len()
            invariant
                i <= ls@.len(),
                runs(ls@) == lv,
                remote_chars@ == "tcp:"@ + decimal(device_port as nat),
                serial_chars@ == self.serial_of(),
                lv.len() == ls@.len(),
                lv == lines_of(raw@),
                forward_line(lv, self.serial_of(), remote_chars@, 0) == forward_line(lv, self.serial_of(), remote_chars@, i as int),
            decreases ls@.len() - i,
        {
            assert(lv[i as int] == ls@[i as int]@);
            let fields = words(ls[i].as_slice());
            let ghost ws = words_of(lv[i as int]);
            assert(runs(fields@) == ws);
            assert(ws.len() == fields@.len());
            if fields.len() >= 3 {
                assert(ws[0] == fields@[0]@ && ws[1] == fields@[1]@ && ws[2] == fields@[2]@);
                if crate::text::same_chars(fields[0].as_slice(), serial_chars.as_slice())
                    && crate::text::same_chars(fields[2].as_slice(), remote_chars.as_slice()) {
                    assert(forward_line(lv, self.serial_of(), remote_chars@, i as int) == Some(i as int));
                    let port = port_of(&fields[1]);
                    assert(port == tcp_port(words_of(lv[i as int])[1]));
                    assert(forward_line(lines_of(raw@), self.serial_of(), "tcp:"@ + decimal(device_port as nat), 0) == Some(i as int));
                    return port;
                }
            }
            assert(forward_line(lv, self.serial_of(), remote_chars@, i as int) == forward_line(lv, self.serial_of(), remote_chars@, i + 1));
            i = i + 1;
        }
        assert(forward_line(lv, self.serial_of(), remote_chars@, i as int) is None);
        None
    }

    /// What `dumpsys package` says about a package.
    pub fn package_info_args(&self, package: &str) -> (r: Vec<String>)
        ensures
            texts(r@) == pinned(self.serial_of(), seq!["shell"@, "dumpsys"@, "package"@, package@]),
    {
        let rest = vec![arg("shell"), arg("dumpsys"), arg("package"), arg(package)];
        assert(texts(rest@) =~= seq!["shell"@, "dumpsys"@, "package"@, package@]);
        self.targeted(rest)
    }

    /// The `versionCode` in a `dumpsys package` report: the digits after the
    /// first `versionCode=`, and nothing else.
    pub fn parse_version_code(raw: &str) -> (r: Option<u32>)
        ensures
            r == match first_from(raw@, "versionCode="@, 0) {
                Some(at) => parse_u32(leading_digits(raw@.skip(at + 12))),
                None => None,
            },
    {
        let chars = chars_of(raw);
        let key = chars_of("versionCode=");
        proof {
            reveal_strlit("versionCode=");
        }
        let at = match crate::text::find_from(chars.as_slice(), key.as_slice(), 0) {
            Some(a) => a,
            None => {
                return None;
            },
        };
        let n = chars.len();
        proof {
            assert(crate::text::occurs_at(chars@, key@, at as int));
        }
        assert(at + 12 <= n);
        let start = at + 12;
        let mut end = start;
        while end < chars.len() && crate::text::char_is_digit(chars[end])
            invariant
                start <= end <= chars@.len(),
                leading_digits(chars@.skip(start as int)) == chars@.subrange(start as int, end as int) + leading_digits(chars@.skip(end as int)),
            decreases chars@.len() - end,
        {
            proof {
                let rest = chars@.skip(end as int);
                assert(rest.drop_first() =~= chars@.skip(end + 1));
                assert(chars@.subrange(start as int, end + 1) =~= chars@.subrange(start as int, end as int) + seq![chars@[end as int]]);
            }
            end = end + 1;
        }
        proof {
            assert(chars@.subrange(start as int, end as int) + leading_digits(chars@.skip(end as int)) =~= chars@.subrange(start as int, end as int));
            assert(leading_digits(chars@.skip(start as int)) == chars@.subrange(start as int, end as int));
            crate::text::lemma_parse_natural_nonneg(chars@.subrange(start as int, end as int));
        }
        match crate::text::natural_between(chars.as_slice(), start, end, 4294967295) {
            Some(v) => Some(v as u32),
            None => None,
        }
    }

    /// Read the accessibility services the device has switched on.
    pub fn enabled_services_args(&self) -> (r: Vec<String>)
        ensures
            texts(r@) == pinned(self.serial_of(), seq!["shell"@, "settings"@, "get"@, "secure"@, "enabled_accessibility_services"@]),
    {
        let rest = vec![arg("shell"), arg("settings"), arg("get"), arg("secure"), arg("enabled_accessibility_services")];
        assert(texts(rest@) =~= seq!["shell"@, "settings"@, "get"@, "secure"@, "enabled_accessibility_services"@]);
        self.targeted(rest)
    }

    /// Write the accessibility services the device should have switched on,
    /// quoted for the device's shell.
    pub fn set_enabled_services_args(&self, services: &str) -> (r: Vec<String>)
        ensures
            texts(r@) == pinned(self.serial_of(), seq!["shell"@, "settings"@, "put"@, "secure"@, "enabled_accessibility_services"@, quoted(services@)]),
    {
        let rest = vec![arg("shell"), arg("settings"), arg("put"), arg("secure"), arg("enabled_accessibility_services"), shell_quote(services)];
        assert(texts(rest@) =~= seq!["shell"@, "settings"@, "put"@, "secure"@, "enabled_accessibility_services"@, quoted(services@)]);
        self.targeted(rest)
    }

    /// Switch the accessibility subsystem on, which `put` alone does not do.
    pub fn enable_accessibility_args(&self) -> (r: Vec<String>)
        ensures
            texts(r@) == pinned(self.serial_of(), seq!["shell"@, "settings"@, "put"@, "secure"@, "accessibility_enabled"@, "1"@]),
    {
        let rest = vec![arg("shell"), arg("settings"), arg("put"), arg("secure"), arg("accessibility_enabled"), arg("1")];
        assert(texts(rest@) =~= seq!["shell"@, "settings"@, "put"@, "secure"@, "accessibility_enabled"@, "1"@]);
        self.targeted(rest)
    }

    /// Install an APK, replacing any older build of the same package.
    pub fn install_args(&self, apk_path: &str) -> (r: Vec<String>)
        ensures
            texts(r@) == pinned(self.serial_of(), seq!["install"@, "-r"@, apk_path@]),
    {
        let rest = vec![arg("install"), arg("-r"), arg(apk_path)];
        assert(texts(rest@) =~= seq!["install"@, "-r"@, apk_path@]);
        self.targeted(rest)
    }

    /// Hand the helper the session token for this run, through its own
    /// receiver named by its fully qualified class, so no other app can be
    /// handed the token.
    pub fn push_token_args(&self, token: &crate::device::helper::Token) -> (r: Vec<String>)
        ensures
            texts(r@) == pinned(self.serial_of(), seq![
                "shell"@, "am"@, "broadcast"@, "-n"@,
                crate::device::helper::package_name() + "/"@ + crate::device::helper::package_name() + ".TokenReceiver"@, "-a"@,
                crate::device::helper::package_name() + ".SET_TOKEN"@, "--es"@, "token"@,
                quoted(token.secret()),
            ]),
    {
        let mut receiver = arg(crate::device::helper::PACKAGE);
        crate::text::push_str(&mut receiver, "/");
        crate::text::push_str(&mut receiver, crate::device::helper::PACKAGE);
        crate::text::push_str(&mut receiver, ".TokenReceiver");
        let mut action = arg(crate::device::helper::PACKAGE);
        crate::text::push_str(&mut action, ".SET_TOKEN");
        let rest = vec![arg("shell"), arg("am"), arg("broadcast"), arg("-n"), receiver, arg("-a"), action, arg("--es"), arg("token"), shell_quote(token.expose())];
        assert(texts(rest@) =~= seq![
                "shell"@, "am"@, "broadcast"@, "-n"@,
                crate::device::helper::package_name() + "/"@ + crate::device::helper::package_name() + ".TokenReceiver"@, "-a"@,
                crate::device::helper::package_name() + ".SET_TOKEN"@, "--es"@, "token"@,
                quoted(token.secret()),
            ]);
        self.targeted(rest)
    }

    /// Ask adb which devices are attached.
    pub fn devices_args() -> (r: Vec<String>)
        ensures
            texts(r@) == seq!["devices"@],
    {
        let r = vec![arg("devices")];
        assert(texts(r@) =~= seq!["devices"@]);
        r
    }

    /// The serials `adb devices` reports as ready to be driven: past its
    /// header, every `<serial>\t<state>` line whose state is `device`.
    pub fn parse_devices(raw: &str) -> (r: Vec<String>)
        ensures
            ({
                let ls = lines_of(raw@);
                texts(r@) == ready_serials(ls, after_header(ls, 0), ls.len() as int)
            }),
    {
        let chars = chars_of(raw);
        let ls = lines(chars.as_slice());
        let ghost lv = lines_of(raw@);
        let header = chars_of("List of devices");
        let mut start: usize = 0;
        while start < ls.len() && crate::text::starts_with_chars(ls[start].as_slice(), header.as_slice())
            invariant
                start <= ls@.len(),
                runs(ls@) == lv,
                header@ == "List of devices"@,
                after_header(lv, 0) == after_header(lv, start as int),
            decreases ls@.len() - start,
        {
            assert(lv[start as int] == ls@[start as int]@);
            start = start + 1;
        }
        proof {
            if start < ls@.len() {
                assert(lv[start as int] == ls@[start as int]@);
            }
        }
        let mut r: Vec<String> = Vec::new();
        let mut i = start;
        while i < ls.len()
            invariant
                start <= i <= ls@.len(),
                runs(ls@) == lv,
                texts(r@) == ready_serials(lv, start as int, i as int),
            decreases ls@.len() - i,
        {
            assert(lv[i as int] == ls@[i as int]@);
            match serial_if_ready(ls[i].as_slice()) {
                Some(serial) => {
                    r.push(crate::text::string_of(serial.as_slice()));
                    assert(texts(r@) =~= ready_serials(lv, start as int, i as int).push(serial@));
                },
                None => {},
            }
            i = i + 1;
        }
        r
    }

    /// Read the device's navigation mode.
    pub fn navigation_args(&self) -> (r: Vec<String>)
        ensures
            texts(r@) == pinned(self.serial_of(), seq!["shell"@, "settings"@, "get"@, "secure"@, "navigation_mode"@]),
    {
        let rest = vec![arg("shell"), arg("settings"), arg("get"), arg("secure"), arg("navigation_mode")];
        assert(texts(rest@) =~= seq!["shell"@, "settings"@, "get"@, "secure"@, "navigation_mode"@]);
        self.targeted(rest)
    }
}

/// The serial on one line of `adb devices`, when its state is `device`.
fn serial_if_ready(line: &[char]) -> (r: Option<Vec<char>>)
    ensures
        match ready_serial(line@) {
            Some(serial) => r matches Some(v) && v@ == serial,
            None => r is None,
        },
{
    let device = chars_of("device");
    let tab = vec!['\t'];
    let n = line.len();
    assert(tab@ == seq!['\t']);
    let t = match crate::text::find_from(line, tab.as_slice(), 0) {
        Some(t) => t,
        None => {
            assert(ready_serial(line@) is None);
            return None;
        },
    };
    proof {
        assert(crate::text::occurs_at(line@, tab@, t as int));
    }
    assert(first_from(line@, seq!['\t'], 0) == Some(t as int));
    assert(t + 1 <= n);
    let state = crate::text::slice_of(line, t + 1, n);
    let state = crate::text::trim_chars(state.as_slice());
    assert(state@ == trim(line@.subrange(t + 1, n as int)));
    if !crate::text::same_chars(state.as_slice(), device.as_slice()) {
        assert(ready_serial(line@) is None);
        return None;
    }
    let serial = crate::text::slice_of(line, 0, t);
    let serial = crate::text::trim_chars(serial.as_slice());
    assert(ready_serial(line@) == Some(serial@));
    Some(serial)
}

/// The size on the first line labelled `label`, if that line has one.
fn read_size(raw: &str, label: &str) -> (r: Option<(i32, i32)>)
    ensures
        r == labelled_size(raw@, label@),
{
    let chars = chars_of(raw);
    let wanted = chars_of(label);
    let ls = lines(chars.as_slice());
    let ghost lv = lines_of(raw@);
    let mut i: usize = 0;
    while i < ls.len()
        invariant
            i <= ls@.len(),
            runs(ls@) == lv,
            lv == lines_of(raw@),
            lv.len() == ls@.len(),
            wanted@ == label@,
            line_starting(lv, label@, 0) == line_starting(lv, label@, i as int),
        decreases ls@.len() - i,
    {
        assert(lv[i as int] == ls@[i as int]@);
        let start = crate::text::trim_start_chars(ls[i].as_slice());
        if crate::text::starts_with_chars(start.as_slice(), wanted.as_slice()) {
            assert(line_starting(lv, label@, i as int) == Some(i as int));
            let size = size_of_line(&ls[i]);
            assert(size == size_in_line(lv[i as int]));
            return size;
        }
        assert(line_starting(lv, label@, i as int) == line_starting(lv, label@, i + 1));
        i = i + 1;
    }
    assert(line_starting(lv, label@, i as int) is None);
    None
}

/// A `wm size` line's `<width>x<height>`, read after its last `:`.
fn size_of_line(line: &Vec<char>) -> (r: Option<(i32, i32)>)
    ensures
        r == size_in_line(line@),
{
    let colon_mark = vec![':'];
    assert(colon_mark@ == seq![':']);
    let colon = match crate::text::rfind(line.as_slice(), colon_mark.as_slice()) {
        Some(c) => c,
        None => {
            assert(size_in_line(line@) is None);
            return None;
        },
    };
    let n = line.len();
    proof {
        assert(crate::text::occurs_at(line@, colon_mark@, colon as int));
    }
    assert(last_occurrence(line@, seq![':']) == Some(colon as int));
    assert(colon + 1 <= n);
    let after = crate::text::slice_of(line.as_slice(), colon + 1, n);
    let rest = crate::text::trim_chars(after.as_slice());
    assert(rest@ == trim(line@.subrange(colon + 1, n as int)));
    size_of_pair(&rest)
}

/// `<width>x<height>`, each side trimmed, split at the first `x`.
fn size_of_pair(rest: &Vec<char>) -> (r: Option<(i32, i32)>)
    ensures
        r == match first_from(rest@, seq!['x'], 0) {
            None => None,
            Some(x) => match (
                parse_i32(trim(rest@.subrange(0, x))),
                parse_i32(trim(rest@.subrange(x + 1, rest@.len() as int))),
            ) {
                (Some(w), Some(h)) => Some((w, h)),
                _ => None,
            },
        },
{
    let x_mark = vec!['x'];
    assert(x_mark@ == seq!['x']);
    let x = match crate::text::find_from(rest.as_slice(), x_mark.as_slice(), 0) {
        Some(x) => x,
        None => {
            return None;
        },
    };
    let m = rest.len();
    proof {
        assert(crate::text::occurs_at(rest@, x_mark@, x as int));
    }
    assert(x + 1 <= m);
    let w = crate::text::slice_of(rest.as_slice(), 0, x);
    let w = crate::text::trim_chars(w.as_slice());
    let h = crate::text::slice_of(rest.as_slice(), x + 1, m);
    let h = crate::text::trim_chars(h.as_slice());
    assert(w@.subrange(0, w@.len() as int) =~= w@);
    assert(h@.subrange(0, h@.len() as int) =~= h@);
    let width = crate::text::i32_between(w.as_slice(), 0, w.len());
    let height = crate::text::i32_between(h.as_slice(), 0, h.len());
    match (width, height) {
        (Some(w), Some(h)) => Some((w, h)),
        _ => None,
    }
}

/// The port in a `tcp:<port>` word.
fn port_of(word: &Vec<char>) -> (r: Option<u16>)
    ensures
        r == tcp_port(word@),
{
    let prefix = chars_of("tcp:");
    proof {
        reveal_strlit("tcp:");
    }
    if !crate::text::starts_with_chars(word.as_slice(), prefix.as_slice()) {
        return None;
    }
    assert(word@.subrange(4, word@.len() as int) =~= word@.skip(4));
    proof {
        crate::text::lemma_parse_natural_nonneg(word@.skip(4));
    }
    match crate::text::natural_between(word.as_slice(), 4, word.len(), 65535) {
        Some(v) => Some(v as u16),
        None => None,
    }
}

impl Navigation {
    /// Read the value `settings get secure navigation_mode` reports: `0` and
    /// `1` are button navigation, and anything else — `2`, or something
    /// unreadable — is taken as gesture navigation.
    pub fn from_setting(raw: &str) -> (n: Navigation)
        ensures
            n == if trim(raw@) == "0"@ || trim(raw@) == "1"@ {
                Navigation::Buttons
            } else {
                Navigation::Gesture
            },
    {
        let chars = chars_of(raw);
        let t = crate::text::trim_chars(chars.as_slice());
        let zero = chars_of("0");
        let one = chars_of("1");
        if crate::text::same_chars(t.as_slice(), zero.as_slice()) || crate::text::same_chars(t.as_slice(), one.as_slice()) {
            Navigation::Buttons
        } else {
            Navigation::Gesture
        }
    }

    /// Whether `KEYCODE_APP_SWITCH` actually opens the recents view.
    pub fn app_switcher_responds_to_keyevent(self) -> (r: bool)
        ensures
            r == (self == Navigation::Buttons),
    {
        match self {
            Navigation::Buttons => true,
            Navigation::Gesture => false,
        }
    }
}

/// Quote a string so the device's shell sees it as one literal argument:
/// single quotes suppress every expansion, and an embedded single quote is
/// closed, escaped, and reopened.
pub fn shell_quote(text: &str) -> (r: String)
    ensures
        r@ == quoted(text@),
{
    let chars = chars_of(text);
    let mut out = String::new();
    out.push('\'');
    let mut i: usize = 0;
    while i < chars.len()
        invariant
            i <= chars@.len(),
            chars@ == text@,
            out@ == seq!['\''] + quote_body(chars@.take(i as int)),
        decreases chars@.len() - i,
    {
        let c = chars[i];
        proof {
            assert(chars@.take((i + 1) as int).drop_last() =~= chars@.take(i as int));
            assert(chars@.take((i + 1) as int).last() == c);
        }
        if c == '\'' {
            out.push('\'');
            out.push('\\');
            out.push('\'');
            out.push('\'');
        } else {
            out.push(c);
        }
        i = i + 1;
        assert(out@ =~= seq!['\''] + quote_body(chars@.take(i as int)));
    }
    out.push('\'');
    assert(chars@.take(i as int) =~= chars@);
    assert(out@ =~= quoted(text@));
    out
}

/// Quoting is faithful: what the device's shell reads back from a quoted
/// argument is the text itself, whatever quotes it holds.
pub proof fn quoting_round_trips(text: Seq<char>)
    ensures
        unquote_body(quote_body(text)) == text,
        no_stray_quote(quote_body(text)),
    decreases text.len(),
{
    if text.len() > 0 {
        quoting_round_trips(text.drop_last());
        lemma_unquote_append(quote_body(text.drop_last()), text.last());
        assert(text.drop_last() + seq![text.last()] =~= text);
    }
}

/// What a POSIX shell makes of the inside of `quoted`: `'\''` is a quote,
/// anything else stands for itself.
pub open spec fn unquote_body(q: Seq<char>) -> Seq<char>
    decreases q.len(),
{
    if q.len() >= 4 && q.subrange(0, 4) == seq!['\'', '\\', '\'', '\''] {
        seq!['\''] + unquote_body(q.skip(4))
    } else if q.len() > 0 {
        seq![q[0]] + unquote_body(q.skip(1))
    } else {
        Seq::empty()
    }
}

proof fn lemma_unquote_append(q: Seq<char>, c: char)
    requires
        no_stray_quote(q),
    ensures
        unquote_body(q + if c == '\'' { seq!['\'', '\\', '\'', '\''] } else { seq![c] }) == unquote_body(q) + seq![c],
        no_stray_quote(q + if c == '\'' { seq!['\'', '\\', '\'', '\''] } else { seq![c] }),
    decreases q.len(),
{
    let tail = if c == '\'' { seq!['\'', '\\', '\'', '\''] } else { seq![c] };
    let escape = seq!['\'', '\\', '\'', '\''];
    let qt = q + tail;
    if q.len() == 0 {
        assert(qt =~= tail);
        assert(unquote_body(Seq::<char>::empty()) == Seq::<char>::empty());
        if c == '\'' {
            assert(tail.subrange(0, 4) =~= escape);
            assert(tail.skip(4) =~= Seq::<char>::empty());
            assert(unquote_body(tail) =~= seq!['\'']);
            assert(no_stray_quote(tail.skip(4)));
        } else {
            assert(tail.skip(1) =~= Seq::<char>::empty());
            assert(unquote_body(tail) =~= seq![c]);
            assert(no_stray_quote(tail.skip(1)));
        }
        assert(no_stray_quote(qt));
        assert(unquote_body(q) =~= Seq::<char>::empty());
        assert(unquote_body(qt) =~= unquote_body(q) + seq![c]);
    } else if q.len() >= 4 && q.subrange(0, 4) == escape {
        assert(qt.subrange(0, 4) =~= q.subrange(0, 4));
        assert(qt.skip(4) =~= q.skip(4) + tail);
        lemma_unquote_append(q.skip(4), c);
        assert(unquote_body(qt) == seq!['\''] + unquote_body(q.skip(4) + tail));
        assert(unquote_body(q) == seq!['\''] + unquote_body(q.skip(4)));
        assert(unquote_body(qt) =~= unquote_body(q) + seq![c]);
        assert(no_stray_quote(qt));
    } else {
        assert(q[0] != '\'');
        assert(qt[0] == q[0]);
        if qt.len() >= 4 {
            assert(qt.subrange(0, 4)[0] == qt[0]);
        }
        assert(qt.skip(1) =~= q.skip(1) + tail);
        lemma_unquote_append(q.skip(1), c);
        assert(unquote_body(qt) == seq![q[0]] + unquote_body(q.skip(1) + tail));
        assert(unquote_body(q) == seq![q[0]] + unquote_body(q.skip(1)));
        assert(unquote_body(qt) =~= unquote_body(q) + seq![c]);
        assert(no_stray_quote(qt));
    }
}

/// Every `'` in `q` opens a `'\''`.
pub open spec fn no_stray_quote(q: Seq<char>) -> bool
    decreases q.len(),
{
    if q.len() >= 4 && q.subrange(0, 4) == seq!['\'', '\\', '\'', '\''] {
        no_stray_quote(q.skip(4))
    } else if q.len() > 0 {
        q[0] != '\'' && no_stray_quote(q.skip(1))
    } else {
        true
    }
}

/// A device could not be driven through `adb`.
#[derive(Debug, Clone, PartialEq, Eq)]
pub enum AdbError {
    /// `adb` itself could not be started.
    Spawn(String),
    /// `adb` ran and reported failure.
    Failed {
        /// The arguments it was given.
        args: String,
        /// What it printed on stderr.
        stderr: String,
    },
    /// The screen never stopped animating long enough to be read.
    NeverSettled {
        /// How many dumps were tried.
        attempts: u32,
    },
    /// There was no readable window, which usually means a locked screen.
    NoActiveWindow,
    /// The hierarchy could not be read.
    Hierarchy(crate::platform::HierarchyError),
    /// The text cannot be typed.
    Text(TextError),
    /// The gesture has no Android equivalent.
    Unsupported {
        /// Which gesture.
        gesture: &'static str,
    },
}

/// How many times a dump is tried while the screen will not settle.
pub const DUMP_ATTEMPTS: u32 = 5;

/// How long a `Settle` waits, in milliseconds.
pub const SETTLE_MS: u64 = 600;

/// How many times switching the helper on is checked.
pub const ENABLE_ATTEMPTS: u32 = 4;

/// How long to wait between those checks, in milliseconds.
pub const ENABLE_SETTLE_MS: u64 = 500;

/// How many reads an empty screen gets before it is believed.
pub const EMPTY_ATTEMPTS: u32 = 4;

/// How much longer each of those waits, in milliseconds.
pub const EMPTY_BACKOFF_MS: u64 = 150;

/// What carrying out a command through the shell comes to.
#[derive(Debug, Clone, PartialEq, Eq)]
pub enum ShellStep {
    /// Run `adb` with these arguments.
    Run(Vec<String>),
    /// Touch nothing; wait this many milliseconds.
    Wait(u64),
}

/// Whether the shell form of a command depends on the display's size.
pub open spec fn sized(c: crate::device::CommandView, nav: Navigation) -> bool {
    match c {
        crate::device::CommandView::Scroll(_) => true,
        crate::device::CommandView::SwipeFrom { .. } => true,
        crate::device::CommandView::System(SystemAct::AppSwitcher) => nav == Navigation::Gesture,
        _ => false,
    }
}

/// Whether the display's size is one every gesture on it can be computed
/// for without leaving the range of an `i32`.
pub open spec fn workable(c: crate::device::CommandView, width: i32, height: i32) -> bool {
    &&& width > i32::MIN
    &&& height > i32::MIN
    &&& i32::MIN <= height * 3 <= i32::MAX
    &&& (c matches crate::device::CommandView::SwipeFrom { from, direction } ==> match direction {
        Swipe::Left => i32::MIN <= from.x - tdiv(width as int, 3) <= i32::MAX,
        Swipe::Right => i32::MIN <= from.x + tdiv(width as int, 3) <= i32::MAX,
    })
}

impl Adb {
    /// What a command comes to through the shell, on a device navigated as
    /// `navigation` whose display is `size`.
    ///
    /// The app switcher is a key on a device with buttons and a swipe on one
    /// navigated by gesture. Waiting touches nothing. Refused with
    /// [`AdbError::Text`] for text `input text` cannot deliver, and with
    /// [`AdbError::Unsupported`] for a preview, which Android does not have,
    /// and for launching an app by name, which this path does not do.
    pub fn shell_step(&self, command: &crate::device::Command, navigation: Navigation, size: (i32, i32)) -> (r: Result<ShellStep, AdbError>)
        requires
            workable(command@, size.0, size.1),
        ensures
            match command@ {
                crate::device::CommandView::Tap(p) => r matches Ok(ShellStep::Run(v)) && texts(v@) == pinned(self.serial_of(), seq!["shell"@, "input"@, "tap"@, signed_decimal(p.x as int), signed_decimal(p.y as int)]),
                crate::device::CommandView::TypeText { text: t, .. } => match first_non_ascii(t, 0) {
                    Some(i) => r == Err::<ShellStep, AdbError>(AdbError::Text(TextError::NotAscii { offender: t[i] })),
                    None => r matches Ok(ShellStep::Run(v)) && texts(v@) == pinned(self.serial_of(), seq!["shell"@, "input"@, "text"@, quoted(t)]),
                },
                crate::device::CommandView::System(g) => if g == SystemAct::AppSwitcher && navigation == Navigation::Gesture {
                    r matches Ok(ShellStep::Run(v)) && texts(v@) == pinned(self.serial_of(), seq!["shell"@, "input"@, "swipe"@, signed_decimal(tdiv(size.0 as int, 2)), signed_decimal(size.1 - 1), signed_decimal(tdiv(size.0 as int, 2)), signed_decimal(tdiv(size.1 as int, 2)), "400"@])
                } else {
                    r matches Ok(ShellStep::Run(v)) && texts(v@) == pinned(self.serial_of(), seq!["shell"@, "input"@, "keyevent"@, match g {
                        SystemAct::Back => "KEYCODE_BACK"@,
                        SystemAct::Home => "KEYCODE_HOME"@,
                        SystemAct::AppSwitcher => "KEYCODE_APP_SWITCH"@,
                        SystemAct::Submit => "KEYCODE_ENTER"@,
                    }])
                },
                crate::device::CommandView::Scroll(d) => r matches Ok(ShellStep::Run(v)) && ({
                    let x = signed_decimal(tdiv(size.0 as int, 2));
                    let near = signed_decimal(tdiv(size.1 * 3, 4));
                    let far = signed_decimal(tdiv(size.1 as int, 4));
                    let (from, to) = match d {
                        Direction::Down => (near, far),
                        Direction::Up => (far, near),
                    };
                    texts(v@) == pinned(self.serial_of(), seq!["shell"@, "input"@, "swipe"@, x, from, x, to, "300"@])
                }),
                crate::device::CommandView::DoubleTap(at) => r matches Ok(ShellStep::Run(v)) && ({
                    let tap = "input tap "@ + signed_decimal(at.x as int) + seq![' '] + signed_decimal(at.y as int);
                    texts(v@) == pinned(self.serial_of(), seq!["shell"@, tap + "; "@ + tap])
                }),
                crate::device::CommandView::LongPress(at) => r matches Ok(ShellStep::Run(v)) && texts(v@) == pinned(self.serial_of(), seq!["shell"@, "input"@, "swipe"@, signed_decimal(at.x as int), signed_decimal(at.y as int), signed_decimal(at.x as int), signed_decimal(at.y as int), "700"@]),
                crate::device::CommandView::SwipeFrom { from, direction } => r matches Ok(ShellStep::Run(v)) && ({
                    let travel = tdiv(size.0 as int, 3);
                    let to = match direction {
                        Swipe::Left => if from.x - travel > 1 { from.x - travel } else { 1 },
                        Swipe::Right => if from.x + travel < size.0 - 1 { from.x + travel } else { size.0 - 1 },
                    };
                    texts(v@) == pinned(self.serial_of(), seq!["shell"@, "input"@, "swipe"@, signed_decimal(from.x as int), signed_decimal(from.y as int), signed_decimal(to), signed_decimal(from.y as int), "250"@])
                }),
                crate::device::CommandView::Settle => r == Ok::<ShellStep, AdbError>(ShellStep::Wait(SETTLE_MS)),
                crate::device::CommandView::Peek(_) => r == Err::<ShellStep, AdbError>(AdbError::Unsupported { gesture: "peek" }),
                crate::device::CommandView::Launch(_) => r == Err::<ShellStep, AdbError>(AdbError::Unsupported { gesture: "launch" }),
            },
    {
        let (width, height) = size;
        match command {
            crate::device::Command::Tap(p) => Ok(ShellStep::Run(self.tap_args(*p))),
            crate::device::Command::TypeText { text: t, .. } => match self.type_text_args(t.as_str()) {
                Ok(v) => Ok(ShellStep::Run(v)),
                Err(e) => Err(AdbError::Text(e)),
            },
            crate::device::Command::System(g) => {
                let swiped = match g {
                    SystemAct::AppSwitcher => !navigation.app_switcher_responds_to_keyevent(),
                    _ => false,
                };
                if swiped {
                    Ok(ShellStep::Run(self.app_switcher_swipe_args(width, height)))
                } else {
                    Ok(ShellStep::Run(self.system_args(*g)))
                }
            },
            crate::device::Command::Scroll(d) => Ok(ShellStep::Run(self.scroll_args(*d, width, height))),
            crate::device::Command::DoubleTap(at) => Ok(ShellStep::Run(self.double_tap_args(*at))),
            crate::device::Command::LongPress(at) => Ok(ShellStep::Run(self.long_press_args(*at))),
            crate::device::Command::SwipeFrom { from, direction } => Ok(ShellStep::Run(self.swipe_from_args(*from, *direction, width))),
            crate::device::Command::Settle => Ok(ShellStep::Wait(SETTLE_MS)),
            crate::device::Command::Peek(_) => Err(AdbError::Unsupported { gesture: "peek" }),
            crate::device::Command::Launch(_) => Err(AdbError::Unsupported { gesture: "launch" }),
        }
    }
}

/// How long to wait before dump number `attempt + 1`, after dump number
/// `attempt` found the screen still animating, in milliseconds.
pub fn dump_retry_wait(attempt: u32) -> (ms: u64)
    ensures
        ms == 300 * attempt,
{
    300 * attempt as u64
}

/// How long to wait before read number `attempt + 1` of a screen that came
/// back empty, in milliseconds.
pub fn empty_retry_wait(attempt: u32) -> (ms: u64)
    ensures
        ms == EMPTY_BACKOFF_MS * attempt,
{
    EMPTY_BACKOFF_MS * attempt as u64
}

/// Read what `uiautomator` printed into an observation: refused as
/// [`AdbError::NoActiveWindow`] when it printed no hierarchy, and with the
/// reader's objection when the hierarchy cannot be read.
pub fn screen_from_dump(raw: &str, stamps: &mut crate::snapshot::Stamps) -> (r: Result<crate::snapshot::Snapshot, AdbError>)
    ensures
        crate::snapshot::stamped_from(r, *old(stamps), *final(stamps)),
        match first_from(raw@, "<hierarchy"@, 0) {
            None => r == Err::<crate::snapshot::Snapshot, AdbError>(AdbError::NoActiveWindow),
            Some(start) => match last_occurrence(raw@.skip(start), "</hierarchy>"@) {
                None => r == Err::<crate::snapshot::Snapshot, AdbError>(AdbError::NoActiveWindow),
                Some(at) => match crate::platform::xml::xml_document(raw@.subrange(start, start + at + 12)) {
                    Err(detail) => r matches Err(AdbError::Hierarchy(crate::platform::HierarchyError::Malformed { detail: d })) && d@ == detail,
                    Ok(d) => {
                        &&& (crate::platform::android::screen_elements(d).len() > crate::snapshot::MAX_ELEMENTS <==> r is Err)
                        &&& r matches Ok(s) ==> crate::platform::android::reads_as(d, s@)
                    },
                },
            },
        },
{
    let document = match Adb::extract_hierarchy(raw) {
        Some(d) => d,
        None => {
            return Err(AdbError::NoActiveWindow);
        },
    };
    match crate::platform::android::hierarchy_of(crate::platform::xml::read_document(document.as_str()), stamps) {
        Ok(s) => Ok(s),
        Err(e) => Err(AdbError::Hierarchy(e)),
    }
}

} // verus!
