//! Reading the command line of the `jev-pilot` tool.
//!
//! Parsing is separated from doing, so that what a command line means is
//! stated and proved without a device attached.
//!
//! `--floor` takes a probability written as a decimal. Reading that number is
//! left to the caller, which hands in, for every word of the command line,
//! the confidence it reads as, if it reads as one; which of those readings
//! counts is decided here.
use crate::act::{Consequence, Floors};
use crate::judgment::Confidence;
use crate::text::parse_u32;
use vstd::prelude::*;

verus! {

/// What the tool was asked to do.
#[derive(Debug, Clone, PartialEq)]
pub enum Invocation {
    /// Pursue a goal on a device.
    Run {
        /// What to achieve, in plain words.
        goal: String,
        /// Which device, when more than one is attached.
        device: Option<String>,
        /// Claims that must hold on screen before success is accepted.
        accept: Vec<String>,
        /// How many steps before giving up.
        steps: u32,
        /// Below these confidences the run asks rather than acts.
        floors: Floors,
        /// The application the goal is about, when the caller named one.
        app: Option<String>,
        /// Where questions are written for another decider to answer.
        desk: Option<String>,
    },
    /// Report on the on-device helper, or install it.
    Helper {
        /// Which device, when more than one is attached.
        device: Option<String>,
        /// Whether to install and enable it, rather than only report.
        install: bool,
    },
    /// List the attached devices.
    Devices,
    /// Print what the next step would be offered, without acting.
    Observe {
        /// Which device, when more than one is attached.
        device: Option<String>,
    },
    /// Explain the usage.
    Help,
}

/// How many steps a run takes before giving up, unless told otherwise.
pub const DEFAULT_STEPS: u32 = 15;

/// The confidence below which a run asks rather than acts, unless told
/// otherwise: `0.6`, as the bit pattern of the IEEE double.
pub const DEFAULT_FLOOR: u64 = 0x3FE3_3333_3333_3333;

/// A command line that could not be understood.
#[derive(Debug, Clone, PartialEq, Eq)]
pub enum CliError {
    /// A flag that is not one of ours. Refused rather than taken as the
    /// goal: a mistyped `--device` would otherwise become the thing the run
    /// pursues, on whatever phone happened to be attached.
    UnknownFlag(String),
    /// A flag that needs a value did not get one.
    MissingValue(&'static str),
    /// A value that is not what that flag accepts.
    BadValue {
        /// The flag.
        flag: &'static str,
        /// What followed it.
        got: String,
    },
    /// No goal was given.
    NoGoal,
    /// More than one goal was given.
    TooManyGoals,
}

/// An invocation as plain values; a run's floors by the one given for
/// ordinary gestures.
pub ghost enum InvocationView {
    Run {
        goal: Seq<char>,
        device: Option<Seq<char>>,
        accept: Seq<Seq<char>>,
        steps: u32,
        floor: Confidence,
        app: Option<Seq<char>>,
        desk: Option<Seq<char>>,
    },
    Helper { device: Option<Seq<char>>, install: bool },
    Devices,
    Observe { device: Option<Seq<char>> },
    Help,
}

/// A refusal as plain values.
pub ghost enum CliErrorView {
    UnknownFlag(Seq<char>),
    MissingValue(Seq<char>),
    BadValue { flag: Seq<char>, got: Seq<char> },
    NoGoal,
    TooManyGoals,
}

impl View for Invocation {
    type V = InvocationView;

    open spec fn view(&self) -> InvocationView {
        match self {
            Invocation::Run { goal, device, accept, steps, floors, app, desk } => InvocationView::Run {
                goal: goal@,
                device: crate::snapshot::text_of(*device),
                accept: crate::snapshot::texts(accept@),
                steps: *steps,
                floor: floors.floor(Consequence::Ordinary),
                app: crate::snapshot::text_of(*app),
                desk: crate::snapshot::text_of(*desk),
            },
            Invocation::Helper { device, install } => InvocationView::Helper {
                device: crate::snapshot::text_of(*device),
                install: *install,
            },
            Invocation::Devices => InvocationView::Devices,
            Invocation::Observe { device } => InvocationView::Observe { device: crate::snapshot::text_of(*device) },
            Invocation::Help => InvocationView::Help,
        }
    }
}

impl View for CliError {
    type V = CliErrorView;

    open spec fn view(&self) -> CliErrorView {
        match self {
            CliError::UnknownFlag(flag) => CliErrorView::UnknownFlag(flag@),
            CliError::MissingValue(flag) => CliErrorView::MissingValue(flag@),
            CliError::BadValue { flag, got } => CliErrorView::BadValue { flag: flag@, got: got@ },
            CliError::NoGoal => CliErrorView::NoGoal,
            CliError::TooManyGoals => CliErrorView::TooManyGoals,
        }
    }
}

/// What a run's options have said so far.
pub ghost struct RunWords {
    pub goal: Option<Seq<char>>,
    pub device: Option<Seq<char>>,
    pub accept: Seq<Seq<char>>,
    pub steps: u32,
    pub floor: Confidence,
    pub app: Option<Seq<char>>,
    pub desk: Option<Seq<char>>,
    pub ended: bool,
}

/// Whether a word is an option rather than the goal.
pub open spec fn is_option(w: Seq<char>) -> bool {
    w.len() > 0 && w[0] == '-'
}

/// A run's options from word `i` on, each confidence in `floors` being what
/// the word at that position reads as.
pub open spec fn run_words(
    args: Seq<Seq<char>>,
    floors: Seq<Option<Confidence>>,
    i: int,
    st: RunWords,
) -> Result<RunWords, CliErrorView>
    decreases args.len() - i,
{
    if i < 0 || i >= args.len() {
        Ok(st)
    } else {
        let w = args[i];
        let has_value = i + 1 < args.len();
        if st.ended || !is_option(w) {
            if st.goal is Some {
                Err(CliErrorView::TooManyGoals)
            } else {
                run_words(args, floors, i + 1, RunWords { goal: Some(w), ..st })
            }
        } else if w == "--"@ {
            run_words(args, floors, i + 1, RunWords { ended: true, ..st })
        } else if w == "--device"@ || w == "-d"@ {
            if has_value {
                run_words(args, floors, i + 2, RunWords { device: Some(args[i + 1]), ..st })
            } else {
                Err(CliErrorView::MissingValue("--device"@))
            }
        } else if w == "--accept"@ || w == "-a"@ {
            if has_value {
                run_words(args, floors, i + 2, RunWords { accept: st.accept.push(args[i + 1]), ..st })
            } else {
                Err(CliErrorView::MissingValue("--accept"@))
            }
        } else if w == "--desk"@ {
            if has_value {
                run_words(args, floors, i + 2, RunWords { desk: Some(args[i + 1]), ..st })
            } else {
                Err(CliErrorView::MissingValue("--desk"@))
            }
        } else if w == "--steps"@ {
            if has_value {
                match parse_u32(args[i + 1]) {
                    Some(n) if n > 0 => run_words(args, floors, i + 2, RunWords { steps: n, ..st }),
                    _ => Err(CliErrorView::BadValue { flag: "--steps"@, got: args[i + 1] }),
                }
            } else {
                Err(CliErrorView::MissingValue("--steps"@))
            }
        } else if w == "--app"@ {
            if has_value {
                run_words(args, floors, i + 2, RunWords { app: Some(args[i + 1]), ..st })
            } else {
                Err(CliErrorView::MissingValue("--app"@))
            }
        } else if w == "--floor"@ {
            if has_value {
                match floors[i + 1] {
                    Some(c) => run_words(args, floors, i + 2, RunWords { floor: c, ..st }),
                    None => Err(CliErrorView::BadValue { flag: "--floor"@, got: args[i + 1] }),
                }
            } else {
                Err(CliErrorView::MissingValue("--floor"@))
            }
        } else {
            Err(CliErrorView::UnknownFlag(w))
        }
    }
}

/// The `--device` a subcommand was given, from word `i` on.
pub open spec fn device_words(args: Seq<Seq<char>>, i: int, device: Option<Seq<char>>) -> Result<
    Option<Seq<char>>,
    CliErrorView,
>
    decreases args.len() - i,
{
    if i < 0 || i >= args.len() {
        Ok(device)
    } else if args[i] == "--device"@ || args[i] == "-d"@ {
        if i + 1 < args.len() {
            device_words(args, i + 2, Some(args[i + 1]))
        } else {
            Err(CliErrorView::MissingValue("--device"@))
        }
    } else {
        Err(CliErrorView::UnknownFlag(args[i]))
    }
}

/// What `helper` was told, from word `i` on.
pub open spec fn helper_words(args: Seq<Seq<char>>, i: int, device: Option<Seq<char>>, install: bool) -> Result<
    (Option<Seq<char>>, bool),
    CliErrorView,
>
    decreases args.len() - i,
{
    if i < 0 || i >= args.len() {
        Ok((device, install))
    } else if args[i] == "install"@ {
        helper_words(args, i + 1, device, true)
    } else if args[i] == "--device"@ || args[i] == "-d"@ {
        if i + 1 < args.len() {
            helper_words(args, i + 2, Some(args[i + 1]), install)
        } else {
            Err(CliErrorView::MissingValue("--device"@))
        }
    } else {
        Err(CliErrorView::UnknownFlag(args[i]))
    }
}

/// What a command line means.
pub open spec fn command_line(args: Seq<Seq<char>>, floors: Seq<Option<Confidence>>, default_floor: Confidence) -> Result<
    InvocationView,
    CliErrorView,
> {
    let first = if args.len() > 0 {
        args[0]
    } else {
        Seq::empty()
    };
    if args.len() > 0 && (first == "--help"@ || first == "-h"@ || first == "help"@) {
        Ok(InvocationView::Help)
    } else if args.len() > 0 && first == "devices"@ {
        Ok(InvocationView::Devices)
    } else if args.len() > 0 && first == "observe"@ {
        match device_words(args, 1, None) {
            Ok(device) => Ok(InvocationView::Observe { device }),
            Err(e) => Err(e),
        }
    } else if args.len() > 0 && first == "helper"@ {
        match helper_words(args, 1, None, false) {
            Ok((device, install)) => Ok(InvocationView::Helper { device, install }),
            Err(e) => Err(e),
        }
    } else {
        let start = RunWords {
            goal: None,
            device: None,
            accept: Seq::empty(),
            steps: DEFAULT_STEPS,
            floor: default_floor,
            app: None,
            desk: None,
            ended: false,
        };
        match run_words(args, floors, 0, start) {
            Err(e) => Err(e),
            Ok(st) => match st.goal {
                None => Err(CliErrorView::NoGoal),
                Some(goal) => Ok(
                    InvocationView::Run {
                        goal,
                        device: st.device,
                        accept: st.accept,
                        steps: st.steps,
                        floor: st.floor,
                        app: st.app,
                        desk: st.desk,
                    },
                ),
            },
        }
    }
}

/// The floors one `--floor` stands for: that floor for ordinary gestures, and
/// for the actions that end a run or cannot be undone, never less than the
/// default.
pub open spec fn scaled_from(f: Floors, floor: Confidence, default_floor: Confidence) -> bool {
    let careful = if floor.level() > default_floor.level() {
        floor
    } else {
        default_floor
    };
    &&& f.floor(Consequence::Ordinary) == floor
    &&& f.floor(Consequence::Terminal).level() == careful.level()
    &&& f.floor(Consequence::Destructive).level() == careful.level()
}

/// The default floor as a confidence.
pub fn default_floor() -> (c: Confidence)
    ensures
        c == Confidence::with_level(DEFAULT_FLOOR),
{
    let c = match Confidence::from_bits(DEFAULT_FLOOR) {
        Some(c) => c,
        None => Confidence::zero(),
    };
    proof {
        Confidence::lemma_level(c, DEFAULT_FLOOR);
    }
    c
}

/// What one number on the command line means for actions that cost
/// differently.
///
/// `--floor` is reached for when a run keeps stopping to ask about ordinary
/// gestures. It is never an answer about the actions that end the run or
/// leave the app: those keep the default as their minimum. Raising the floor
/// raises all three.
pub fn floors_from(floor: Confidence) -> (f: Floors)
    ensures
        scaled_from(f, floor, Confidence::with_level(DEFAULT_FLOOR)),
{
    let default = default_floor();
    let careful = floor.at_least(default);
    Floors::new(floor).requiring_for(Consequence::Terminal, careful).requiring_for(
        Consequence::Destructive,
        careful,
    )
}

/// The word after position `i`, or the refusal for a flag without one.
fn value(args: &Vec<String>, i: usize, flag: &'static str) -> (r: Result<String, CliError>)
    ensures
        i + 1 < args@.len() ==> (r matches Ok(v) && v@ == args@[i + 1]@),
        i + 1 >= args@.len() ==> r == Err::<String, CliError>(CliError::MissingValue(flag)),
{
    if i < args.len() && args.len() - i > 1 {
        Ok(args[i + 1].clone())
    } else {
        Err(CliError::MissingValue(flag))
    }
}

/// Whether a word is `a` or `b`.
fn either(w: &String, a: &str, b: &str) -> (r: bool)
    ensures
        r == (w@ == a@ || w@ == b@),
{
    crate::text::same_text(w.as_str(), a) || crate::text::same_text(w.as_str(), b)
}

/// The `--device` of `observe`, from word `i` on.
fn read_device(args: &Vec<String>, i: usize) -> (r: Result<Option<String>, CliError>)
    requires
        i <= args@.len(),
    ensures
        match device_words(crate::snapshot::texts(args@), i as int, None) {
            Ok(d) => r matches Ok(x) && crate::snapshot::text_of(x) == d,
            Err(e) => r matches Err(x) && x@ == e,
        },
{
    let ghost a = crate::snapshot::texts(args@);
    let ghost start = i as int;
    let mut device: Option<String> = None;
    let mut at = i;
    while at < args.len()
        invariant
            at <= args@.len(),
            start == i,
            a == crate::snapshot::texts(args@),
            device_words(a, at as int, crate::snapshot::text_of(device)) == device_words(a, start, None),
        decreases args@.len() - at,
    {
        assert(a[at as int] == args@[at as int]@);
        if either(&args[at], "--device", "-d") {
            match value(args, at, "--device") {
                Ok(v) => {
                    assert(a[at + 1] == args@[at + 1]@);
                    device = Some(v);
                    at = at + 2;
                },
                Err(e) => {
                    return Err(e);
                },
            }
        } else {
            return Err(CliError::UnknownFlag(args[at].clone()));
        }
    }
    Ok(device)
}

/// What `helper` was told, from word `i` on.
fn read_helper(args: &Vec<String>, i: usize) -> (r: Result<(Option<String>, bool), CliError>)
    requires
        i <= args@.len(),
    ensures
        match helper_words(crate::snapshot::texts(args@), i as int, None, false) {
            Ok((d, install)) => r matches Ok(x) && crate::snapshot::text_of(x.0) == d && x.1 == install,
            Err(e) => r matches Err(x) && x@ == e,
        },
{
    let ghost a = crate::snapshot::texts(args@);
    let ghost start = i as int;
    let mut device: Option<String> = None;
    let mut install = false;
    let mut at = i;
    while at < args.len()
        invariant
            at <= args@.len(),
            start == i,
            a == crate::snapshot::texts(args@),
            helper_words(a, at as int, crate::snapshot::text_of(device), install) == helper_words(a, start, None, false),
        decreases args@.len() - at,
    {
        assert(a[at as int] == args@[at as int]@);
        if crate::text::same_text(args[at].as_str(), "install") {
            install = true;
            at = at + 1;
        } else if either(&args[at], "--device", "-d") {
            match value(args, at, "--device") {
                Ok(v) => {
                    assert(a[at + 1] == args@[at + 1]@);
                    device = Some(v);
                    at = at + 2;
                },
                Err(e) => {
                    return Err(e);
                },
            }
        } else {
            return Err(CliError::UnknownFlag(args[at].clone()));
        }
    }
    Ok((device, install))
}

/// A run's options as plain values.
pub open spec fn run_state(
    goal: Option<String>,
    device: Option<String>,
    accept: Seq<String>,
    steps: u32,
    floor: Confidence,
    app: Option<String>,
    desk: Option<String>,
    ended: bool,
) -> RunWords {
    RunWords {
        goal: crate::snapshot::text_of(goal),
        device: crate::snapshot::text_of(device),
        accept: crate::snapshot::texts(accept),
        steps,
        floor,
        app: crate::snapshot::text_of(app),
        desk: crate::snapshot::text_of(desk),
        ended,
    }
}

/// Read a command line, without its program name.
///
/// `floors` holds, for each word, the confidence it reads as when it is the
/// value of `--floor`: a probability written as a decimal, within `0..=1`.
///
/// Refused with [`CliError`] when the words are not a command this tool has.
pub fn parse(args: Vec<String>, floors: Vec<Option<Confidence>>) -> (r: Result<Invocation, CliError>)
    requires
        floors@.len() == args@.len(),
    ensures
        match command_line(crate::snapshot::texts(args@), floors@, Confidence::with_level(DEFAULT_FLOOR)) {
            Ok(v) => r matches Ok(x) && x@ == v,
            Err(e) => r matches Err(x) && x@ == e,
        },
        r matches Ok(Invocation::Run { floors: f, .. }) ==> scaled_from(f, f.floor(Consequence::Ordinary), Confidence::with_level(DEFAULT_FLOOR)),
{
    let ghost a = crate::snapshot::texts(args@);
    let default = default_floor();
    if args.len() > 0 {
        assert(a[0] == args@[0]@);
        if either(&args[0], "--help", "-h") || crate::text::same_text(args[0].as_str(), "help") {
            return Ok(Invocation::Help);
        }
        if crate::text::same_text(args[0].as_str(), "devices") {
            return Ok(Invocation::Devices);
        }
        if crate::text::same_text(args[0].as_str(), "observe") {
            return match read_device(&args, 1) {
                Ok(device) => Ok(Invocation::Observe { device }),
                Err(e) => Err(e),
            };
        }
        if crate::text::same_text(args[0].as_str(), "helper") {
            return match read_helper(&args, 1) {
                Ok((device, install)) => Ok(Invocation::Helper { device, install }),
                Err(e) => Err(e),
            };
        }
    }
    let mut goal: Option<String> = None;
    let mut device: Option<String> = None;
    let mut accept: Vec<String> = Vec::new();
    let mut steps: u32 = DEFAULT_STEPS;
    let mut floor: Confidence = default;
    let mut desk: Option<String> = None;
    let mut app: Option<String> = None;
    let mut ended = false;
    let ghost first = run_state(goal, device, accept@, steps, floor, app, desk, ended);
    assert(crate::snapshot::texts(accept@) =~= Seq::<Seq<char>>::empty());
    let mut at: usize = 0;
    while at < args.len()
        invariant
            at <= args@.len(),
            floors@.len() == args@.len(),
            a == crate::snapshot::texts(args@),
            first == (RunWords {
                goal: None,
                device: None,
                accept: Seq::empty(),
                steps: DEFAULT_STEPS,
                floor: Confidence::with_level(DEFAULT_FLOOR),
                app: None,
                desk: None,
                ended: false,
            }),
            !(a.len() > 0 && (a[0] == "--help"@ || a[0] == "-h"@ || a[0] == "help"@ || a[0] == "devices"@
                || a[0] == "observe"@ || a[0] == "helper"@)),
            run_words(a, floors@, at as int, run_state(goal, device, accept@, steps, floor, app, desk, ended))
                == run_words(a, floors@, 0, first),
        decreases args@.len() - at,
    {
        assert(a[at as int] == args@[at as int]@);
        let ghost here = run_state(goal, device, accept@, steps, floor, app, desk, ended);
        let word = &args[at];
        let chars = crate::text::chars_of(word.as_str());
        let is_flag = chars.len() > 0 && chars[0] == '-';
        if ended || !is_flag {
            if goal.is_some() {
                return Err(CliError::TooManyGoals);
            }
            goal = Some(word.clone());
            at = at + 1;
        } else if crate::text::same_text(word.as_str(), "--") {
            ended = true;
            at = at + 1;
        } else if either(word, "--device", "-d") {
            match value(&args, at, "--device") {
                Ok(v) => {
                    device = Some(v);
                },
                Err(e) => {
                    return Err(e);
                },
            }
            assert(a[at + 1] == args@[at + 1]@);
            at = at + 2;
        } else if either(word, "--accept", "-a") {
            match value(&args, at, "--accept") {
                Ok(v) => {
                    accept.push(v);
                },
                Err(e) => {
                    return Err(e);
                },
            }
            assert(a[at + 1] == args@[at + 1]@);
            assert(crate::snapshot::texts(accept@) =~= here.accept.push(a[at + 1]));
            at = at + 2;
        } else if crate::text::same_text(word.as_str(), "--desk") {
            match value(&args, at, "--desk") {
                Ok(v) => {
                    desk = Some(v);
                },
                Err(e) => {
                    return Err(e);
                },
            }
            assert(a[at + 1] == args@[at + 1]@);
            at = at + 2;
        } else if crate::text::same_text(word.as_str(), "--steps") {
            let got = match value(&args, at, "--steps") {
                Ok(v) => v,
                Err(e) => {
                    return Err(e);
                },
            };
            assert(a[at + 1] == args@[at + 1]@);
            let digits = crate::text::chars_of(got.as_str());
            proof {
                crate::text::lemma_parse_natural_nonneg(got@);
            }
            match crate::text::natural_of(digits.as_slice(), 4294967295) {
                Some(n) if n > 0 => {
                    steps = n as u32;
                },
                _ => {
                    return Err(CliError::BadValue { flag: "--steps", got });
                },
            }
            at = at + 2;
        } else if crate::text::same_text(word.as_str(), "--app") {
            match value(&args, at, "--app") {
                Ok(v) => {
                    app = Some(v);
                },
                Err(e) => {
                    return Err(e);
                },
            }
            assert(a[at + 1] == args@[at + 1]@);
            at = at + 2;
        } else if crate::text::same_text(word.as_str(), "--floor") {
            let got = match value(&args, at, "--floor") {
                Ok(v) => v,
                Err(e) => {
                    return Err(e);
                },
            };
            assert(a[at + 1] == args@[at + 1]@);
            match floors[at + 1] {
                Some(c) => {
                    floor = c;
                },
                None => {
                    return Err(CliError::BadValue { flag: "--floor", got });
                },
            }
            at = at + 2;
        } else {
            return Err(CliError::UnknownFlag(word.clone()));
        }
    }
    match goal {
        None => Err(CliError::NoGoal),
        Some(goal) => Ok(
            Invocation::Run { goal, device, accept, steps, floors: floors_from(floor), app, desk },
        ),
    }
}

impl CliError {
    /// What was not understood, for a person to read.
    pub fn message(&self) -> (s: String)
        ensures
            s@ == match self@ {
                CliErrorView::UnknownFlag(flag) => "unknown option "@ + flag,
                CliErrorView::MissingValue(flag) => flag + " needs a value"@,
                CliErrorView::BadValue { flag, got } => flag + " cannot be "@ + crate::text::debug_text(got),
                CliErrorView::NoGoal => "no goal given: say what you want done, in quotes"@,
                CliErrorView::TooManyGoals => "more than one goal given: put the whole goal in quotes"@,
            },
    {
        match self {
            CliError::UnknownFlag(flag) => {
                let mut s = String::from_str("unknown option ");
                crate::text::push_str(&mut s, flag.as_str());
                s
            },
            CliError::MissingValue(flag) => {
                let mut s = String::from_str(flag);
                crate::text::push_str(&mut s, " needs a value");
                s
            },
            CliError::BadValue { flag, got } => {
                let mut s = String::from_str(flag);
                crate::text::push_str(&mut s, " cannot be ");
                crate::text::push_str(&mut s, crate::text::debug_quote(got.as_str()).as_str());
                s
            },
            CliError::NoGoal => String::from_str("no goal given: say what you want done, in quotes"),
            CliError::TooManyGoals => String::from_str("more than one goal given: put the whole goal in quotes"),
        }
    }
}

/// What to print for `--help`.
pub const USAGE: &'static str = "jev-pilot — drive an Android device toward a goal

USAGE
  jev-pilot [options] \"<goal>\"       pursue a goal
  jev-pilot devices                   list attached devices
  jev-pilot observe                   print what the next step would be offered
  jev-pilot helper [install]          report on, or install, the on-device helper

OPTIONS
  -d, --device <serial>   which device, when more than one is attached
  -a, --accept <claim>    a claim that must hold on screen before success is
                          accepted; repeatable. Only write claims about text
                          the final screen actually shows.
      --steps <n>         how many steps before giving up (default 15)
      --app <package>     the app the goal is about; it is brought to the
                          front first, and the run knows when it has left it
      --floor <0..1>      below this confidence the run asks you (default 0.6).
                          Lowering it applies to ordinary gestures only —
                          ending the run, and leaving the app, keep 0.6
      --desk <dir>        where questions are written, so another decider can
                          answer them by writing <dir>/answer.json
  -h, --help              this text

ENVIRONMENT
  TYPESAFE_API_KEY        the key Jev is called with
  TYPESAFE_API_KEY_FILE   a file holding it instead

The helper is strongly recommended: without it each screen read takes about
2.5s instead of about 60ms. `jev-pilot helper` says what a device needs.
";

} // verus!
