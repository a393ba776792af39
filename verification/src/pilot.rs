//! The loop's decisions: what a run remembers from one step to the next, and
//! what each thing that happens in a step makes of it.
//!
//! Observing, judging, asking and acting are done by whoever drives the loop.
//! Everything the loop decides between those is here, as a [`Course`] that is
//! told what happened and answers with what to do next, so the guards — the
//! step limit, the verdict checks, the repetition and standing-still limits —
//! are stated and proved without a device or a model.
use crate::act::{Act, ActView, Catalog, Direction, Indecision, Operation, Outcome, Swipe, SystemAct};
use crate::text::{debug_quote, debug_text};
use crate::snapshot::{describe_view, texts, text_of, Element, ElementRef, Snapshot, SnapshotView, TapError};
use vstd::prelude::*;

verus! {

/// What a second opinion decided.
#[derive(Debug, Clone, Copy, PartialEq, Eq, Structural)]
pub enum Resolution {
    /// Carry out this operation, on this row by position. An index rather than
    /// an action: a second opinion is bound by the same catalog the model
    /// was, so it cannot name an operation the platform lacks, a row that is
    /// not on screen, or a coordinate at all.
    Choose {
        /// What to do.
        operation: Operation,
        /// Which row, for an operation that needs one.
        target: Option<usize>,
    },
    /// Decline, ending the run as if nothing had been consulted.
    Stop,
}

/// The composer that writes nothing, so typing is never offered.
#[derive(Debug, Clone, Copy, Default)]
pub struct Mute;

/// The escalation that stops, and lets the caller decide what to do about it.
#[derive(Debug, Clone, Copy, Default)]
pub struct Halt;

/// How a run ended.
#[derive(Debug, Clone, PartialEq)]
pub enum Ending {
    /// The model declared the run over.
    Finished(Outcome),
    /// The screen was judged to be an error state.
    ErrorScreen,
    /// No option stood out clearly enough to act on.
    Uncertain {
        /// Why the choice was refused.
        because: Indecision,
    },
    /// The step limit was reached without a verdict.
    OutOfSteps {
        /// The limit that was hit.
        limit: u32,
    },
}

/// A run could not be carried out.
#[derive(Debug)]
pub enum RunError<D, J, X, C> {
    /// The device could not be observed or driven.
    Device(D),
    /// The judgment could not be obtained.
    Judge(J),
    /// The second opinion could not be obtained.
    Escalation(X),
    /// The text to type could not be written.
    Composition(C),
    /// An action could not be turned into a point on the screen.
    Unreachable(TapError),
}

/// How many steps a run takes before giving up.
pub const STEP_LIMIT: u32 = 25;

/// How long to keep looking for the screen to change after acting, per
/// attempt, in milliseconds.
pub const CHANGE_BUDGET_MS: u64 = 1_200;

/// How often to look while waiting, in milliseconds.
pub const CHANGE_POLL_MS: u64 = 80;

/// How many actions in a row may leave the screen untouched before a run
/// stops repeating itself and asks.
pub const INEFFECTIVE_LIMIT: u32 = 3;

/// How long a screen must have gone without an accessibility event before
/// the device's own account of it is taken as settled, in milliseconds.
pub const QUIET_ENOUGH_MS: u64 = 120;

/// How many screens back, and how many actions back, a run remembers.
pub const MEMORY: usize = 12;

/// How long a named app is given to put something on screen, in
/// milliseconds.
pub const LAUNCH_BUDGET_MS: u64 = 8_000;

/// How a row is named in an account of what was done to it.
pub open spec fn named(s: SnapshotView, h: ElementRef) -> Seq<char> {
    if h.stamp() == s.generation && h.position() < s.elements.len() {
        describe_view(s.elements[h.position()])
    } else {
        "a row that is gone"@
    }
}

/// The name of a direction of travel.
pub open spec fn swipe_word(d: Swipe) -> Seq<char> {
    match d {
        Swipe::Left => "Left"@,
        Swipe::Right => "Right"@,
    }
}

/// The name of a scrolling direction.
pub open spec fn direction_word(d: Direction) -> Seq<char> {
    match d {
        Direction::Up => "Up"@,
        Direction::Down => "Down"@,
    }
}

/// The name of a system gesture.
pub open spec fn gesture_word(g: SystemAct) -> Seq<char> {
    match g {
        SystemAct::Back => "Back"@,
        SystemAct::Home => "Home"@,
        SystemAct::AppSwitcher => "AppSwitcher"@,
        SystemAct::Submit => "Submit"@,
    }
}

/// The name of a verdict.
pub open spec fn outcome_word(o: Outcome) -> Seq<char> {
    match o {
        Outcome::Achieved => "Achieved"@,
        Outcome::Blocked => "Blocked"@,
    }
}

/// An action, described the way the next step should hear about it.
pub open spec fn account(act: ActView, s: SnapshotView) -> Seq<char> {
    match act {
        ActView::Tap(h) => "Tapped "@ + named(s, h),
        ActView::DoubleTap(h) => "Double-tapped "@ + named(s, h),
        ActView::LongPress(h) => "Long-pressed "@ + named(s, h),
        ActView::Peek(h) => "Peeked at "@ + named(s, h),
        ActView::SwipeElement { target, direction } => "Swiped "@ + named(s, target) + " "@ + swipe_word(direction),
        ActView::TypeText { into, text } => "Typed "@ + debug_text(text) + " into "@ + named(s, into),
        ActView::Scroll(d) => "Scrolled "@ + direction_word(d),
        ActView::System(g) => "Pressed "@ + gesture_word(g),
        ActView::CloseKeyboard => "Closed the keyboard"@,
        ActView::Return(app) => "Returned to "@ + app,
        ActView::Wait => "Waited for the screen to settle"@,
        ActView::Finish(o) => "Declared "@ + outcome_word(o),
    }
}

/// `a` followed by `b`.
fn joined(a: &str, b: &str) -> (r: String)
    ensures
        r@ == a@ + b@,
{
    let mut s = String::from_str(a);
    crate::text::push_str(&mut s, b);
    s
}

/// How a row is named, by the snapshot that issued it.
fn name_of(snapshot: &Snapshot, handle: ElementRef) -> (r: String)
    ensures
        r@ == named(snapshot@, handle),
{
    match snapshot.resolve(handle) {
        Ok(element) => element.describe(),
        Err(_) => String::from_str("a row that is gone"),
    }
}

/// Describe an action the way the next step should hear about it.
pub fn recount(act: &Act, snapshot: &Snapshot) -> (r: String)
    ensures
        r@ == account(act@, snapshot@),
{
    match act {
        Act::Tap(h) => joined("Tapped ", name_of(snapshot, *h).as_str()),
        Act::DoubleTap(h) => joined("Double-tapped ", name_of(snapshot, *h).as_str()),
        Act::LongPress(h) => joined("Long-pressed ", name_of(snapshot, *h).as_str()),
        Act::Peek(h) => joined("Peeked at ", name_of(snapshot, *h).as_str()),
        Act::SwipeElement { target, direction } => {
            let mut s = joined("Swiped ", name_of(snapshot, *target).as_str());
            s.push(' ');
            proof {
                reveal_strlit(" ");
            }
            crate::text::push_str(
                &mut s,
                match direction {
                    Swipe::Left => "Left",
                    Swipe::Right => "Right",
                },
            );
            assert(s@ =~= account(act@, snapshot@));
            s
        },
        Act::TypeText { into, text } => {
            let mut s = joined("Typed ", debug_quote(text.as_str()).as_str());
            crate::text::push_str(&mut s, " into ");
            crate::text::push_str(&mut s, name_of(snapshot, *into).as_str());
            assert(s@ =~= account(act@, snapshot@));
            s
        },
        Act::Scroll(d) => joined(
            "Scrolled ",
            match d {
                Direction::Up => "Up",
                Direction::Down => "Down",
            },
        ),
        Act::System(g) => joined(
            "Pressed ",
            match g {
                SystemAct::Back => "Back",
                SystemAct::Home => "Home",
                SystemAct::AppSwitcher => "AppSwitcher",
                SystemAct::Submit => "Submit",
            },
        ),
        Act::CloseKeyboard => String::from_str("Closed the keyboard"),
        Act::Return(app) => joined("Returned to ", app.as_str()),
        Act::Wait => String::from_str("Waited for the screen to settle"),
        Act::Finish(o) => joined(
            "Declared ",
            match o {
                Outcome::Achieved => "Achieved",
                Outcome::Blocked => "Blocked",
            },
        ),
    }
}

/// What a run carries from one step to the next.
#[derive(Debug)]
pub struct Course {
    previous: Option<String>,
    lately: Vec<String>,
    ineffective: u32,
    visited: Vec<u64>,
    repeating: u32,
    last_did: Option<String>,
    origin: Option<String>,
    step: u32,
    limit: u32,
}

/// What a run carries, as plain values.
pub ghost struct CourseView {
    /// What the previous step did, as the next judgement is told it.
    pub previous: Option<Seq<char>>,
    /// What the run has done lately, oldest first.
    pub lately: Seq<Seq<char>>,
    /// How many actions in a row have left the screen as it was.
    pub ineffective: u32,
    /// The screens judged lately, by fingerprint, newest last.
    pub visited: Seq<u64>,
    /// How many times in a row the same thing has been done.
    pub repeating: u32,
    /// The last action on its own, without any note about its effect.
    pub last_did: Option<Seq<char>>,
    /// The application the goal is about.
    pub origin: Option<Seq<char>>,
    /// Which step this is, counting from one; zero before the first.
    pub step: u32,
    /// How many steps the run may take.
    pub limit: u32,
}

impl View for Course {
    type V = CourseView;

    closed spec fn view(&self) -> CourseView {
        CourseView {
            previous: text_of(self.previous),
            lately: texts(self.lately@),
            ineffective: self.ineffective,
            visited: self.visited@,
            repeating: self.repeating,
            last_did: text_of(self.last_did),
            origin: text_of(self.origin),
            step: self.step,
            limit: self.limit,
        }
    }
}

/// What a step is told about where it stands, beyond the screen itself.
#[derive(Debug, Clone, Copy, PartialEq, Eq, Structural)]
pub struct Sighting {
    /// How many steps ago this screen was last judged, if it was.
    pub seen_before: Option<u32>,
    /// How many times in a row the same action has already been taken, once
    /// that is at least twice.
    pub repeating: Option<u32>,
}

/// What a judgement of a screen makes the step do.
#[derive(Debug, Clone, PartialEq)]
pub enum Judged {
    /// The run is over.
    End(Ending),
    /// Nothing is acted on; the next step begins, told why.
    Again,
    /// Go on to decide what to do.
    Decide,
}

/// How many steps back `here` was last remembered, counting the newest as
/// one.
pub open spec fn ago(visited: Seq<u64>, here: u64) -> Option<nat>
    decreases visited.len(),
{
    if visited.len() == 0 {
        None
    } else if visited.last() == here {
        Some(1)
    } else {
        match ago(visited.drop_last(), here) {
            Some(n) => Some(n + 1),
            None => None,
        }
    }
}

/// `v` with `x` added at the end, the oldest forgotten once more than
/// [`MEMORY`] are held.
pub open spec fn remember<T>(v: Seq<T>, x: T) -> Seq<T> {
    let w = v.push(x);
    if w.len() > MEMORY {
        w.drop_first()
    } else {
        w
    }
}

/// The origin a run takes from the screen it is on: the goal's app once
/// named; otherwise the first app seen that is not the home screen.
pub open spec fn origin_after(origin: Option<Seq<char>>, app: Option<Seq<char>>, launcher: Option<Seq<char>>) -> Option<Seq<char>> {
    match (origin, app) {
        (None, Some(a)) => if launcher == Some(a) {
            None
        } else {
            Some(a)
        },
        _ => origin,
    }
}

/// What a step that reached something resembling the goal is told when a
/// criterion was not met.
pub open spec fn rejected_note(claim: Seq<char>) -> Seq<char> {
    "Judged the goal met, but that was rejected: "@ + debug_text(claim) + " was not true"@
}

/// What a step is told when a verdict of success was refused for an unmet
/// criterion.
pub open spec fn refused_note(claim: Seq<char>) -> Seq<char> {
    "Declared the goal done, but that was rejected: "@ + debug_text(claim) + " was not true"@
}

/// What a step is told when success was declared on an empty screen.
pub open spec fn blind_note() -> Seq<char> {
    "Declared the goal done, but the screen was empty, so there was nothing to have judged it against"@
}

/// The note added when an action left the screen as it was.
pub open spec fn still_note(previous: Option<Seq<char>>) -> Seq<char> {
    let said = match previous {
        Some(p) => p,
        None => "Acted"@,
    };
    said + " — the screen did not change"@
}

/// What a course becomes after an action that moved the screen or did not.
pub open spec fn after_settling(c: CourseView, moved: bool) -> CourseView {
    if moved {
        CourseView { ineffective: 0, ..c }
    } else {
        CourseView { ineffective: (c.ineffective + 1) as u32, previous: Some(still_note(c.previous)), ..c }
    }
}

/// What a course becomes after an action is taken.
pub open spec fn after_acting(c: CourseView, did: Seq<char>) -> CourseView {
    CourseView {
        repeating: if c.last_did == Some(did) {
            if c.repeating == u32::MAX {
                u32::MAX
            } else {
                (c.repeating + 1) as u32
            }
        } else {
            1
        },
        last_did: Some(did),
        lately: remember(c.lately, did),
        previous: Some(did),
        ..c
    }
}

/// `a` followed by `b` and `c`.
fn joined3(a: &str, b: &str, c: &str) -> (r: String)
    ensures
        r@ == a@ + b@ + c@,
{
    let mut s = String::from_str(a);
    crate::text::push_str(&mut s, b);
    crate::text::push_str(&mut s, c);
    s
}

impl Course {
    /// What a run remembers is bounded, and standing still ends it before
    /// the count can grow past its limit.
    #[verifier::type_invariant]
    closed spec fn bounded(&self) -> bool {
        &&& self.lately@.len() <= MEMORY
        &&& self.visited@.len() <= MEMORY
        &&& self.ineffective < INEFFECTIVE_LIMIT
    }

    /// A run about to begin: nothing done yet, limited to `limit` steps, and
    /// belonging to `app` when the caller named one.
    pub fn new(app: Option<String>, limit: u32) -> (c: Course)
        ensures
            c@ == (CourseView {
                previous: None,
                lately: Seq::empty(),
                ineffective: 0,
                visited: Seq::empty(),
                repeating: 0,
                last_did: None,
                origin: text_of(app),
                step: 0,
                limit,
            }),
    {
        let c = Course {
            previous: None,
            lately: Vec::new(),
            ineffective: 0,
            visited: Vec::new(),
            repeating: 0,
            last_did: None,
            origin: app,
            step: 0,
            limit,
        };
        assert(texts(c.lately@) =~= Seq::<Seq<char>>::empty());
        c
    }

    /// Start the next step, if the run has one left.
    pub fn begin_step(&mut self) -> (more: bool)
        ensures
            more == (old(self)@.step < old(self)@.limit),
            final(self)@ == if more {
                CourseView { step: (old(self)@.step + 1) as u32, ..old(self)@ }
            } else {
                old(self)@
            },
    {
        proof {
            use_type_invariant(&*self);
        }
        if self.step < self.limit {
            self.step = self.step + 1;
            true
        } else {
            false
        }
    }

    /// How a run that used all its steps ends.
    pub fn out_of_steps(&self) -> (e: Ending)
        ensures
            e == (Ending::OutOfSteps { limit: self@.limit }),
    {
        Ending::OutOfSteps { limit: self.limit }
    }

    /// Which step this is, counting from one.
    pub fn step(&self) -> (n: u32)
        ensures
            n == self@.step,
    {
        self.step
    }

    /// What the previous step did, as the next judgement is told it.
    pub fn previous(&self) -> (r: Option<&str>)
        ensures
            match r {
                Some(p) => self@.previous == Some(p@),
                None => self@.previous is None,
            },
    {
        match &self.previous {
            Some(p) => Some(p.as_str()),
            None => None,
        }
    }

    /// What the run has done lately, oldest first.
    pub fn lately(&self) -> (r: Vec<String>)
        ensures
            texts(r@) == self@.lately,
    {
        crate::snapshot::copy_texts(&self.lately)
    }

    /// The application the goal is about, once known.
    pub fn origin(&self) -> (r: Option<&str>)
        ensures
            match r {
                Some(o) => self@.origin == Some(o@),
                None => self@.origin is None,
            },
    {
        match &self.origin {
            Some(o) => Some(o.as_str()),
            None => None,
        }
    }

    /// Take in the screen a step has just read, known by its fingerprint
    /// `here`, belonging to `app`, with `launcher` the home screen's app.
    ///
    /// Two screens can take turns for ever without either one repeating an
    /// action against an unchanged screen, so the run says how many steps
    /// ago it last judged this one. The first app seen that is not the home
    /// screen becomes the one the goal is about, unless the caller named it.
    pub fn arrive(&mut self, here: u64, app: Option<&str>, launcher: Option<&str>) -> (s: Sighting)
        ensures
            s.seen_before == match ago(old(self)@.visited, here) {
                Some(n) => Some(n as u32),
                None => None::<u32>,
            },
            s.repeating == if old(self)@.repeating >= 2 {
                Some(old(self)@.repeating)
            } else {
                None::<u32>
            },
            final(self)@ == (CourseView {
                visited: remember(old(self)@.visited, here),
                origin: origin_after(
                    old(self)@.origin,
                    match app {
                        Some(a) => Some(a@),
                        None => None,
                    },
                    match launcher {
                        Some(l) => Some(l@),
                        None => None,
                    },
                ),
                ..old(self)@
            }),
    {
        proof {
            use_type_invariant(&*self);
        }
        if self.origin.is_none() {
            match app {
                Some(a) => {
                    let home = match launcher {
                        Some(l) => crate::text::same_text(l, a),
                        None => false,
                    };
                    if !home {
                        self.origin = Some(String::from_str(a));
                    }
                },
                None => {},
            }
        }
        let ghost before = self.visited@;
        let mut seen: Option<u32> = None;
        let mut i: usize = self.visited.len();
        assert(before.take(i as int) =~= before);
        while i > 0
            invariant_except_break
                seen is None,
            invariant
                i <= before.len() <= MEMORY,
                before == self.visited@,
                ago(before, here) == match ago(before.take(i as int), here) {
                    Some(n) => Some((n + (before.len() - i)) as nat),
                    None => None,
                },
            ensures
                match ago(before, here) {
                    Some(n) => seen == Some(n as u32),
                    None => seen is None,
                },
            decreases i,
        {
            assert(before.take(i as int).drop_last() =~= before.take(i - 1));
            assert(before.take(i as int).last() == before[i - 1]);
            if self.visited[i - 1] == here {
                seen = Some((self.visited.len() - i + 1) as u32);
                break;
            }
            i = i - 1;
        }
        proof {
            if i == 0 {
                assert(before.take(0) =~= Seq::<u64>::empty());
            }
        }
        let mut visited: Vec<u64> = Vec::new();
        std::mem::swap(&mut visited, &mut self.visited);
        visited.push(here);
        if visited.len() > MEMORY {
            visited.remove(0);
        }
        assert(visited@ =~= remember(before, here));
        self.visited = visited;
        let repeating = if self.repeating >= 2 {
            Some(self.repeating)
        } else {
            None
        };
        Sighting { seen_before: seen, repeating }
    }
}

impl Course {
    /// What a judgement of the screen makes the step do.
    ///
    /// `error_screen` is whether the screen was judged an error state with
    /// more than the run's certainty; `blind` whether it had no rows at all;
    /// `achieved` whether the goal was judged met; `unmet` the first
    /// acceptance criterion that was not confirmed, if one was not; and
    /// `has_criteria` whether there are any.
    ///
    /// A screen with nothing on it is not evidence: every judgement about it
    /// was made from nothing, so neither a verdict nor the criteria can end a
    /// run there. A goal judged met with a criterion unmet has reached
    /// something that resembles the goal, and the next step is told so. The
    /// criteria are the caller's own definition of done, so every one of them
    /// confirmed ends the run too.
    pub fn judged(
        &mut self,
        error_screen: bool,
        blind: bool,
        achieved: bool,
        unmet: Option<&str>,
        has_criteria: bool,
    ) -> (j: Judged)
        ensures
            error_screen ==> (j == Judged::End(Ending::ErrorScreen) && final(self)@ == old(self)@),
            !error_screen && !blind && achieved && unmet is Some ==> (j == Judged::Again && final(self)@ == (CourseView {
                previous: Some(rejected_note(unmet->0@)),
                ..old(self)@
            })),
            !error_screen && !blind && achieved && unmet is None ==> (j == Judged::End(Ending::Finished(Outcome::Achieved))
                && final(self)@ == old(self)@),
            !error_screen && !blind && !achieved && has_criteria && unmet is None ==> (j == Judged::End(
                Ending::Finished(Outcome::Achieved),
            ) && final(self)@ == old(self)@),
            !error_screen && (blind || (!achieved && !(has_criteria && unmet is None))) ==> (j == Judged::Decide
                && final(self)@ == old(self)@),
    {
        if error_screen {
            return Judged::End(Ending::ErrorScreen);
        }
        if !blind && achieved {
            match unmet {
                Some(claim) => {
                    proof {
                        use_type_invariant(&*self);
                    }
                    self.previous = Some(joined3(
                        "Judged the goal met, but that was rejected: ",
                        debug_quote(claim).as_str(),
                        " was not true",
                    ));
                    return Judged::Again;
                },
                None => {
                    return Judged::End(Ending::Finished(Outcome::Achieved));
                },
            }
        }
        if !blind && has_criteria && unmet.is_none() {
            return Judged::End(Ending::Finished(Outcome::Achieved));
        }
        Judged::Decide
    }

    /// Whether a verdict is taken, and the run ends with it.
    ///
    /// A verdict of success is refused when the screen was empty, or when an
    /// acceptance criterion was not met; the next step is told why, so the
    /// same wrong thing is not chosen again. Any other verdict stands.
    pub fn verdict(&mut self, outcome: Outcome, blind: bool, unmet: Option<&str>) -> (e: Option<Ending>)
        ensures
            outcome != Outcome::Achieved ==> (e == Some(Ending::Finished(outcome)) && final(self)@ == old(self)@),
            outcome == Outcome::Achieved && blind ==> (e is None && final(self)@ == (CourseView {
                previous: Some(blind_note()),
                ..old(self)@
            })),
            outcome == Outcome::Achieved && !blind && unmet is Some ==> (e is None && final(self)@ == (CourseView {
                previous: Some(refused_note(unmet->0@)),
                ..old(self)@
            })),
            outcome == Outcome::Achieved && !blind && unmet is None ==> (e == Some(Ending::Finished(outcome))
                && final(self)@ == old(self)@),
    {
        proof {
            use_type_invariant(&*self);
        }
        match outcome {
            Outcome::Blocked => {
                return Some(Ending::Finished(outcome));
            },
            Outcome::Achieved => {},
        }
        if blind {
            self.previous = Some(String::from_str(
                "Declared the goal done, but the screen was empty, so there was nothing to have judged it against",
            ));
            return None;
        }
        match unmet {
            Some(claim) => {
                self.previous = Some(joined3(
                    "Declared the goal done, but that was rejected: ",
                    debug_quote(claim).as_str(),
                    " was not true",
                ));
                None
            },
            None => Some(Ending::Finished(outcome)),
        }
    }

    /// Note an action about to be carried out, described as `did`.
    ///
    /// Repetition is counted by what the action was, not by whether the
    /// screen moved: a form still validating swallows the tap on its commit
    /// button and changes anyway.
    pub fn acting(&mut self, did: String)
        ensures
            final(self)@ == after_acting(old(self)@, did@),
    {
        proof {
            use_type_invariant(&*self);
        }
        let same = match &self.last_did {
            Some(last) => crate::text::same_text(last.as_str(), did.as_str()),
            None => false,
        };
        self.repeating = if same {
            self.repeating.saturating_add(1)
        } else {
            1
        };
        self.last_did = Some(did.clone());
        let ghost before = self.lately@;
        let mut lately: Vec<String> = Vec::new();
        std::mem::swap(&mut lately, &mut self.lately);
        lately.push(did.clone());
        if lately.len() > MEMORY {
            lately.remove(0);
        }
        assert(texts(lately@) =~= remember(texts(before), did@));
        self.lately = lately;
        self.previous = Some(did);
    }

    /// How long to wait for the screen to move after acting, in
    /// milliseconds. Patience grows with each action that changed nothing: a
    /// button backed by a network call shows no change while the call is in
    /// flight, and only waiting longer tells "not yet" from "never".
    pub fn change_budget(&self) -> (ms: u64)
        ensures
            ms == CHANGE_BUDGET_MS * (self@.ineffective + 1),
    {
        proof {
            use_type_invariant(self);
        }
        CHANGE_BUDGET_MS * (self.ineffective as u64 + 1)
    }

    /// Take in whether the screen moved after an action, and whether the run
    /// ends for standing still.
    ///
    /// An action that changed nothing is worth saying: a run that does not
    /// know its action achieved nothing will cheerfully do it again. The
    /// [`INEFFECTIVE_LIMIT`]th such action in a row ends the run.
    pub fn settled(&mut self, moved: bool) -> (e: Option<Ending>)
        ensures
            ({
                let next = after_settling(old(self)@, moved);
                if next.ineffective >= INEFFECTIVE_LIMIT {
                    &&& e matches Some(Ending::Uncertain { because: Indecision::NoProgress { repeated } })
                    &&& repeated == next.ineffective
                    &&& final(self)@ == (CourseView { ineffective: old(self)@.ineffective, ..next })
                } else {
                    e is None && final(self)@ == next
                }
            }),
    {
        proof {
            use_type_invariant(&*self);
        }
        if moved {
            self.ineffective = 0;
            return None;
        }
        let count = self.ineffective + 1;
        let note = match &self.previous {
            Some(p) => joined(p.as_str(), " — the screen did not change"),
            None => joined("Acted", " — the screen did not change"),
        };
        self.previous = Some(note);
        if count >= INEFFECTIVE_LIMIT {
            return Some(Ending::Uncertain { because: Indecision::NoProgress { repeated: count } });
        }
        self.ineffective = count;
        None
    }
}

/// What one reading of the screen, while waiting for it to move, says.
#[derive(Debug, Clone, Copy, PartialEq, Eq, Structural)]
pub enum Watch {
    /// The wait is over: whether the screen moved.
    Over(bool),
    /// Keep looking; this is the screen last seen.
    Looking(u64),
}

/// What a reading after acting settles, the screen having been `before`
/// when the act was done and `last` at the previous reading.
///
/// When the device can say how long the screen has been quiet, that is the
/// answer. Otherwise two readings that agree, and differ from `before`, say
/// the screen moved and stopped: a screen that has begun to change has not
/// finished changing, and one that changes and changes back has not changed.
pub fn watch(before: u64, last: u64, quiet_ms: Option<u32>, now: u64) -> (w: Watch)
    ensures
        w == match quiet_ms {
            Some(q) if q >= QUIET_ENOUGH_MS => Watch::Over(now != before),
            _ => if now != before && now == last {
                Watch::Over(true)
            } else {
                Watch::Looking(now)
            },
        },
{
    match quiet_ms {
        Some(q) => {
            if q as u64 >= QUIET_ENOUGH_MS {
                return Watch::Over(now != before);
            }
        },
        None => {},
    }
    if now != before && now == last {
        Watch::Over(true)
    } else {
        Watch::Looking(now)
    }
}

/// Whether a named app, launched at the start of a run, has come up: in
/// front, as far as the reader can say which app is, and with something on
/// screen worth acting on. Either alone stops too early.
pub fn drawn(app: &str, seen: Option<&str>, worth_acting_on: bool) -> (r: bool)
    ensures
        r == (worth_acting_on && match seen {
            Some(s) => s@ == app@,
            None => true,
        }),
{
    let arrived = match seen {
        Some(s) => crate::text::same_text(s, app),
        None => true,
    };
    arrived && worth_acting_on
}

/// Three actions in a row that leave the screen as it was end a run, and
/// not fewer: from a run with no such action behind it, two still screens
/// leave it going, and the third ends it with as many counted.
pub proof fn standing_still_ends_a_run(c: CourseView)
    requires
        c.ineffective == 0,
    ensures
        after_settling(c, false).ineffective < INEFFECTIVE_LIMIT,
        after_settling(after_settling(c, false), false).ineffective < INEFFECTIVE_LIMIT,
        after_settling(after_settling(after_settling(c, false), false), false).ineffective == INEFFECTIVE_LIMIT,
{
}

/// A screen that moves resets the run's patience, whatever came before.
pub proof fn movement_resets_patience(c: CourseView)
    ensures
        after_settling(c, true).ineffective == 0,
        after_settling(c, true).previous == c.previous,
{
}

/// The same action taken twice in a row is counted as a repetition; a
/// different one starts the count again.
pub proof fn repetition_counts_the_same_action(c: CourseView, did: Seq<char>, other: Seq<char>)
    requires
        did != other,
        after_acting(c, did).repeating < u32::MAX,
    ensures
        after_acting(after_acting(c, did), did).repeating == after_acting(c, did).repeating + 1,
        after_acting(after_acting(c, did), other).repeating == 1,
        c.last_did != Some(did) ==> after_acting(c, did).repeating == 1,
{
}

/// What a run remembers never numbers more than [`MEMORY`], and the newest
/// is always the one just added: a screen just seen was seen one step ago.
pub proof fn memory_is_bounded<T>(kept: Seq<T>, newest: T, visited: Seq<u64>, here: u64)
    requires
        kept.len() <= MEMORY,
    ensures
        remember(kept, newest).len() <= MEMORY,
        remember(kept, newest).last() == newest,
        ago(remember(visited, here), here) == Some(1nat),
{
}

/// One value of the state a step is judged against.
#[derive(Debug, Clone, PartialEq, Eq)]
pub enum StateValue {
    /// Nothing.
    Null,
    /// Yes or no.
    Bool(bool),
    /// A count.
    Count(u32),
    /// Some words.
    Text(String),
    /// A list of words, in order.
    Texts(Vec<String>),
    /// Words keyed by name, in the order offered.
    Keyed(Vec<(String, String)>),
}

/// A state value as plain values.
pub ghost enum StateValueView {
    Null,
    Bool(bool),
    Count(u32),
    Text(Seq<char>),
    Texts(Seq<Seq<char>>),
    Keyed(Seq<(Seq<char>, Seq<char>)>),
}

/// The characters of each key and value.
pub open spec fn keyed_view(v: Seq<(String, String)>) -> Seq<(Seq<char>, Seq<char>)> {
    v.map_values(|p: (String, String)| (p.0@, p.1@))
}

impl View for StateValue {
    type V = StateValueView;

    open spec fn view(&self) -> StateValueView {
        match self {
            StateValue::Null => StateValueView::Null,
            StateValue::Bool(b) => StateValueView::Bool(*b),
            StateValue::Count(n) => StateValueView::Count(*n),
            StateValue::Text(t) => StateValueView::Text(t@),
            StateValue::Texts(ts) => StateValueView::Texts(texts(ts@)),
            StateValue::Keyed(kv) => StateValueView::Keyed(keyed_view(kv@)),
        }
    }
}

/// Every key and value of a state, in the order they are set.
pub open spec fn state_view(v: Seq<(String, StateValue)>) -> Seq<(Seq<char>, StateValueView)> {
    v.map_values(|p: (String, StateValue)| (p.0@, p.1@))
}

/// Where a step stands, beyond the rows of its screen.
///
/// The previous action matters more than it looks: without it, "is the goal
/// met?" is judged by something with no memory, which cannot tell a screen
/// just reached from one it has been stuck on for five turns.
#[derive(Debug, Clone)]
pub struct Standing {
    /// What the previous step did, if there was one.
    pub previous: Option<String>,
    /// Which application this screen belongs to.
    pub app: Option<String>,
    /// The application the goal is about.
    pub origin: Option<String>,
    /// Whether the soft keyboard is covering part of the screen.
    pub keyboard_open: bool,
    /// What the screen says, beyond what it offers to act on.
    pub says: Vec<String>,
    /// Controls the screen shows and will not let anything act on.
    pub unavailable: Vec<String>,
    /// How many steps ago this screen was last judged, if it was.
    pub seen_before: Option<u32>,
    /// How many times in a row the same action has already been taken.
    pub repeating: Option<u32>,
    /// What the run has done lately, oldest first.
    pub lately: Vec<String>,
}

/// Rows keyed as a Choice offers them: each by its option's name.
pub open spec fn keyed_rows(rows: Seq<(crate::judgment::OptionId, ElementRef, Seq<char>)>) -> Seq<(Seq<char>, Seq<char>)> {
    rows.map_values(|r: (crate::judgment::OptionId, ElementRef, Seq<char>)| (crate::judgment::option_name(r.0.number()), r.2))
}

/// The state a step is judged against, key by key in the order set: the
/// platform, the previous action, whether a keyboard is up, and the rows;
/// then, only where there is something to say, the app (and the one the
/// goal is about, when that differs), what was done lately, how often it
/// was repeated, how long ago this screen was seen, what is unavailable,
/// what the screen says, and the fields that can be typed into.
pub open spec fn state_of(platform: Seq<char>, c: crate::act::CatalogView, s: Standing) -> Seq<(Seq<char>, StateValueView)> {
    let base = seq![
        ("platform"@, StateValueView::Text(platform)),
        ("previous_action"@, match text_of(s.previous) {
            Some(p) => StateValueView::Text(p),
            None => StateValueView::Null,
        }),
        ("keyboard_open"@, StateValueView::Bool(s.keyboard_open)),
        ("rows"@, StateValueView::Keyed(keyed_rows(c.targets))),
    ];
    let with_app = match text_of(s.app) {
        Some(a) => {
            let named = base.push(("app"@, StateValueView::Text(a)));
            match text_of(s.origin) {
                Some(o) => if o != a {
                    named.push(("started_in"@, StateValueView::Text(o)))
                } else {
                    named
                },
                None => named,
            }
        },
        None => base,
    };
    let with_lately = if s.lately@.len() > 0 {
        with_app.push(("recent_actions"@, StateValueView::Texts(texts(s.lately@))))
    } else {
        with_app
    };
    let with_repeating = match s.repeating {
        Some(t) => with_lately.push(("repeating"@, StateValueView::Count(t))),
        None => with_lately,
    };
    let with_seen = match s.seen_before {
        Some(ago) => with_repeating.push(("seen_before"@, StateValueView::Count(ago))),
        None => with_repeating,
    };
    let with_unavailable = if s.unavailable@.len() > 0 {
        with_seen.push(("unavailable"@, StateValueView::Texts(texts(s.unavailable@))))
    } else {
        with_seen
    };
    let with_says = if s.says@.len() > 0 {
        with_unavailable.push(("screen_says"@, StateValueView::Texts(texts(s.says@))))
    } else {
        with_unavailable
    };
    if c.fields.len() > 0 {
        with_says.push(("fields"@, StateValueView::Keyed(keyed_rows(c.fields))))
    } else {
        with_says
    }
}

/// Rows keyed by their option's name.
fn keyed(rows: Vec<(crate::judgment::OptionId, String)>, Ghost(offered): Ghost<Seq<(crate::judgment::OptionId, ElementRef, Seq<char>)>>) -> (r: Vec<(String, String)>)
    requires
        rows@.len() == offered.len(),
        forall|j: int| 0 <= j < rows@.len() ==> (#[trigger] rows@[j]).0 == offered[j].0 && rows@[j].1@ == offered[j].2,
    ensures
        keyed_view(r@) == keyed_rows(offered),
{
    let mut r: Vec<(String, String)> = Vec::new();
    let mut i: usize = 0;
    while i < rows.len()
        invariant
            i <= rows@.len(),
            rows@.len() == offered.len(),
            forall|j: int| 0 <= j < rows@.len() ==> (#[trigger] rows@[j]).0 == offered[j].0 && rows@[j].1@ == offered[j].2,
            keyed_view(r@) == keyed_rows(offered.take(i as int)),
        decreases rows@.len() - i,
    {
        let ghost before = r@;
        r.push((rows[i].0.to_string(), rows[i].1.clone()));
        assert(keyed_rows(offered.take(i + 1)) =~= keyed_rows(offered.take(i as int)).push(
            (crate::judgment::option_name(offered[i as int].0.number()), offered[i as int].2),
        ));
        assert(keyed_view(r@) =~= keyed_view(before).push((r@[i as int].0@, r@[i as int].1@)));
        i = i + 1;
    }
    assert(offered.take(i as int) =~= offered);
    r
}

/// The state a step is judged against.
///
/// Only semantics: the rows as a person would read them, which platform
/// this is, and what the run has been doing. No coordinates, because a model
/// that cannot see one cannot invent one. Rows are keyed as the Choice
/// offers them, so its options can be bare keys.
#[verifier::rlimit(40)]
#[verifier::spinoff_prover]
pub fn describe(catalog: &Catalog, platform: &str, standing: &Standing) -> (r: Vec<(String, StateValue)>)
    ensures
        state_view(r@) == state_of(platform@, catalog@, *standing),
{
    let mut state: Vec<(String, StateValue)> = Vec::new();
    state.push((String::from_str("platform"), StateValue::Text(String::from_str(platform))));
    state.push((
        String::from_str("previous_action"),
        match &standing.previous {
            Some(p) => StateValue::Text(p.clone()),
            None => StateValue::Null,
        },
    ));
    state.push((String::from_str("keyboard_open"), StateValue::Bool(standing.keyboard_open)));
    let rows = keyed(catalog.rows(), Ghost(catalog@.targets));
    state.push((String::from_str("rows"), StateValue::Keyed(rows)));
    let ghost c = catalog@;
    let ghost s = *standing;
    let ghost base = seq![
        ("platform"@, StateValueView::Text(platform@)),
        ("previous_action"@, match text_of(s.previous) {
            Some(p) => StateValueView::Text(p),
            None => StateValueView::Null,
        }),
        ("keyboard_open"@, StateValueView::Bool(s.keyboard_open)),
        ("rows"@, StateValueView::Keyed(keyed_rows(c.targets))),
    ];
    assert(state_view(state@) =~= base);
    let ghost mut want = base;
    match &standing.app {
        Some(a) => {
            state.push((String::from_str("app"), StateValue::Text(a.clone())));
            proof {
                want = want.push(("app"@, StateValueView::Text(a@)));
            }
            assert(state_view(state@) =~= want);
            match &standing.origin {
                Some(o) => {
                    if !crate::text::same_text(o.as_str(), a.as_str()) {
                        state.push((String::from_str("started_in"), StateValue::Text(o.clone())));
                        proof {
                            want = want.push(("started_in"@, StateValueView::Text(o@)));
                        }
                        assert(state_view(state@) =~= want);
                    }
                },
                None => {},
            }
        },
        None => {},
    }
    if standing.lately.len() > 0 {
        state.push((String::from_str("recent_actions"), StateValue::Texts(crate::snapshot::copy_texts(&standing.lately))));
        proof {
            want = want.push(("recent_actions"@, StateValueView::Texts(texts(s.lately@))));
        }
        assert(state_view(state@) =~= want);
    }
    match standing.repeating {
        Some(t) => {
            state.push((String::from_str("repeating"), StateValue::Count(t)));
            proof {
                want = want.push(("repeating"@, StateValueView::Count(t)));
            }
            assert(state_view(state@) =~= want);
        },
        None => {},
    }
    match standing.seen_before {
        Some(ago) => {
            state.push((String::from_str("seen_before"), StateValue::Count(ago)));
            proof {
                want = want.push(("seen_before"@, StateValueView::Count(ago)));
            }
            assert(state_view(state@) =~= want);
        },
        None => {},
    }
    if standing.unavailable.len() > 0 {
        state.push((String::from_str("unavailable"), StateValue::Texts(crate::snapshot::copy_texts(&standing.unavailable))));
        proof {
            want = want.push(("unavailable"@, StateValueView::Texts(texts(s.unavailable@))));
        }
        assert(state_view(state@) =~= want);
    }
    if standing.says.len() > 0 {
        state.push((String::from_str("screen_says"), StateValue::Texts(crate::snapshot::copy_texts(&standing.says))));
        proof {
            want = want.push(("screen_says"@, StateValueView::Texts(texts(s.says@))));
        }
        assert(state_view(state@) =~= want);
    }
    let fields = keyed(catalog.fields_offered(), Ghost(catalog@.fields));
    assert(keyed_view(fields@).len() == fields@.len());
    assert(keyed_rows(c.fields).len() == c.fields.len());
    if fields.len() > 0 {
        state.push((String::from_str("fields"), StateValue::Keyed(fields)));
        proof {
            want = want.push(("fields"@, StateValueView::Keyed(keyed_rows(c.fields))));
        }
        assert(state_view(state@) =~= want);
    }
    assert(want =~= state_of(platform@, catalog@, *standing));
    state
}

} // verus!
