//! The boundary between a decision and a device.
//!
//! An [`Act`] names an element; a [`Command`] names a point. Translating one
//! into the other is the only place geometry leaves a [`Snapshot`], and it
//! cannot be done without the snapshot that issued the reference.
use crate::act::{Act, ActView, Direction, Swipe, SystemAct};
use crate::snapshot::{tap_point_of, Obscured, Point, Snapshot, SnapshotView, StaleRef, TapError};
use vstd::prelude::*;

pub mod adb;
pub mod helper;

verus! {

/// A concrete instruction a device adapter can carry out.
#[derive(Debug, Clone, PartialEq, Eq)]
pub enum Command {
    /// Tap at a point.
    Tap(Point),
    /// Type text into the field under a point, which is tapped first so that
    /// the field holds focus.
    TypeText {
        /// A point inside the field.
        at: Point,
        /// What to type.
        text: String,
    },
    /// Perform a system gesture.
    System(SystemAct),
    /// Scroll the screen one view in this direction.
    Scroll(Direction),
    /// Tap twice in quick succession at a point.
    DoubleTap(Point),
    /// Press and hold at a point.
    LongPress(Point),
    /// Drag sideways from a point.
    SwipeFrom {
        /// Where the drag starts.
        from: Point,
        /// Which way it goes.
        direction: Swipe,
    },
    /// Press firmly at a point to preview.
    Peek(Point),
    /// Bring the named application to the foreground.
    Launch(String),
    /// Let the screen finish whatever it is doing, then look again.
    Settle,
}

/// A command, as plain values.
pub ghost enum CommandView {
    Tap(Point),
    TypeText { at: Point, text: Seq<char> },
    System(SystemAct),
    Scroll(Direction),
    DoubleTap(Point),
    LongPress(Point),
    SwipeFrom { from: Point, direction: Swipe },
    Peek(Point),
    Launch(Seq<char>),
    Settle,
}

impl View for Command {
    type V = CommandView;

    open spec fn view(&self) -> CommandView {
        match self {
            Command::Tap(p) => CommandView::Tap(*p),
            Command::TypeText { at, text } => CommandView::TypeText { at: *at, text: text@ },
            Command::System(g) => CommandView::System(*g),
            Command::Scroll(d) => CommandView::Scroll(*d),
            Command::DoubleTap(p) => CommandView::DoubleTap(*p),
            Command::LongPress(p) => CommandView::LongPress(*p),
            Command::SwipeFrom { from, direction } => CommandView::SwipeFrom { from: *from, direction: *direction },
            Command::Peek(p) => CommandView::Peek(*p),
            Command::Launch(app) => CommandView::Launch(app@),
            Command::Settle => CommandView::Settle,
        }
    }
}

/// Where a reference lands on a screen: its tap point, or why there is none.
pub open spec fn landing(s: SnapshotView, h: crate::snapshot::ElementRef) -> Result<Point, TapError> {
    if h.stamp() == s.generation && h.position() < s.elements.len() {
        match tap_point_of(s, h.position()) {
            Some(p) => Ok(p),
            None => Err(TapError::Obscured(Obscured)),
        }
    } else {
        Err(TapError::Stale(StaleRef { expected: s.generation, found: h.stamp() }))
    }
}

/// The command an act resolves to against the screen it was chosen from.
///
/// Every gesture at a row lands at the row's tap point, typing too, so that
/// the field is focused before the text arrives; putting a keyboard away is the Back gesture;
/// returning launches the app; a verdict touches nothing.
pub open spec fn command_of(act: ActView, s: SnapshotView) -> Result<Option<CommandView>, TapError> {
    let at = |h: crate::snapshot::ElementRef, f: spec_fn(Point) -> CommandView|
        match landing(s, h) {
            Ok(p) => Ok(Some(f(p))),
            Err(e) => Err(e),
        };
    match act {
        ActView::Tap(h) => at(h, |p: Point| CommandView::Tap(p)),
        ActView::DoubleTap(h) => at(h, |p: Point| CommandView::DoubleTap(p)),
        ActView::LongPress(h) => at(h, |p: Point| CommandView::LongPress(p)),
        ActView::SwipeElement { target, direction } => at(target, |p: Point| CommandView::SwipeFrom { from: p, direction }),
        ActView::Peek(h) => at(h, |p: Point| CommandView::Peek(p)),
        ActView::TypeText { into, text } => match landing(s, into) {
            Ok(p) => Ok(Some(CommandView::TypeText { at: p, text })),
            Err(e) => Err(e),
        },
        ActView::System(g) => Ok(Some(CommandView::System(g))),
        ActView::CloseKeyboard => Ok(Some(CommandView::System(SystemAct::Back))),
        ActView::Return(app) => Ok(Some(CommandView::Launch(app))),
        ActView::Scroll(d) => Ok(Some(CommandView::Scroll(d))),
        ActView::Wait => Ok(Some(CommandView::Settle)),
        ActView::Finish(_) => Ok(None),
    }
}

/// A resolution's outcome, as plain values.
pub open spec fn command_result(r: Result<Option<Command>, TapError>) -> Result<Option<CommandView>, TapError> {
    match r {
        Ok(Some(c)) => Ok(Some(c@)),
        Ok(None) => Ok(None),
        Err(e) => Err(e),
    }
}

/// Resolve an action against the screen it was chosen from.
///
/// `None` only for a verdict, which ends the run rather than touching the
/// device. Refused with [`TapError`] when the action names an element from
/// another observation, or one entirely covered by what is drawn over it.
pub fn command_for(act: &Act, snapshot: &Snapshot) -> (r: Result<Option<Command>, TapError>)
    ensures
        command_result(r) == command_of(act@, snapshot@),
{
    match act {
        Act::Tap(handle) => match snapshot.tap_point(*handle) {
            Ok(p) => Ok(Some(Command::Tap(p))),
            Err(e) => Err(e),
        },
        Act::DoubleTap(handle) => match snapshot.tap_point(*handle) {
            Ok(p) => Ok(Some(Command::DoubleTap(p))),
            Err(e) => Err(e),
        },
        Act::LongPress(handle) => match snapshot.tap_point(*handle) {
            Ok(p) => Ok(Some(Command::LongPress(p))),
            Err(e) => Err(e),
        },
        Act::SwipeElement { target, direction } => match snapshot.tap_point(*target) {
            Ok(p) => Ok(Some(Command::SwipeFrom { from: p, direction: *direction })),
            Err(e) => Err(e),
        },
        Act::Peek(handle) => match snapshot.tap_point(*handle) {
            Ok(p) => Ok(Some(Command::Peek(p))),
            Err(e) => Err(e),
        },
        Act::TypeText { into, text } => match snapshot.tap_point(*into) {
            Ok(p) => Ok(Some(Command::TypeText { at: p, text: text.clone() })),
            Err(e) => Err(e),
        },
        Act::System(gesture) => Ok(Some(Command::System(*gesture))),
        Act::CloseKeyboard => Ok(Some(Command::System(SystemAct::Back))),
        Act::Return(app) => Ok(Some(Command::Launch(app.clone()))),
        Act::Scroll(direction) => Ok(Some(Command::Scroll(*direction))),
        Act::Wait => Ok(Some(Command::Settle)),
        Act::Finish(_) => Ok(None),
    }
}

/// A reference taken before an action cannot be acted on after it: an act
/// naming an element resolves against any other observation to
/// [`TapError::Stale`], never to a point.
pub proof fn stale_references_never_land(act: ActView, s: SnapshotView, h: crate::snapshot::ElementRef)
    requires
        h.stamp() != s.generation,
        act == ActView::Tap(h) || act == ActView::DoubleTap(h) || act == ActView::LongPress(h)
            || act == ActView::Peek(h) || (act matches ActView::SwipeElement { target, .. } && target == h)
            || (act matches ActView::TypeText { into, .. } && into == h),
    ensures
        command_of(act, s) == Err::<Option<CommandView>, TapError>(
            TapError::Stale(StaleRef { expected: s.generation, found: h.stamp() }),
        ),
{
}

/// Whether a reference names a row of this observation that can still be
/// touched somewhere.
pub open spec fn reachable(s: SnapshotView, h: crate::snapshot::ElementRef) -> bool {
    h.stamp() == s.generation && h.position() < s.elements.len() && tap_point_of(s, h.position()) is Some
}

/// A command does what the act it came from names. A scroll scrolls the way
/// the act says, a system gesture is that gesture, putting the keyboard away
/// is Back, returning launches the app it names, waiting lets the screen
/// settle, and a verdict touches nothing. A gesture at a row lands at that
/// row's tap point, the same gesture and, for a drag, the same way; and it
/// is refused exactly when the row belongs to another observation or is
/// covered entirely.
pub proof fn commands_do_what_acts_name(act: ActView, s: SnapshotView)
    ensures
        act matches ActView::Scroll(d) ==> command_of(act, s) == Ok::<Option<CommandView>, TapError>(Some(CommandView::Scroll(d))),
        act matches ActView::System(g) ==> command_of(act, s) == Ok::<Option<CommandView>, TapError>(Some(CommandView::System(g))),
        act == ActView::CloseKeyboard ==> command_of(act, s) == Ok::<Option<CommandView>, TapError>(
            Some(CommandView::System(SystemAct::Back)),
        ),
        act matches ActView::Return(app) ==> command_of(act, s) == Ok::<Option<CommandView>, TapError>(Some(CommandView::Launch(app))),
        act == ActView::Wait ==> command_of(act, s) == Ok::<Option<CommandView>, TapError>(Some(CommandView::Settle)),
        act matches ActView::Finish(_) ==> command_of(act, s) == Ok::<Option<CommandView>, TapError>(None),
        act matches ActView::Tap(h) ==> (reachable(s, h) ==> command_of(act, s) == Ok::<Option<CommandView>, TapError>(
            Some(CommandView::Tap(tap_point_of(s, h.position())->0)),
        )),
        act matches ActView::DoubleTap(h) ==> (reachable(s, h) ==> command_of(act, s) == Ok::<Option<CommandView>, TapError>(
            Some(CommandView::DoubleTap(tap_point_of(s, h.position())->0)),
        )),
        act matches ActView::LongPress(h) ==> (reachable(s, h) ==> command_of(act, s) == Ok::<Option<CommandView>, TapError>(
            Some(CommandView::LongPress(tap_point_of(s, h.position())->0)),
        )),
        act matches ActView::Peek(h) ==> (reachable(s, h) ==> command_of(act, s) == Ok::<Option<CommandView>, TapError>(
            Some(CommandView::Peek(tap_point_of(s, h.position())->0)),
        )),
        act matches ActView::SwipeElement { target, direction } ==> (reachable(s, target) ==> command_of(act, s)
            == Ok::<Option<CommandView>, TapError>(
            Some(CommandView::SwipeFrom { from: tap_point_of(s, target.position())->0, direction }),
        )),
        act matches ActView::TypeText { into, text } ==> (reachable(s, into) ==> command_of(act, s)
            == Ok::<Option<CommandView>, TapError>(
            Some(CommandView::TypeText { at: tap_point_of(s, into.position())->0, text }),
        )),
        act matches ActView::Tap(h) ==> (!reachable(s, h) ==> command_of(act, s) is Err),
{
}

} // verus!
