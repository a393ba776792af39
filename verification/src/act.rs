//! What the worker may do to the screen it is looking at.
//!
//! [`Act`] is a sum type, so a tap without a target, or typed text with no
//! field to receive it, cannot be expressed. Every variant that touches an
//! element carries an [`ElementRef`], binding it to the snapshot it was chosen
//! from.
use crate::judgment::{option_name, Chosen, Confidence, OptionId, Options, Question};
use crate::platform::Platform;
use crate::snapshot::{describe_view, ElementRef, ElementView, Snapshot, SnapshotView};
use crate::text::{lowercase, same_text, trim};
use vstd::prelude::*;

verus! {

/// A gesture aimed at the system rather than at anything on screen.
#[derive(Debug, Clone, Copy, PartialEq, Eq, Structural, Hash)]
pub enum SystemAct {
    /// Return to the previous screen. Android only.
    Back,
    /// Leave the app for the home screen.
    Home,
    /// Show the list of running apps.
    AppSwitcher,
    /// Commit what has been typed, as pressing enter.
    Submit,
}

impl SystemAct {
    /// How this gesture is described to a model choosing among actions.
    pub fn rubric(self) -> (r: &'static str)
        ensures
            r@ == match self {
                SystemAct::Back => "Go back to the previous screen"@,
                SystemAct::Home => "Leave the app and return to the home screen"@,
                SystemAct::AppSwitcher => "Open the list of running apps"@,
                SystemAct::Submit => "Submit what has been typed"@,
            },
    {
        match self {
            SystemAct::Back => "Go back to the previous screen",
            SystemAct::Home => "Leave the app and return to the home screen",
            SystemAct::AppSwitcher => "Open the list of running apps",
            SystemAct::Submit => "Submit what has been typed",
        }
    }
}

/// Which way a row is dragged.
#[derive(Debug, Clone, Copy, PartialEq, Eq, Structural, Hash)]
pub enum Swipe {
    /// Towards the leading edge, revealing trailing actions.
    Left,
    /// Towards the trailing edge, revealing leading actions.
    Right,
}

/// Which way a scroll goes.
#[derive(Debug, Clone, Copy, PartialEq, Eq, Structural, Hash)]
pub enum Direction {
    /// Back towards the start of the list.
    Up,
    /// Onward, revealing what lies past the fold.
    Down,
}

/// What to do, as opposed to what to do it to.
#[derive(Debug, Clone, Copy, PartialEq, Eq, Structural, Hash)]
pub enum Operation {
    /// Tap an element. Needs a tap target.
    Tap,
    /// Type into a field.
    TypeText,
    /// Tap an element twice in quick succession. Needs a tap target.
    DoubleTap,
    /// Press and hold an element. Needs a tap target.
    LongPress,
    /// Drag an element to the left. Needs a tap target.
    SwipeLeft,
    /// Drag an element to the right. Needs a tap target.
    SwipeRight,
    /// Press firmly to preview an element. iOS only.
    Peek,
    /// Reveal what lies above the current view.
    ScrollUp,
    /// Reveal what lies below the current view.
    ScrollDown,
    /// Return to the previous screen.
    Back,
    /// Leave for the home screen.
    Home,
    /// Put the soft keyboard away.
    CloseKeyboard,
    /// Go back into the app this goal is about.
    Return,
    /// Show the running apps.
    AppSwitcher,
    /// Commit what has been typed into the focused field.
    Submit,
    /// Let the screen settle and look again.
    Wait,
    /// Stop: the goal is satisfied.
    Done,
    /// Stop: the goal cannot be reached from here.
    Blocked,
}

/// Every operation there is, in the order they are listed.
pub open spec fn all_operations() -> Seq<Operation> {
    seq![
        Operation::Tap,
        Operation::TypeText,
        Operation::DoubleTap,
        Operation::LongPress,
        Operation::SwipeLeft,
        Operation::SwipeRight,
        Operation::Peek,
        Operation::ScrollUp,
        Operation::ScrollDown,
        Operation::Back,
        Operation::Home,
        Operation::CloseKeyboard,
        Operation::Return,
        Operation::AppSwitcher,
        Operation::Submit,
        Operation::Wait,
        Operation::Done,
        Operation::Blocked,
    ]
}

/// The name an operation is offered and answered under.
pub open spec fn key_of(op: Operation) -> Seq<char> {
    match op {
        Operation::Tap => "tap"@,
        Operation::TypeText => "type_text"@,
        Operation::DoubleTap => "double_tap"@,
        Operation::LongPress => "long_press"@,
        Operation::SwipeLeft => "swipe_left"@,
        Operation::SwipeRight => "swipe_right"@,
        Operation::Peek => "peek"@,
        Operation::ScrollUp => "scroll_up"@,
        Operation::ScrollDown => "scroll_down"@,
        Operation::Back => "back"@,
        Operation::Home => "home"@,
        Operation::CloseKeyboard => "close_keyboard"@,
        Operation::Return => "return_to_app"@,
        Operation::AppSwitcher => "app_switcher"@,
        Operation::Submit => "submit"@,
        Operation::Wait => "wait"@,
        Operation::Done => "done"@,
        Operation::Blocked => "blocked"@,
    }
}

/// How an operation is described to a model choosing among them.
pub open spec fn rubric_of(op: Operation) -> Seq<char> {
    match op {
        Operation::Tap => "Tap one of the rows on screen"@,
        Operation::TypeText => "Type into one of the fields on screen"@,
        Operation::DoubleTap => "Tap a row twice quickly, as for zooming or selecting a word"@,
        Operation::LongPress => "Press and hold a row to open its context menu or selection options"@,
        Operation::SwipeLeft => "Drag a row to the left to reveal its trailing actions, such as delete"@,
        Operation::SwipeRight => "Drag a row to the right to reveal its leading actions, such as archive"@,
        Operation::Peek => "Press firmly on a row to preview it without leaving this screen"@,
        Operation::ScrollUp => "Scroll up to reveal rows above the current view"@,
        Operation::ScrollDown => "Scroll down to reveal rows below the current view"@,
        Operation::Back => "Go back to the previous screen"@,
        Operation::Home => "Leave the app and return to the home screen"@,
        Operation::CloseKeyboard => "Put the keyboard away, revealing the rows it covers — often the button that commits the form being typed into"@,
        Operation::Return => "Go back into the app this goal is about — this screen belongs to another app"@,
        Operation::AppSwitcher => "Open the list of running apps"@,
        Operation::Submit => "Submit what has been typed, as pressing enter or search"@,
        Operation::Wait => "Wait for the screen to finish loading, then look again"@,
        Operation::Done => "Stop: the goal is satisfied on this screen"@,
        Operation::Blocked => "Stop: the goal cannot be reached from this screen"@,
    }
}

/// The operation offered under the name `k`, if there is one.
pub open spec fn operation_named(k: Seq<char>) -> Option<Operation> {
    if exists|op: Operation| key_of(op) == k {
        Some(choose|op: Operation| key_of(op) == k)
    } else {
        None
    }
}

/// Whether an operation needs a row to act on.
pub open spec fn needs_target(op: Operation) -> bool {
    match op {
        Operation::Tap
        | Operation::DoubleTap
        | Operation::LongPress
        | Operation::SwipeLeft
        | Operation::SwipeRight
        | Operation::Peek => true,
        _ => false,
    }
}

/// What it costs to perform an operation in error.
pub open spec fn consequence_of(op: Operation) -> Consequence {
    match op {
        Operation::Done | Operation::Blocked => Consequence::Terminal,
        Operation::SwipeLeft | Operation::SwipeRight | Operation::Home => Consequence::Destructive,
        _ => Consequence::Ordinary,
    }
}

/// No two operations share a name.
proof fn lemma_keys_distinct(a: Operation, b: Operation)
    ensures
        key_of(a) == key_of(b) ==> a == b,
{
    reveal_strlit("tap");
    reveal_strlit("type_text");
    reveal_strlit("double_tap");
    reveal_strlit("long_press");
    reveal_strlit("swipe_left");
    reveal_strlit("swipe_right");
    reveal_strlit("peek");
    reveal_strlit("scroll_up");
    reveal_strlit("scroll_down");
    reveal_strlit("back");
    reveal_strlit("home");
    reveal_strlit("close_keyboard");
    reveal_strlit("return_to_app");
    reveal_strlit("app_switcher");
    reveal_strlit("submit");
    reveal_strlit("wait");
    reveal_strlit("done");
    reveal_strlit("blocked");
    if key_of(a) == key_of(b) && a != b {
        let (x, y) = (key_of(a), key_of(b));
        assert(x.len() == y.len());
        assert(x[0] == y[0]);
        assert(x[x.len() - 1] == y[y.len() - 1]);
        assert(x[1] == y[1]);
        assert(x[2] == y[2]);
        assert(x[3] == y[3]);
    }
}

/// Every operation can be named back: the name an operation is offered under
/// is read back as that operation and no other.
pub proof fn every_key_names_its_operation(op: Operation)
    ensures
        operation_named(key_of(op)) == Some(op),
{
    let k = key_of(op);
    assert(key_of(op) == k);
    let found = choose|o: Operation| key_of(o) == k;
    lemma_keys_distinct(found, op);
}

/// An operation's name is one word, and not the word that stops a run.
pub proof fn lemma_key_is_one_word(op: Operation)
    ensures
        key_of(op).len() > 0,
        forall|i: int| 0 <= i < key_of(op).len() ==> !crate::text::is_space(#[trigger] key_of(op)[i]),
        key_of(op).len() != 4 || key_of(op)[0] != 's',
{
    reveal_strlit("tap");
    reveal_strlit("type_text");
    reveal_strlit("double_tap");
    reveal_strlit("long_press");
    reveal_strlit("swipe_left");
    reveal_strlit("swipe_right");
    reveal_strlit("peek");
    reveal_strlit("scroll_up");
    reveal_strlit("scroll_down");
    reveal_strlit("back");
    reveal_strlit("home");
    reveal_strlit("close_keyboard");
    reveal_strlit("return_to_app");
    reveal_strlit("app_switcher");
    reveal_strlit("submit");
    reveal_strlit("wait");
    reveal_strlit("done");
    reveal_strlit("blocked");
    let k = key_of(op);
    assert forall|i: int| 0 <= i < k.len() implies !crate::text::is_space(#[trigger] k[i]) by {
        assert('a' <= k[i] <= 'z' || k[i] == '_');
    }
}

proof fn lemma_all_listed(op: Operation)
    ensures
        all_operations().contains(op),
{
    let all = all_operations();
    match op {
        Operation::Tap => assert(all[0] == op),
        Operation::TypeText => assert(all[1] == op),
        Operation::DoubleTap => assert(all[2] == op),
        Operation::LongPress => assert(all[3] == op),
        Operation::SwipeLeft => assert(all[4] == op),
        Operation::SwipeRight => assert(all[5] == op),
        Operation::Peek => assert(all[6] == op),
        Operation::ScrollUp => assert(all[7] == op),
        Operation::ScrollDown => assert(all[8] == op),
        Operation::Back => assert(all[9] == op),
        Operation::Home => assert(all[10] == op),
        Operation::CloseKeyboard => assert(all[11] == op),
        Operation::Return => assert(all[12] == op),
        Operation::AppSwitcher => assert(all[13] == op),
        Operation::Submit => assert(all[14] == op),
        Operation::Wait => assert(all[15] == op),
        Operation::Done => assert(all[16] == op),
        Operation::Blocked => assert(all[17] == op),
    }
}

impl Operation {
    /// Every operation there is, in the order they are listed.
    pub fn all() -> (r: Vec<Operation>)
        ensures
            r@ == all_operations(),
    {
        let r = vec![
            Operation::Tap,
            Operation::TypeText,
            Operation::DoubleTap,
            Operation::LongPress,
            Operation::SwipeLeft,
            Operation::SwipeRight,
            Operation::Peek,
            Operation::ScrollUp,
            Operation::ScrollDown,
            Operation::Back,
            Operation::Home,
            Operation::CloseKeyboard,
            Operation::Return,
            Operation::AppSwitcher,
            Operation::Submit,
            Operation::Wait,
            Operation::Done,
            Operation::Blocked,
        ];
        assert(r@ =~= all_operations());
        r
    }

    /// The operation offered under this name, if there is one.
    pub fn from_key(key: &str) -> (r: Option<Operation>)
        ensures
            r == operation_named(key@),
    {
        let all = Operation::all();
        let mut i: usize = 0;
        while i < all.len()
            invariant
                i <= all@.len(),
                all@ == all_operations(),
                forall|k: int| 0 <= k < i ==> key_of(#[trigger] all@[k]) != key@,
            decreases all@.len() - i,
        {
            let candidate = all[i];
            if same_text(candidate.key(), key) {
                proof {
                    let found = choose|o: Operation| key_of(o) == key@;
                    lemma_keys_distinct(found, candidate);
                }
                return Some(candidate);
            }
            i = i + 1;
        }
        proof {
            if exists|op: Operation| key_of(op) == key@ {
                let op = choose|op: Operation| key_of(op) == key@;
                lemma_all_listed(op);
                let k = choose|k: int| 0 <= k < all@.len() && all@[k] == op;
                assert(key_of(all@[k]) != key@);
            }
        }
        None
    }

    /// The name this operation is offered and answered under.
    pub fn key(self) -> (r: &'static str)
        ensures
            r@ == key_of(self),
    {
        match self {
            Operation::Tap => "tap",
            Operation::TypeText => "type_text",
            Operation::DoubleTap => "double_tap",
            Operation::LongPress => "long_press",
            Operation::SwipeLeft => "swipe_left",
            Operation::SwipeRight => "swipe_right",
            Operation::Peek => "peek",
            Operation::ScrollUp => "scroll_up",
            Operation::ScrollDown => "scroll_down",
            Operation::Back => "back",
            Operation::Home => "home",
            Operation::CloseKeyboard => "close_keyboard",
            Operation::Return => "return_to_app",
            Operation::AppSwitcher => "app_switcher",
            Operation::Submit => "submit",
            Operation::Wait => "wait",
            Operation::Done => "done",
            Operation::Blocked => "blocked",
        }
    }

    /// How this operation is described to a model choosing among them.
    pub fn rubric(self) -> (r: &'static str)
        ensures
            r@ == rubric_of(self),
    {
        match self {
            Operation::Tap => "Tap one of the rows on screen",
            Operation::TypeText => "Type into one of the fields on screen",
            Operation::DoubleTap => "Tap a row twice quickly, as for zooming or selecting a word",
            Operation::LongPress => "Press and hold a row to open its context menu or selection options",
            Operation::SwipeLeft => "Drag a row to the left to reveal its trailing actions, such as delete",
            Operation::SwipeRight => "Drag a row to the right to reveal its leading actions, such as archive",
            Operation::Peek => "Press firmly on a row to preview it without leaving this screen",
            Operation::ScrollUp => "Scroll up to reveal rows above the current view",
            Operation::ScrollDown => "Scroll down to reveal rows below the current view",
            Operation::Back => "Go back to the previous screen",
            Operation::Home => "Leave the app and return to the home screen",
            Operation::CloseKeyboard => "Put the keyboard away, revealing the rows it covers — often the button that commits the form being typed into",
            Operation::Return => "Go back into the app this goal is about — this screen belongs to another app",
            Operation::AppSwitcher => "Open the list of running apps",
            Operation::Submit => "Submit what has been typed, as pressing enter or search",
            Operation::Wait => "Wait for the screen to finish loading, then look again",
            Operation::Done => "Stop: the goal is satisfied on this screen",
            Operation::Blocked => "Stop: the goal cannot be reached from this screen",
        }
    }

    /// What it costs to perform this operation in error.
    pub fn consequence(self) -> (c: Consequence)
        ensures
            c == consequence_of(self),
    {
        match self {
            Operation::Done | Operation::Blocked => Consequence::Terminal,
            Operation::SwipeLeft | Operation::SwipeRight | Operation::Home => Consequence::Destructive,
            _ => Consequence::Ordinary,
        }
    }

    /// Whether this operation needs a field to type into.
    pub fn needs_field(self) -> (r: bool)
        ensures
            r == (self == Operation::TypeText),
    {
        match self {
            Operation::TypeText => true,
            _ => false,
        }
    }

    /// Whether this operation needs a row to act on.
    pub fn needs_tap_target(self) -> (r: bool)
        ensures
            r == needs_target(self),
    {
        match self {
            Operation::Tap
            | Operation::DoubleTap
            | Operation::LongPress
            | Operation::SwipeLeft
            | Operation::SwipeRight
            | Operation::Peek => true,
            _ => false,
        }
    }
}

/// How a task ended.
#[derive(Debug, Clone, Copy, PartialEq, Eq, Structural)]
pub enum Outcome {
    /// The goal is visibly satisfied on this screen.
    Achieved,
    /// The goal cannot be reached from here.
    Blocked,
}

impl Outcome {
    /// How this ending is described to a model choosing among actions.
    pub fn rubric(self) -> (r: &'static str)
        ensures
            r@ == match self {
                Outcome::Achieved => "Stop: the goal is already satisfied on this screen"@,
                Outcome::Blocked => "Stop: the goal cannot be reached from this screen"@,
            },
    {
        match self {
            Outcome::Achieved => "Stop: the goal is already satisfied on this screen",
            Outcome::Blocked => "Stop: the goal cannot be reached from this screen",
        }
    }
}

/// One technically valid thing the worker can do.
#[derive(Debug, Clone, PartialEq, Eq)]
pub enum Act {
    /// Tap an element.
    Tap(ElementRef),
    /// Tap an element twice in quick succession.
    DoubleTap(ElementRef),
    /// Press and hold an element.
    LongPress(ElementRef),
    /// Drag an element sideways.
    SwipeElement {
        /// The row being dragged.
        target: ElementRef,
        /// Which way it goes.
        direction: Swipe,
    },
    /// Preview an element without opening it.
    Peek(ElementRef),
    /// Type into an element that accepts text.
    TypeText {
        /// The field receiving the text.
        into: ElementRef,
        /// What to type.
        text: String,
    },
    /// Perform a system gesture.
    System(SystemAct),
    /// Put the soft keyboard away.
    CloseKeyboard,
    /// Bring the named application back to the foreground.
    Return(String),
    /// Scroll the screen.
    Scroll(Direction),
    /// Let the screen settle and observe again.
    Wait,
    /// Stop, with a verdict.
    Finish(Outcome),
}

/// An act, as plain values.
pub ghost enum ActView {
    Tap(ElementRef),
    DoubleTap(ElementRef),
    LongPress(ElementRef),
    SwipeElement { target: ElementRef, direction: Swipe },
    Peek(ElementRef),
    TypeText { into: ElementRef, text: Seq<char> },
    System(SystemAct),
    CloseKeyboard,
    Return(Seq<char>),
    Scroll(Direction),
    Wait,
    Finish(Outcome),
}

impl View for Act {
    type V = ActView;

    open spec fn view(&self) -> ActView {
        match self {
            Act::Tap(h) => ActView::Tap(*h),
            Act::DoubleTap(h) => ActView::DoubleTap(*h),
            Act::LongPress(h) => ActView::LongPress(*h),
            Act::SwipeElement { target, direction } => ActView::SwipeElement {
                target: *target,
                direction: *direction,
            },
            Act::Peek(h) => ActView::Peek(*h),
            Act::TypeText { into, text } => ActView::TypeText { into: *into, text: text@ },
            Act::System(g) => ActView::System(*g),
            Act::CloseKeyboard => ActView::CloseKeyboard,
            Act::Return(app) => ActView::Return(app@),
            Act::Scroll(d) => ActView::Scroll(*d),
            Act::Wait => ActView::Wait,
            Act::Finish(o) => ActView::Finish(*o),
        }
    }
}

/// What it costs to get an action wrong.
#[derive(Debug, Clone, Copy, PartialEq, Eq, Structural, Hash)]
pub enum Consequence {
    /// Recoverable by going back or looking again.
    Ordinary,
    /// Ends the run, right or wrong.
    Terminal,
    /// May remove or send something, and going back does not undo it.
    Destructive,
}

/// How certain the model must be, per kind of consequence.
#[derive(Debug, Clone, Copy, PartialEq, Eq, Structural)]
pub struct Floors {
    ordinary: Confidence,
    terminal: Confidence,
    destructive: Confidence,
}

impl Floors {
    /// The floor actions of this consequence must clear.
    pub closed spec fn floor(self, c: Consequence) -> Confidence {
        match c {
            Consequence::Ordinary => self.ordinary,
            Consequence::Terminal => self.terminal,
            Consequence::Destructive => self.destructive,
        }
    }

    /// The floor an operation must clear.
    pub open spec fn floor_for(self, op: Operation) -> Confidence {
        self.floor(consequence_of(op))
    }

    /// One floor for every action, whatever it costs.
    pub fn new(everywhere: Confidence) -> (f: Floors)
        ensures
            forall|c: Consequence| #[trigger] f.floor(c) == everywhere,
    {
        Floors { ordinary: everywhere, terminal: everywhere, destructive: everywhere }
    }

    /// Require this much certainty for actions of one kind, leaving the
    /// others as they were.
    pub fn requiring_for(self, consequence: Consequence, floor: Confidence) -> (f: Floors)
        ensures
            f.floor(consequence) == floor,
            forall|c: Consequence| c != consequence ==> #[trigger] f.floor(c) == self.floor(c),
    {
        let mut f = self;
        match consequence {
            Consequence::Ordinary => f.ordinary = floor,
            Consequence::Terminal => f.terminal = floor,
            Consequence::Destructive => f.destructive = floor,
        }
        f
    }

    /// The floor an operation must clear.
    pub fn for_operation(&self, operation: Operation) -> (c: Confidence)
        ensures
            c == self.floor_for(operation),
    {
        match operation.consequence() {
            Consequence::Ordinary => self.ordinary,
            Consequence::Terminal => self.terminal,
            Consequence::Destructive => self.destructive,
        }
    }

    /// The floor a target choice must clear: the same as the operation's it
    /// serves.
    pub fn for_target(&self, operation: Operation) -> (c: Confidence)
        ensures
            c == self.floor_for(operation),
    {
        self.for_operation(operation)
    }
}

/// What a step's answers resolved to.
#[derive(Debug, Clone, PartialEq, Eq)]
pub enum Decision {
    /// Ready to carry out as it stands.
    Ready(Act),
    /// A field was chosen, but the words have not been written yet.
    NeedsText {
        /// The field to type into.
        into: ElementRef,
    },
}

/// A decision, as plain values.
pub ghost enum DecisionView {
    Ready(ActView),
    NeedsText { into: ElementRef },
}

impl View for Decision {
    type V = DecisionView;

    open spec fn view(&self) -> DecisionView {
        match self {
            Decision::Ready(act) => DecisionView::Ready(act@),
            Decision::NeedsText { into } => DecisionView::NeedsText { into: *into },
        }
    }
}

/// Why a choice did not become an action.
#[derive(Debug, Clone, PartialEq, Eq)]
pub enum Indecision {
    /// Nothing stood out clearly enough to act on.
    TooUncertain {
        /// The confidence the model reported.
        got: Confidence,
        /// The floor the caller required.
        floor: Confidence,
    },
    /// The same action kept leaving the screen exactly as it was.
    NoProgress {
        /// How many actions in a row changed nothing.
        repeated: u32,
    },
    /// The model named something this screen never offered.
    NotOffered {
        /// What was named.
        what: String,
    },
    /// The operation needs a row to act on and none was chosen.
    NoTarget,
    /// The row chosen is covered by whatever is drawn over it.
    Covered,
}

/// Why a choice did not become an action, as plain values.
pub ghost enum IndecisionView {
    TooUncertain { got: Confidence, floor: Confidence },
    NoProgress { repeated: u32 },
    NotOffered { what: Seq<char> },
    NoTarget,
    Covered,
}

impl View for Indecision {
    type V = IndecisionView;

    open spec fn view(&self) -> IndecisionView {
        match self {
            Indecision::TooUncertain { got, floor } => IndecisionView::TooUncertain {
                got: *got,
                floor: *floor,
            },
            Indecision::NoProgress { repeated } => IndecisionView::NoProgress {
                repeated: *repeated,
            },
            Indecision::NotOffered { what } => IndecisionView::NotOffered { what: what@ },
            Indecision::NoTarget => IndecisionView::NoTarget,
            Indecision::Covered => IndecisionView::Covered,
        }
    }
}

/// A resolution's outcome, as plain values.
pub open spec fn outcome_view(r: Result<Decision, Indecision>) -> Result<DecisionView, IndecisionView> {
    match r {
        Ok(d) => Ok(d@),
        Err(e) => Err(e@),
    }
}

/// The answers a step's decision reads: which operation and how sure, and
/// which row and field it would act on.
#[derive(Debug, Clone, Copy, PartialEq, Eq, Structural)]
pub struct StepAnswers {
    /// The operation the model chose.
    pub operation: Operation,
    /// How concentrated the operation's distribution was.
    pub operation_confidence: Confidence,
    /// The row it would act on, if the operation needs one.
    pub tap_target: Option<Chosen>,
    /// The probability of the chosen row together with every other row the
    /// screen names the same way, as the caller summed it from the
    /// distribution over the ids [`Catalog::named_alike`] lists.
    pub tap_target_shared: Confidence,
    /// The field it would type into, if the operation is typing.
    pub type_field: Option<Chosen>,
}

/// Whether an operation may be offered on this screen at all.
pub open spec fn allowed_here(op: Operation, s: SnapshotView) -> bool {
    &&& !(op == Operation::CloseKeyboard && !s.keyboard_open)
    &&& !(op == Operation::Back && s.keyboard_open)
    &&& !(needs_target(op) && s.elements.len() == 0)
}

/// The platform's operations that may be offered on this screen, in order.
pub open spec fn offered_on(ops: Seq<Operation>, s: SnapshotView) -> Seq<Operation>
    decreases ops.len(),
{
    if ops.len() == 0 {
        Seq::empty()
    } else if allowed_here(ops.last(), s) {
        offered_on(ops.drop_last(), s).push(ops.last())
    } else {
        offered_on(ops.drop_last(), s)
    }
}

/// At most the first `n` of a list.
pub open spec fn first(s: Seq<Operation>, n: int) -> Seq<Operation> {
    if s.len() <= n {
        s
    } else {
        s.take(n)
    }
}

/// The name two rows must share to be told apart only by position: what the
/// row says, trimmed and in lower case.
pub open spec fn name_of(e: ElementView) -> Seq<char> {
    lowercase(trim(describe_view(e)))
}

/// How many of these elements go by `name`.
pub open spec fn count_named(es: Seq<ElementView>, name: Seq<char>) -> nat
    decreases es.len(),
{
    if es.len() == 0 {
        0
    } else {
        count_named(es.drop_last(), name) + if name_of(es.last()) == name {
            1nat
        } else {
            0nat
        }
    }
}

/// Whether the row at `i` is told apart by its name: no more than
/// [`Catalog::REPEATS_TOLERATED`] rows on screen share it.
pub open spec fn distinct_enough(es: Seq<ElementView>, i: int) -> bool {
    count_named(es, name_of(es[i])) <= 3
}

/// The positions, among the first `n`, of the rows offered as targets.
pub open spec fn target_positions(es: Seq<ElementView>, n: int) -> Seq<int>
    decreases n,
{
    if n <= 0 {
        Seq::empty()
    } else if distinct_enough(es, n - 1) {
        target_positions(es, n - 1).push(n - 1)
    } else {
        target_positions(es, n - 1)
    }
}

/// The positions, among the first `n`, of the rows that accept text.
pub open spec fn field_positions(es: Seq<ElementView>, n: int) -> Seq<int>
    decreases n,
{
    if n <= 0 {
        Seq::empty()
    } else if es[n - 1].editable {
        field_positions(es, n - 1).push(n - 1)
    } else {
        field_positions(es, n - 1)
    }
}

/// What a catalog holds, as plain values.
pub ghost struct CatalogView {
    pub app: Option<Seq<char>>,
    pub return_to: Option<Seq<char>>,
    pub supported: Seq<Operation>,
    pub operations: Seq<(Seq<char>, Seq<char>)>,
    pub targets: Seq<(OptionId, ElementRef, Seq<char>)>,
    pub target_options: Seq<(Seq<char>, Seq<char>)>,
    pub on_screen: Seq<ElementRef>,
    pub fields: Seq<(OptionId, ElementRef, Seq<char>)>,
    pub field_options: Seq<(Seq<char>, Seq<char>)>,
}

/// Rows a catalog offers, as plain values.
pub open spec fn rows_view(v: Seq<(OptionId, ElementRef, String)>) -> Seq<(OptionId, ElementRef, Seq<char>)> {
    v.map_values(|t: (OptionId, ElementRef, String)| (t.0, t.1, t.2@))
}

/// Whether `rows` offers exactly the elements at `positions` of `s`, numbered
/// from one in that order.
pub open spec fn rows_offer(
    rows: Seq<(OptionId, ElementRef, Seq<char>)>,
    options: Seq<(Seq<char>, Seq<char>)>,
    s: SnapshotView,
    positions: Seq<int>,
) -> bool {
    &&& rows.len() == positions.len()
    &&& options.len() == positions.len()
    &&& forall|j: int|
        0 <= j < rows.len() ==> {
            &&& (#[trigger] rows[j]).0.number() == j + 1
            &&& rows[j].1.stamp() == s.generation
            &&& rows[j].1.position() == positions[j]
            &&& rows[j].2 == describe_view(s.elements[positions[j]])
            &&& options[j] == (option_name(j + 1), describe_view(s.elements[positions[j]]))
        }
}

/// The action an operation that needs no row stands for.
pub open spec fn untargeted_act(op: Operation) -> Option<ActView> {
    match op {
        Operation::ScrollUp => Some(ActView::Scroll(Direction::Up)),
        Operation::ScrollDown => Some(ActView::Scroll(Direction::Down)),
        Operation::Back => Some(ActView::System(SystemAct::Back)),
        Operation::CloseKeyboard => Some(ActView::CloseKeyboard),
        Operation::Home => Some(ActView::System(SystemAct::Home)),
        Operation::AppSwitcher => Some(ActView::System(SystemAct::AppSwitcher)),
        Operation::Submit => Some(ActView::System(SystemAct::Submit)),
        Operation::Wait => Some(ActView::Wait),
        Operation::Done => Some(ActView::Finish(Outcome::Achieved)),
        Operation::Blocked => Some(ActView::Finish(Outcome::Blocked)),
        _ => None,
    }
}

/// The action an operation aimed at a row stands for.
pub open spec fn targeted_act(op: Operation, target: ElementRef) -> Option<ActView> {
    match op {
        Operation::Tap => Some(ActView::Tap(target)),
        Operation::DoubleTap => Some(ActView::DoubleTap(target)),
        Operation::LongPress => Some(ActView::LongPress(target)),
        Operation::SwipeLeft => Some(ActView::SwipeElement { target, direction: Swipe::Left }),
        Operation::SwipeRight => Some(ActView::SwipeElement { target, direction: Swipe::Right }),
        Operation::Peek => Some(ActView::Peek(target)),
        _ => None,
    }
}

/// A ready act, or the refusal for an operation that has none.
pub open spec fn ready(act: Option<ActView>) -> Result<DecisionView, IndecisionView> {
    match act {
        Some(a) => Ok(DecisionView::Ready(a)),
        None => Err(IndecisionView::NoTarget),
    }
}

/// Where `id` is first offered among `rows`, if it is.
pub open spec fn first_position(rows: Seq<(OptionId, ElementRef, Seq<char>)>, id: OptionId) -> Option<int> {
    if exists|j: int| 0 <= j < rows.len() && rows[j].0 == id {
        Some(choose|j: int| 0 <= j < rows.len() && rows[j].0 == id && forall|e: int| 0 <= e < j ==> rows[e].0 != id)
    } else {
        None
    }
}

/// The row offered under `id`, if one is.
pub open spec fn offered_under(rows: Seq<(OptionId, ElementRef, Seq<char>)>, id: OptionId) -> Option<ElementRef> {
    match first_position(rows, id) {
        Some(j) => Some(rows[j].1),
        None => None,
    }
}

/// What a step's answers resolve to against catalog `c` and `floors`.
///
/// In order: the operation must clear its floor and be one this screen
/// offers. Typing then needs a field chosen as surely and offered; returning
/// needs an app to return to; an operation with no row is ready as it is; one
/// aimed at a row needs a row chosen as surely — or a name it shares with
/// other rows whose shares together are as sure — and offered.
pub open spec fn resolution(c: CatalogView, a: StepAnswers, floors: Floors) -> Result<DecisionView, IndecisionView> {
    let op = a.operation;
    let floor = floors.floor_for(op);
    if a.operation_confidence.level() < floor.level() {
        Err(IndecisionView::TooUncertain { got: a.operation_confidence, floor })
    } else if !c.supported.contains(op) {
        Err(IndecisionView::NotOffered { what: key_of(op) })
    } else if op == Operation::TypeText {
        match a.type_field {
            None => Err(IndecisionView::NoTarget),
            Some(chosen) => if chosen.confidence.level() < floor.level() {
                Err(IndecisionView::TooUncertain { got: chosen.confidence, floor })
            } else {
                match offered_under(c.fields, chosen.choice) {
                    Some(into) => Ok(DecisionView::NeedsText { into }),
                    None => Err(IndecisionView::NotOffered { what: option_name(chosen.choice.number()) }),
                }
            },
        }
    } else if op == Operation::Return {
        match c.return_to {
            None => Err(IndecisionView::NoTarget),
            Some(app) => Ok(DecisionView::Ready(ActView::Return(app))),
        }
    } else if !needs_target(op) {
        ready(untargeted_act(op))
    } else {
        match a.tap_target {
            None => Err(IndecisionView::NoTarget),
            Some(chosen) => if chosen.confidence.level() < floor.level()
                && a.tap_target_shared.level() < floor.level() {
                Err(IndecisionView::TooUncertain { got: chosen.confidence, floor })
            } else {
                match offered_under(c.targets, chosen.choice) {
                    Some(target) => ready(targeted_act(op, target)),
                    None => Err(IndecisionView::NotOffered { what: option_name(chosen.choice.number()) }),
                }
            },
        }
    }
}

/// What an escalation's choice resolves to: an operation this screen offers,
/// and, when it needs one, a field or a row by its position.
pub open spec fn chosen_by_position(c: CatalogView, op: Operation, target: Option<usize>) -> Result<DecisionView, IndecisionView> {
    if !c.supported.contains(op) {
        Err(IndecisionView::NotOffered { what: key_of(op) })
    } else if op == Operation::TypeText {
        match target {
            None => Err(IndecisionView::NoTarget),
            Some(p) => if p < c.fields.len() {
                Ok(DecisionView::NeedsText { into: c.fields[p as int].1 })
            } else {
                Err(IndecisionView::NotOffered { what: seq!['f', 'i', 'e', 'l', 'd', ' '] + crate::text::decimal(p as nat) })
            },
        }
    } else if op == Operation::Return {
        match c.return_to {
            None => Err(IndecisionView::NoTarget),
            Some(app) => Ok(DecisionView::Ready(ActView::Return(app))),
        }
    } else if !needs_target(op) {
        ready(untargeted_act(op))
    } else {
        match target {
            None => Err(IndecisionView::NoTarget),
            Some(p) => if p < c.on_screen.len() {
                ready(targeted_act(op, c.on_screen[p as int]))
            } else {
                Err(IndecisionView::NotOffered { what: seq!['r', 'o', 'w', ' '] + crate::text::decimal(p as nat) })
            },
        }
    }
}

/// The actions available on one screen, as two independent heads:
/// `operation` says what to do, and `tap_target` says which row to do it to.
#[derive(Debug)]
pub struct Catalog {
    app: Option<String>,
    return_to: Option<String>,
    supported: Vec<Operation>,
    operations: Options,
    targets: Vec<(OptionId, ElementRef, String)>,
    target_options: Options,
    on_screen: Vec<ElementRef>,
    fields: Vec<(OptionId, ElementRef, String)>,
    field_options: Options,
}

impl View for Catalog {
    type V = CatalogView;

    closed spec fn view(&self) -> CatalogView {
        CatalogView {
            app: crate::snapshot::text_of(self.app),
            return_to: crate::snapshot::text_of(self.return_to),
            supported: self.supported@,
            operations: self.operations@,
            targets: rows_view(self.targets@),
            target_options: self.target_options@,
            on_screen: self.on_screen@,
            fields: rows_view(self.fields@),
            field_options: self.field_options@,
        }
    }
}

/// The name and rubric of every operation in a list.
pub open spec fn operation_options(ops: Seq<Operation>) -> Seq<(Seq<char>, Seq<char>)> {
    ops.map_values(|op: Operation| (key_of(op), rubric_of(op)))
}

/// A row's name as the catalog compares it: trimmed, in lower case.
fn normalized(text: &String) -> (r: String)
    ensures
        r@ == lowercase(trim(text@)),
{
    let chars = crate::text::chars_of(text.as_str());
    let trimmed = crate::text::trim_chars(chars.as_slice());
    let s = crate::text::string_of(trimmed.as_slice());
    crate::text::to_lowercase(s.as_str())
}

/// Whether `op` is in `ops`.
pub(crate) fn listed(ops: &Vec<Operation>, op: Operation) -> (r: bool)
    ensures
        r == ops@.contains(op),
{
    let mut i: usize = 0;
    while i < ops.len()
        invariant
            i <= ops@.len(),
            forall|k: int| 0 <= k < i ==> ops@[k] != op,
        decreases ops@.len() - i,
    {
        if ops[i] == op {
            return true;
        }
        i = i + 1;
    }
    false
}

proof fn lemma_count_prefix(es: Seq<ElementView>, name: Seq<char>, i: int)
    requires
        0 <= i < es.len(),
    ensures
        count_named(es.take(i + 1), name) == count_named(es.take(i), name) + if name_of(es[i]) == name {
            1nat
        } else {
            0nat
        },
{
    assert(es.take(i + 1).drop_last() =~= es.take(i));
}

/// Where `id` is first offered among `rows`.
fn position_of(rows: &Vec<(OptionId, ElementRef, String)>, id: OptionId) -> (r: Option<usize>)
    ensures
        r is None <==> first_position(rows_view(rows@), id) is None,
        r matches Some(p) ==> first_position(rows_view(rows@), id) == Some(p as int) && p < rows@.len(),
{
    let ghost v = rows_view(rows@);
    let mut i: usize = 0;
    while i < rows.len()
        invariant
            i <= rows@.len(),
            v == rows_view(rows@),
            forall|k: int| 0 <= k < i ==> v[k].0 != id,
        decreases rows@.len() - i,
    {
        if rows[i].0 == id {
            proof {
                assert(v[i as int].0 == id);
                let j = choose|j: int| 0 <= j < v.len() && v[j].0 == id && forall|e: int| 0 <= e < j ==> v[e].0 != id;
                assert(j == i) by {
                    if j < i {
                        assert(v[j].0 != id);
                    }
                    if j > i {
                        assert(v[i as int].0 != id);
                    }
                }
            }
            return Some(i);
        }
        i = i + 1;
    }
    None
}

/// Find the row offered under `id`.
fn find_row(rows: &Vec<(OptionId, ElementRef, String)>, id: OptionId) -> (r: Option<ElementRef>)
    ensures
        r == offered_under(rows_view(rows@), id),
{
    match position_of(rows, id) {
        Some(p) => Some(rows[p].1),
        None => None,
    }
}

proof fn lemma_rows_offer_push(
    rows: Seq<(OptionId, ElementRef, Seq<char>)>,
    options: Seq<(Seq<char>, Seq<char>)>,
    s: SnapshotView,
    positions: Seq<int>,
    id: OptionId,
    handle: ElementRef,
    k: int,
)
    requires
        rows_offer(rows, options, s, positions),
        id.number() == positions.len() + 1,
        handle.stamp() == s.generation,
        handle.position() == k,
        0 <= k < s.elements.len(),
    ensures
        rows_offer(
            rows.push((id, handle, describe_view(s.elements[k]))),
            options.push((option_name(id.number()), describe_view(s.elements[k]))),
            s,
            positions.push(k),
        ),
{
    let r2 = rows.push((id, handle, describe_view(s.elements[k])));
    let o2 = options.push((option_name(id.number()), describe_view(s.elements[k])));
    let p2 = positions.push(k);
    assert forall|j: int| 0 <= j < r2.len() implies {
        &&& (#[trigger] r2[j]).0.number() == j + 1
        &&& r2[j].1.stamp() == s.generation
        &&& r2[j].1.position() == p2[j]
        &&& r2[j].2 == describe_view(s.elements[p2[j]])
        &&& o2[j] == (option_name(j + 1), describe_view(s.elements[p2[j]]))
    } by {
        if j < rows.len() {
            assert(r2[j] == rows[j]);
            assert(o2[j] == options[j]);
            assert(p2[j] == positions[j]);
        }
    }
}

impl Catalog {
    /// How many rows may share a name and still be offered to choose from.
    pub const REPEATS_TOLERATED: usize = 3;

    /// Enumerate what the worker may do to `snapshot` on `platform`.
    ///
    /// The operations are the platform's own, less the ones this screen
    /// gives no use for: putting a keyboard away when none is up, Back while
    /// one is (it is the same gesture as closing it), and anything needing a
    /// row on a screen without one. Rows are offered in screen order, except
    /// those whose name more than [`Self::REPEATS_TOLERATED`] rows share; the
    /// rows that accept text are offered again as fields.
    pub fn for_screen<P: Platform>(snapshot: &Snapshot, platform: &P) -> (c: Catalog)
        ensures
            c@.app == snapshot@.app,
            c@.return_to is None,
            c@.supported == first(offered_on(platform.offered(), snapshot@), MAX_SUPPORTED as int),
            c@.operations == operation_options(c@.supported),
            rows_offer(c@.targets, c@.target_options, snapshot@, target_positions(snapshot@.elements, snapshot@.elements.len() as int)),
            rows_offer(c@.fields, c@.field_options, snapshot@, field_positions(snapshot@.elements, snapshot@.elements.len() as int)),
            c@.on_screen.len() == snapshot@.elements.len(),
            forall|i: int| 0 <= i < c@.on_screen.len() ==> (#[trigger] c@.on_screen[i]).stamp() == snapshot@.generation && c@.on_screen[i].position() == i,
    {
        let ops = platform.operations();
        let keyboard = snapshot.keyboard_open();
        let empty = snapshot.is_empty();
        let mut operations = Options::new();
        let mut supported: Vec<Operation> = Vec::new();
        let mut i: usize = 0;
        while i < ops.len()
            invariant
                i <= ops@.len(),
                keyboard == snapshot@.keyboard_open,
                empty == (snapshot@.elements.len() == 0),
                supported@ == first(offered_on(ops@.take(i as int), snapshot@), MAX_SUPPORTED as int),
                operations@ == operation_options(supported@),
            decreases ops@.len() - i,
        {
            let op = ops[i];
            let ghost before = ops@.take(i as int);
            proof {
                assert(ops@.take((i + 1) as int).drop_last() =~= before);
                assert(ops@.take((i + 1) as int).last() == op);
            }
            let allowed = !(op == Operation::CloseKeyboard && !keyboard) && !(op == Operation::Back
                && keyboard) && !(op.needs_tap_target() && empty);
            if allowed {
                let pushed = operations.push_named(String::from_str(op.key()), String::from_str(op.rubric()));
                if pushed.is_ok() {
                    supported.push(op);
                }
                proof {
                    let o = offered_on(before, snapshot@);
                    if o.len() >= MAX_SUPPORTED {
                        assert(first(o.push(op), MAX_SUPPORTED as int) =~= first(o, MAX_SUPPORTED as int));
                    }
                }
            }
            i = i + 1;
            assert(operation_options(supported@) =~= operations@);
        }
        assert(ops@.take(ops@.len() as int) =~= ops@);

        let refs = snapshot.refs();
        let n = refs.len();
        let ghost es = snapshot@.elements;
        let mut names: Vec<String> = Vec::new();
        let mut texts: Vec<String> = Vec::new();
        let mut k: usize = 0;
        while k < n
            invariant
                k <= n == refs@.len() == es.len(),
                names@.len() == k,
                texts@.len() == k,
                forall|j: int| 0 <= j < refs@.len() ==> (#[trigger] refs@[j]).1@ == es[j],
                forall|j: int| 0 <= j < k ==> (#[trigger] names@[j])@ == name_of(es[j]) && texts@[j]@ == describe_view(es[j]),
            decreases n - k,
        {
            let text = refs[k].1.describe();
            let name = normalized(&text);
            assert(text@ == describe_view(es[k as int]));
            names.push(name);
            texts.push(text);
            assert(names@[k as int]@ == name_of(es[k as int]));
            k = k + 1;
        }

        let mut target_options = Options::new();
        let mut targets: Vec<(OptionId, ElementRef, String)> = Vec::new();
        let mut field_options = Options::new();
        let mut fields: Vec<(OptionId, ElementRef, String)> = Vec::new();
        let mut on_screen: Vec<ElementRef> = Vec::new();
        let mut k: usize = 0;
        let count = snapshot.len();
        while k < n
            invariant
                k <= n == refs@.len() == es.len() <= crate::snapshot::MAX_ELEMENTS,
                names@.len() == n,
                texts@.len() == n,
                forall|j: int| 0 <= j < refs@.len() ==> {
                    &&& (#[trigger] refs@[j]).1@ == es[j]
                    &&& refs@[j].0.stamp() == snapshot@.generation
                    &&& refs@[j].0.position() == j
                },
                forall|j: int| 0 <= j < n ==> (#[trigger] names@[j])@ == name_of(es[j]) && texts@[j]@ == describe_view(es[j]),
                rows_offer(rows_view(targets@), target_options@, snapshot@, target_positions(es, k as int)),
                rows_offer(rows_view(fields@), field_options@, snapshot@, field_positions(es, k as int)),
                target_positions(es, k as int).len() <= k,
                field_positions(es, k as int).len() <= k,
                on_screen@.len() == k,
                forall|j: int| 0 <= j < k ==> (#[trigger] on_screen@[j]).stamp() == snapshot@.generation && on_screen@[j].position() == j,
                es == snapshot@.elements,
            decreases n - k,
        {
            let handle = refs[k].0;
            on_screen.push(handle);
            // How many rows on screen share this one's name.
            let mut alike: usize = 0;
            let mut m: usize = 0;
            while m < n
                invariant
                    m <= n == names@.len() == es.len(),
                    k < n,
                    forall|j: int| 0 <= j < n ==> (#[trigger] names@[j])@ == name_of(es[j]),
                    alike == count_named(es.take(m as int), name_of(es[k as int])),
                    alike <= m,
                decreases n - m,
            {
                proof {
                    lemma_count_prefix(es, name_of(es[k as int]), m as int);
                }
                if crate::text::same_text(names[m].as_str(), names[k].as_str()) {
                    alike = alike + 1;
                }
                m = m + 1;
            }
            assert(es.take(n as int) =~= es);
            let ghost tp = target_positions(es, k as int);
            let ghost fp = field_positions(es, k as int);
            assert(alike == count_named(es, name_of(es[k as int])));
            assert(names@[k as int]@ == name_of(es[k as int]));
            assert(texts@[k as int]@ == describe_view(es[k as int]));
            if alike <= Self::REPEATS_TOLERATED {
                let ghost rows_before = rows_view(targets@);
                let ghost options_before = target_options@;
                let pushed = target_options.push(texts[k].clone());
                match pushed {
                    Ok(id) => {
                        targets.push((id, handle, texts[k].clone()));
                        proof {
                            assert(rows_view(targets@) =~= rows_before.push((id, handle, describe_view(es[k as int]))));
                            lemma_rows_offer_push(rows_before, options_before, snapshot@, tp, id, handle, k as int);
                        }
                    },
                    Err(_) => {},
                }
            }
            proof {
                assert(target_positions(es, k + 1) == if distinct_enough(es, k as int) { tp.push(k as int) } else { tp });
            }
            if refs[k].1.editable {
                let ghost rows_before = rows_view(fields@);
                let ghost options_before = field_options@;
                let pushed = field_options.push(texts[k].clone());
                match pushed {
                    Ok(id) => {
                        fields.push((id, handle, texts[k].clone()));
                        proof {
                            assert(rows_view(fields@) =~= rows_before.push((id, handle, describe_view(es[k as int]))));
                            lemma_rows_offer_push(rows_before, options_before, snapshot@, fp, id, handle, k as int);
                        }
                    },
                    Err(_) => {},
                }
            }
            proof {
                assert(field_positions(es, k + 1) == if es[k as int].editable { fp.push(k as int) } else { fp });
            }
            k = k + 1;
        }
        Catalog {
            app: snapshot.app(),
            return_to: None,
            supported,
            operations,
            targets,
            target_options,
            on_screen,
            fields,
            field_options,
        }
    }

    /// Also offer typing, when this screen has somewhere to type.
    pub fn accepting_text(self) -> (c: Catalog)
        ensures
            ({
                let adds = self@.fields.len() > 0 && self@.operations.len() < MAX_SUPPORTED;
                &&& c@.supported == if adds { self@.supported.push(Operation::TypeText) } else { self@.supported }
                &&& c@.operations == if adds { self@.operations.push((key_of(Operation::TypeText), rubric_of(Operation::TypeText))) } else { self@.operations }
                &&& c@ == (CatalogView { supported: c@.supported, operations: c@.operations, ..self@ })
            }),
    {
        let mut c = self;
        if c.fields.len() > 0 {
            let op = Operation::TypeText;
            let pushed = c.operations.push_named(String::from_str(op.key()), String::from_str(op.rubric()));
            if pushed.is_ok() {
                c.supported.push(op);
            }
        }
        c
    }

    /// Also offer going back into `app`, when this screen belongs to another.
    ///
    /// Passing `None`, or the app this screen already belongs to, changes
    /// nothing: returning to where you are is not an action.
    pub fn returning_to(self, app: Option<&str>) -> (c: Catalog)
        ensures
            ({
                let adds = app is Some && self@.app != Some(app->0@) && self@.operations.len() < MAX_SUPPORTED;
                &&& c@.supported == if adds { self@.supported.push(Operation::Return) } else { self@.supported }
                &&& c@.operations == if adds { self@.operations.push((key_of(Operation::Return), rubric_of(Operation::Return))) } else { self@.operations }
                &&& c@.return_to == if adds { Some(app->0@) } else { self@.return_to }
                &&& c@ == (CatalogView { supported: c@.supported, operations: c@.operations, return_to: c@.return_to, ..self@ })
            }),
    {
        let mut c = self;
        let app = match app {
            Some(a) => a,
            None => {
                return c;
            },
        };
        let same = match &c.app {
            Some(mine) => same_text(mine.as_str(), app),
            None => false,
        };
        if same {
            return c;
        }
        let op = Operation::Return;
        let pushed = c.operations.push_named(String::from_str(op.key()), String::from_str(op.rubric()));
        if pushed.is_ok() {
            c.supported.push(op);
            c.return_to = Some(String::from_str(app));
        }
        c
    }

    /// How many fields on this screen accept text.
    pub fn fields(&self) -> (n: usize)
        ensures
            n == self@.fields.len(),
    {
        self.fields.len()
    }

    /// The action an operation that needs no row stands for.
    pub fn untargeted(operation: Operation) -> (r: Result<Act, Indecision>)
        ensures
            outcome_view_act(r) == ready(untargeted_act(operation)),
    {
        match operation {
            Operation::ScrollUp => Ok(Act::Scroll(Direction::Up)),
            Operation::ScrollDown => Ok(Act::Scroll(Direction::Down)),
            Operation::Back => Ok(Act::System(SystemAct::Back)),
            Operation::CloseKeyboard => Ok(Act::CloseKeyboard),
            Operation::Home => Ok(Act::System(SystemAct::Home)),
            Operation::AppSwitcher => Ok(Act::System(SystemAct::AppSwitcher)),
            Operation::Submit => Ok(Act::System(SystemAct::Submit)),
            Operation::Wait => Ok(Act::Wait),
            Operation::Done => Ok(Act::Finish(Outcome::Achieved)),
            Operation::Blocked => Ok(Act::Finish(Outcome::Blocked)),
            _ => Err(Indecision::NoTarget),
        }
    }

    /// The action an operation aimed at a row stands for.
    pub fn targeted(operation: Operation, target: ElementRef) -> (r: Result<Act, Indecision>)
        ensures
            outcome_view_act(r) == ready(targeted_act(operation, target)),
    {
        match operation {
            Operation::Tap => Ok(Act::Tap(target)),
            Operation::DoubleTap => Ok(Act::DoubleTap(target)),
            Operation::LongPress => Ok(Act::LongPress(target)),
            Operation::SwipeLeft => Ok(Act::SwipeElement { target, direction: Swipe::Left }),
            Operation::SwipeRight => Ok(Act::SwipeElement { target, direction: Swipe::Right }),
            Operation::Peek => Ok(Act::Peek(target)),
            _ => Err(Indecision::NoTarget),
        }
    }

    /// Turn a step's answers into the one action to carry out.
    ///
    /// Both heads must clear the floor for the chosen operation; see
    /// [`resolution`] for the whole rule.
    pub fn resolve(&self, answers: &StepAnswers, floors: &Floors) -> (r: Result<Decision, Indecision>)
        ensures
            outcome_view(r) == resolution(self@, *answers, *floors),
    {
        let operation = answers.operation;
        let floor = floors.for_operation(operation);
        if answers.operation_confidence.below(floor) {
            return Err(Indecision::TooUncertain { got: answers.operation_confidence, floor });
        }
        if !listed(&self.supported, operation) {
            return Err(Indecision::NotOffered { what: String::from_str(operation.key()) });
        }
        if operation.needs_field() {
            let chosen = match answers.type_field {
                Some(c) => c,
                None => {
                    return Err(Indecision::NoTarget);
                },
            };
            let floor = floors.for_target(operation);
            if chosen.confidence.below(floor) {
                return Err(Indecision::TooUncertain { got: chosen.confidence, floor });
            }
            return match find_row(&self.fields, chosen.choice) {
                Some(into) => Ok(Decision::NeedsText { into }),
                None => Err(Indecision::NotOffered { what: chosen.choice.to_string() }),
            };
        }
        if operation == Operation::Return {
            return match &self.return_to {
                Some(app) => Ok(Decision::Ready(Act::Return(app.clone()))),
                None => Err(Indecision::NoTarget),
            };
        }
        if !operation.needs_tap_target() {
            return match Self::untargeted(operation) {
                Ok(act) => Ok(Decision::Ready(act)),
                Err(e) => Err(e),
            };
        }
        let chosen = match answers.tap_target {
            Some(c) => c,
            None => {
                return Err(Indecision::NoTarget);
            },
        };
        let floor = floors.for_target(operation);
        if chosen.confidence.below(floor) && answers.tap_target_shared.below(floor) {
            return Err(Indecision::TooUncertain { got: chosen.confidence, floor });
        }
        match find_row(&self.targets, chosen.choice) {
            Some(target) => match Self::targeted(operation, target) {
                Ok(act) => Ok(Decision::Ready(act)),
                Err(e) => Err(e),
            },
            None => Err(Indecision::NotOffered { what: chosen.choice.to_string() }),
        }
    }

    /// Build an action from an operation and a row position: the path an
    /// escalation takes, bound by the same catalog Jev was offered.
    ///
    /// Rows are numbered as the screen lists them, every one of them; fields
    /// are numbered among themselves.
    pub fn act_from(&self, operation: Operation, target: Option<usize>) -> (r: Result<Decision, Indecision>)
        ensures
            outcome_view(r) == chosen_by_position(self@, operation, target),
    {
        if !listed(&self.supported, operation) {
            return Err(Indecision::NotOffered { what: String::from_str(operation.key()) });
        }
        if operation.needs_field() {
            let position = match target {
                Some(p) => p,
                None => {
                    return Err(Indecision::NoTarget);
                },
            };
            if position < self.fields.len() {
                return Ok(Decision::NeedsText { into: self.fields[position].1 });
            }
            let mut what = String::from_str("field ");
            crate::text::push_decimal(&mut what, position as u64);
            proof {
                reveal_strlit("field ");
                assert(what@ =~= seq!['f', 'i', 'e', 'l', 'd', ' '] + crate::text::decimal(position as nat));
            }
            return Err(Indecision::NotOffered { what });
        }
        if operation == Operation::Return {
            return match &self.return_to {
                Some(app) => Ok(Decision::Ready(Act::Return(app.clone()))),
                None => Err(Indecision::NoTarget),
            };
        }
        if !operation.needs_tap_target() {
            return match Self::untargeted(operation) {
                Ok(act) => Ok(Decision::Ready(act)),
                Err(e) => Err(e),
            };
        }
        let position = match target {
            Some(p) => p,
            None => {
                return Err(Indecision::NoTarget);
            },
        };
        if position < self.on_screen.len() {
            return match Self::targeted(operation, self.on_screen[position]) {
                Ok(act) => Ok(Decision::Ready(act)),
                Err(e) => Err(e),
            };
        }
        let mut what = String::from_str("row ");
        crate::text::push_decimal(&mut what, position as u64);
        proof {
            reveal_strlit("row ");
            assert(what@ =~= seq!['r', 'o', 'w', ' '] + crate::text::decimal(position as nat));
        }
        Err(Indecision::NotOffered { what })
    }

    /// The ids of every offered row the screen names as it names the row
    /// offered under `chosen` (that row included), trimmed and in lower case;
    /// none when nothing is offered under `chosen`. What the caller sums the
    /// distribution over, for [`StepAnswers::tap_target_shared`].
    pub fn named_alike(&self, chosen: OptionId) -> (r: Vec<OptionId>)
        ensures
            match first_position(self@.targets, chosen) {
                None => r@.len() == 0,
                Some(j) => r@ == alike_ids(self@.targets, lowercase(trim(self@.targets[j].2)), self@.targets.len() as int),
            },
    {
        let ghost t = rows_view(self.targets@);
        let mut r: Vec<OptionId> = Vec::new();
        let at = match position_of(&self.targets, chosen) {
            Some(p) => p,
            None => {
                return r;
            },
        };
        let name = normalized(&self.targets[at].2);
        let mut i: usize = 0;
        while i < self.targets.len()
            invariant
                i <= self.targets@.len(),
                t == rows_view(self.targets@),
                at < t.len(),
                name@ == lowercase(trim(t[at as int].2)),
                r@ == alike_ids(t, name@, i as int),
            decreases self.targets@.len() - i,
        {
            let other = normalized(&self.targets[i].2);
            proof {
                assert(t[i as int].2 == self.targets@[i as int].2@);
            }
            if crate::text::same_text(other.as_str(), name.as_str()) {
                r.push(self.targets[i].0);
            }
            i = i + 1;
        }
        r
    }

    /// The rows this screen offers, keyed as the Choice offers them.
    pub fn rows(&self) -> (r: Vec<(OptionId, String)>)
        ensures
            r@.len() == self@.targets.len(),
            forall|j: int| 0 <= j < r@.len() ==> (#[trigger] r@[j]).0 == self@.targets[j].0 && r@[j].1@ == self@.targets[j].2,
    {
        labelled(&self.targets)
    }

    /// The fields this screen offers, keyed as the Choice offers them.
    pub fn fields_offered(&self) -> (r: Vec<(OptionId, String)>)
        ensures
            r@.len() == self@.fields.len(),
            forall|j: int| 0 <= j < r@.len() ==> (#[trigger] r@[j]).0 == self@.fields[j].0 && r@[j].1@ == self@.fields[j].2,
    {
        labelled(&self.fields)
    }

    /// The operations offered on this screen.
    pub fn operations(&self) -> (r: &Vec<Operation>)
        ensures
            r@ == self@.supported,
    {
        &self.supported
    }

    /// The options of the operation Choice, in the order offered.
    pub fn operation_options(&self) -> (r: &Options)
        ensures
            r@ == self@.operations,
    {
        &self.operations
    }

    /// The options of the row Choice, in the order offered.
    pub fn target_options(&self) -> (r: &Options)
        ensures
            r@ == self@.target_options,
    {
        &self.target_options
    }

    /// The options of the field Choice, in the order offered.
    pub fn field_options(&self) -> (r: &Options)
        ensures
            r@ == self@.field_options,
    {
        &self.field_options
    }

    /// How many rows may be acted on.
    pub fn targets(&self) -> (n: usize)
        ensures
            n == self@.targets.len(),
    {
        self.targets.len()
    }
}

/// The ids, among the first `n` rows, of those named `name` once trimmed and
/// in lower case.
pub open spec fn alike_ids(t: Seq<(OptionId, ElementRef, Seq<char>)>, name: Seq<char>, n: int) -> Seq<OptionId>
    decreases n,
{
    if n <= 0 {
        Seq::empty()
    } else if lowercase(trim(t[n - 1].2)) == name {
        alike_ids(t, name, n - 1).push(t[n - 1].0)
    } else {
        alike_ids(t, name, n - 1)
    }
}

/// The id and text of each row.
fn labelled(rows: &Vec<(OptionId, ElementRef, String)>) -> (r: Vec<(OptionId, String)>)
    ensures
        r@.len() == rows@.len(),
        forall|j: int| 0 <= j < r@.len() ==> (#[trigger] r@[j]).0 == rows@[j].0 && r@[j].1@ == rows@[j].2@,
{
    let mut r: Vec<(OptionId, String)> = Vec::new();
    let mut i: usize = 0;
    while i < rows.len()
        invariant
            i <= rows@.len(),
            r@.len() == i,
            forall|j: int| 0 <= j < i ==> (#[trigger] r@[j]).0 == rows@[j].0 && r@[j].1@ == rows@[j].2@,
        decreases rows@.len() - i,
    {
        r.push((rows[i].0, rows[i].2.clone()));
        i = i + 1;
    }
    r
}

/// An act's outcome, as plain values.
pub open spec fn outcome_view_act(r: Result<Act, Indecision>) -> Result<DecisionView, IndecisionView> {
    match r {
        Ok(a) => Ok(DecisionView::Ready(a@)),
        Err(e) => Err(e@),
    }
}

/// The most operations a Choice can offer.
pub const MAX_SUPPORTED: usize = 255;

/// Whether `decision` acts on `target`, whichever gesture it is.
pub open spec fn acts_on(decision: DecisionView, target: ElementRef) -> bool {
    match decision {
        DecisionView::Ready(ActView::Tap(h)) => h == target,
        DecisionView::Ready(ActView::DoubleTap(h)) => h == target,
        DecisionView::Ready(ActView::LongPress(h)) => h == target,
        DecisionView::Ready(ActView::SwipeElement { target: h, .. }) => h == target,
        DecisionView::Ready(ActView::Peek(h)) => h == target,
        DecisionView::NeedsText { into } => into == target,
        _ => false,
    }
}

/// Uncertainty stops the loop: a step's answers become an action only when
/// the operation is one this screen offers and its confidence clears the
/// floor for what it costs, and, when it acts on a row or a field, that row
/// or field is one the catalog offered and was chosen as surely (a row may
/// instead clear the floor through the share of every row named as it is).
pub proof fn resolve_acts_only_when_sure(c: CatalogView, a: StepAnswers, floors: Floors)
    requires
        resolution(c, a, floors) is Ok,
    ensures
        ({
            let op = a.operation;
            let floor = floors.floor_for(op);
            let d = resolution(c, a, floors)->Ok_0;
            &&& a.operation_confidence.level() >= floor.level()
            &&& c.supported.contains(op)
            &&& op == Operation::TypeText ==> {
                &&& a.type_field is Some
                &&& a.type_field->0.confidence.level() >= floor.level()
                &&& offered_under(c.fields, a.type_field->0.choice) is Some
                &&& d == (DecisionView::NeedsText { into: offered_under(c.fields, a.type_field->0.choice)->0 })
            }
            &&& needs_target(op) ==> {
                &&& a.tap_target is Some
                &&& (a.tap_target->0.confidence.level() >= floor.level() || a.tap_target_shared.level() >= floor.level())
                &&& offered_under(c.targets, a.tap_target->0.choice) is Some
                &&& acts_on(d, offered_under(c.targets, a.tap_target->0.choice)->0)
            }
        }),
{
}

/// A second opinion widens who decides without widening what may happen: the
/// operation it names must be one this screen offers, a row it names must be
/// on screen, and a field it names must be one of the screen's fields.
pub proof fn escalation_stays_in_catalog(c: CatalogView, op: Operation, target: Option<usize>)
    requires
        chosen_by_position(c, op, target) is Ok,
    ensures
        ({
            let d = chosen_by_position(c, op, target)->Ok_0;
            &&& c.supported.contains(op)
            &&& needs_target(op) ==> target is Some && target->0 < c.on_screen.len() && acts_on(d, c.on_screen[target->0 as int])
            &&& op == Operation::TypeText ==> target is Some && target->0 < c.fields.len() && acts_on(d, c.fields[target->0 as int].1)
        }),
{
}

proof fn lemma_offered_on(ops: Seq<Operation>, s: SnapshotView, op: Operation)
    ensures
        offered_on(ops, s).contains(op) ==> ops.contains(op) && allowed_here(op, s),
    decreases ops.len(),
{
    if ops.len() > 0 {
        lemma_offered_on(ops.drop_last(), s, op);
        if offered_on(ops, s).contains(op) {
            let o = offered_on(ops.drop_last(), s);
            if allowed_here(ops.last(), s) && op == ops.last() {
                assert(ops[ops.len() - 1] == op);
            } else {
                if allowed_here(ops.last(), s) {
                    let k = choose|k: int| 0 <= k < o.push(ops.last()).len() && o.push(ops.last())[k] == op;
                    assert(o[k] == op);
                }
                let k = choose|k: int| 0 <= k < ops.drop_last().len() && ops.drop_last()[k] == op;
                assert(ops[k] == op);
            }
        }
    }
}

/// A catalog offers only what its platform supports and the screen gives a
/// use for: never a gesture the platform lacks, never putting away a
/// keyboard that is not up, never Back while one is, and nothing aimed at a
/// row on a screen with none.
pub proof fn catalog_offers_only_what_applies(ops: Seq<Operation>, s: SnapshotView, op: Operation)
    requires
        first(offered_on(ops, s), MAX_SUPPORTED as int).contains(op),
    ensures
        ops.contains(op),
        allowed_here(op, s),
{
    let o = offered_on(ops, s);
    if o.len() > MAX_SUPPORTED {
        let k = choose|k: int| 0 <= k < o.take(MAX_SUPPORTED as int).len() && o.take(MAX_SUPPORTED as int)[k] == op;
        assert(o[k] == op);
    }
    lemma_offered_on(ops, s, op);
}


/// What a step is working towards: the goal as written, or the steps it was
/// broken into, in the order the app asks for them.
///
/// A sentence of several steps asks the model to work out on every screen
/// which of them the screen is for; a list asked about "the next unfinished
/// step" leaves it only to find its place.
#[derive(Debug, Clone, PartialEq, Eq)]
pub enum Aim {
    /// One sentence saying what to achieve.
    Goal(String),
    /// The steps to take, in order.
    Plan(Vec<String>),
}

/// An aim, as plain values.
pub ghost enum AimView {
    Goal(Seq<char>),
    Plan(Seq<Seq<char>>),
}

impl View for Aim {
    type V = AimView;

    open spec fn view(&self) -> AimView {
        match self {
            Aim::Goal(g) => AimView::Goal(g@),
            Aim::Plan(steps) => AimView::Plan(crate::snapshot::texts(steps@)),
        }
    }
}

impl Aim {
    /// The same aim, held separately.
    pub fn duplicate(&self) -> (a: Aim)
        ensures
            a@ == self@,
    {
        match self {
            Aim::Goal(g) => Aim::Goal(g.clone()),
            Aim::Plan(steps) => Aim::Plan(crate::snapshot::copy_texts(steps)),
        }
    }

    /// The wording of a question for this kind of aim.
    fn asking(&self, for_goal: &'static str, for_plan: &'static str) -> (r: &'static str)
        ensures
            r == match self {
                Aim::Goal(_) => for_goal,
                Aim::Plan(_) => for_plan,
            },
    {
        match self {
            Aim::Goal(_) => for_goal,
            Aim::Plan(_) => for_plan,
        }
    }
}

/// The instructions attached to a choice of action.
#[derive(Debug)]
pub struct Deciding {
    /// What the worker is trying to achieve.
    pub goal: Aim,
    /// The judgment being asked.
    pub question: &'static str,
    /// Where in the state the answer is to be found, when code already knows.
    pub note: Option<&'static str>,
}

/// Whether `q` asks for a choice among `options` about `goal`, worded
/// `for_goal` for a goal and `for_plan` for a plan.
pub open spec fn asks_choice(
    q: Question<Deciding>,
    goal: AimView,
    for_goal: Seq<char>,
    for_plan: Seq<char>,
    options: Seq<(Seq<char>, Seq<char>)>,
) -> bool {
    &&& q matches Question::Choice { instructions, criteria }
    &&& instructions.goal@ == goal
    &&& instructions.note is None
    &&& instructions.question@ == match goal {
        AimView::Goal(_) => for_goal,
        AimView::Plan(_) => for_plan,
    }
    &&& criteria@ == options
}

/// How the operation question is worded for a goal.
pub open spec fn operation_for_goal() -> Seq<char> {
    "Which single operation best advances `goal` from the current screen?"@
}

/// How the operation question is worded for a plan.
pub open spec fn operation_for_plan() -> Seq<char> {
    "Which single operation best advances the next unfinished step of `goal` from the current screen?"@
}

/// How the row question is worded for a goal.
pub open spec fn target_for_goal() -> Seq<char> {
    "Which single row on the current screen should be acted on to advance `goal`, assuming the chosen operation needs a row?"@
}

/// How the row question is worded for a plan.
pub open spec fn target_for_plan() -> Seq<char> {
    "Which single row on the current screen should be acted on to advance the next unfinished step of `goal`, assuming the chosen operation needs a row?"@
}

/// How the field question is worded for a goal.
pub open spec fn field_for_goal() -> Seq<char> {
    "Which field on the current screen should be typed into to advance `goal`, assuming the chosen operation is typing?"@
}

/// How the field question is worded for a plan.
pub open spec fn field_for_plan() -> Seq<char> {
    "Which field on the current screen should be typed into to advance the next unfinished step of `goal`, assuming the chosen operation is typing?"@
}

impl Catalog {
    /// The Choice asking which operation advances `goal`.
    pub fn operation_question(&self, goal: Aim) -> (q: Question<Deciding>)
        ensures
            asks_choice(q, goal@, operation_for_goal(), operation_for_plan(), self@.operations),
    {
        let question = goal.asking(
            "Which single operation best advances `goal` from the current screen?",
            "Which single operation best advances the next unfinished step of `goal` from the current screen?",
        );
        Question::Choice {
            instructions: Deciding { goal, question, note: None },
            criteria: self.operations.duplicate(),
        }
    }

    /// The Choice asking which row to act on, when there is one.
    ///
    /// It carries the goal: it is answered alongside the operation and so
    /// cannot see which operation won, and without the goal it would ask
    /// which row merely looks important.
    pub fn tap_target_question(&self, goal: Aim) -> (q: Option<Question<Deciding>>)
        ensures
            self@.targets.len() == 0 <==> q is None,
            q matches Some(q) ==> asks_choice(q, goal@, target_for_goal(), target_for_plan(), self@.target_options),
    {
        if self.targets.len() == 0 {
            return None;
        }
        let question = goal.asking(
            "Which single row on the current screen should be acted on to advance `goal`, assuming the chosen operation needs a row?",
            "Which single row on the current screen should be acted on to advance the next unfinished step of `goal`, assuming the chosen operation needs a row?",
        );
        Some(
            Question::Choice {
                instructions: Deciding { goal, question, note: None },
                criteria: self.target_options.duplicate(),
            },
        )
    }

    /// The Choice asking which field to type into, when there is one.
    pub fn type_field_question(&self, goal: Aim) -> (q: Option<Question<Deciding>>)
        ensures
            self@.fields.len() == 0 <==> q is None,
            q matches Some(q) ==> asks_choice(q, goal@, field_for_goal(), field_for_plan(), self@.field_options),
    {
        if self.fields.len() == 0 {
            return None;
        }
        let question = goal.asking(
            "Which field on the current screen should be typed into to advance `goal`, assuming the chosen operation is typing?",
            "Which field on the current screen should be typed into to advance the next unfinished step of `goal`, assuming the chosen operation is typing?",
        );
        Some(
            Question::Choice {
                instructions: Deciding { goal, question, note: None },
                criteria: self.field_options.duplicate(),
            },
        )
    }
}


/// The operation an act carries out: read back from the act alone, without
/// the answers that chose it.
pub open spec fn operation_carried_out(act: ActView) -> Operation {
    match act {
        ActView::Tap(_) => Operation::Tap,
        ActView::DoubleTap(_) => Operation::DoubleTap,
        ActView::LongPress(_) => Operation::LongPress,
        ActView::SwipeElement { direction: Swipe::Left, .. } => Operation::SwipeLeft,
        ActView::SwipeElement { direction: Swipe::Right, .. } => Operation::SwipeRight,
        ActView::Peek(_) => Operation::Peek,
        ActView::TypeText { .. } => Operation::TypeText,
        ActView::System(SystemAct::Back) => Operation::Back,
        ActView::System(SystemAct::Home) => Operation::Home,
        ActView::System(SystemAct::AppSwitcher) => Operation::AppSwitcher,
        ActView::System(SystemAct::Submit) => Operation::Submit,
        ActView::CloseKeyboard => Operation::CloseKeyboard,
        ActView::Return(_) => Operation::Return,
        ActView::Scroll(Direction::Up) => Operation::ScrollUp,
        ActView::Scroll(Direction::Down) => Operation::ScrollDown,
        ActView::Wait => Operation::Wait,
        ActView::Finish(Outcome::Achieved) => Operation::Done,
        ActView::Finish(Outcome::Blocked) => Operation::Blocked,
    }
}

/// An act does what its operation names: whatever a step's answers, or an
/// escalation's choice, resolve to carries out the operation that was
/// chosen, so a swipe left is a swipe to the left and a scroll down a scroll
/// down; and only typing asks for words.
pub proof fn acts_carry_out_the_chosen_operation(
    c: CatalogView,
    a: StepAnswers,
    floors: Floors,
    op: Operation,
    target: Option<usize>,
)
    ensures
        resolution(c, a, floors) matches Ok(DecisionView::Ready(act)) ==> operation_carried_out(act) == a.operation,
        resolution(c, a, floors) matches Ok(DecisionView::NeedsText { .. }) ==> a.operation == Operation::TypeText,
        chosen_by_position(c, op, target) matches Ok(DecisionView::Ready(act)) ==> operation_carried_out(act) == op,
        chosen_by_position(c, op, target) matches Ok(DecisionView::NeedsText { .. }) ==> op == Operation::TypeText,
{
}

/// A swipe goes the way its operation says: when a step resolves to
/// dragging a row, it drags it left exactly when the operation was
/// `swipe_left` and right exactly when it was `swipe_right`; and an
/// operation that is a swipe, when it resolves to an act at all, resolves to
/// a drag that way.
pub proof fn swipes_go_the_way_they_are_named(c: CatalogView, a: StepAnswers, floors: Floors, op: Operation, target: Option<usize>)
    ensures
        resolution(c, a, floors) matches Ok(DecisionView::Ready(ActView::SwipeElement { direction, .. })) ==> {
            &&& (direction == Swipe::Left <==> a.operation == Operation::SwipeLeft)
            &&& (direction == Swipe::Right <==> a.operation == Operation::SwipeRight)
        },
        a.operation == Operation::SwipeLeft && resolution(c, a, floors) is Ok ==> resolution(c, a, floors) matches Ok(
            DecisionView::Ready(ActView::SwipeElement { direction: Swipe::Left, .. }),
        ),
        a.operation == Operation::SwipeRight && resolution(c, a, floors) is Ok ==> resolution(c, a, floors) matches Ok(
            DecisionView::Ready(ActView::SwipeElement { direction: Swipe::Right, .. }),
        ),
        chosen_by_position(c, op, target) matches Ok(DecisionView::Ready(ActView::SwipeElement { direction, .. })) ==> {
            &&& (direction == Swipe::Left <==> op == Operation::SwipeLeft)
            &&& (direction == Swipe::Right <==> op == Operation::SwipeRight)
        },
        op == Operation::SwipeLeft && chosen_by_position(c, op, target) is Ok ==> chosen_by_position(c, op, target) matches Ok(
            DecisionView::Ready(ActView::SwipeElement { direction: Swipe::Left, .. }),
        ),
        op == Operation::SwipeRight && chosen_by_position(c, op, target) is Ok ==> chosen_by_position(c, op, target) matches Ok(
            DecisionView::Ready(ActView::SwipeElement { direction: Swipe::Right, .. }),
        ),
{
}

/// The operations aimed at a row.
pub open spec fn aimed_at_a_row(op: Operation) -> bool {
    op == Operation::Tap || op == Operation::DoubleTap || op == Operation::LongPress || op == Operation::SwipeLeft
        || op == Operation::SwipeRight || op == Operation::Peek
}

/// What a screen offers follows from the screen: with no rows, nothing aimed
/// at a row is offered; with no keyboard up, putting one away is not
/// offered; with one up, Back is not, since it is the same gesture. Every
/// other operation the platform has is offered, in the platform's order,
/// for as many as a catalog holds.
pub proof fn a_screen_offers_what_it_gives_a_use_for(ops: Seq<Operation>, s: SnapshotView, op: Operation)
    ensures
        s.elements.len() == 0 && aimed_at_a_row(op) ==> !first(offered_on(ops, s), MAX_SUPPORTED as int).contains(op),
        !s.keyboard_open ==> !first(offered_on(ops, s), MAX_SUPPORTED as int).contains(Operation::CloseKeyboard),
        s.keyboard_open ==> !first(offered_on(ops, s), MAX_SUPPORTED as int).contains(Operation::Back),
        ops.contains(op) && !(s.elements.len() == 0 && aimed_at_a_row(op)) && !(op == Operation::CloseKeyboard
            && !s.keyboard_open) && !(op == Operation::Back && s.keyboard_open) ==> offered_on(ops, s).contains(op),
        offered_on(ops, s).len() <= ops.len(),
{
    if first(offered_on(ops, s), MAX_SUPPORTED as int).contains(op) {
        catalog_offers_only_what_applies(ops, s, op);
    }
    if first(offered_on(ops, s), MAX_SUPPORTED as int).contains(Operation::CloseKeyboard) {
        catalog_offers_only_what_applies(ops, s, Operation::CloseKeyboard);
    }
    if first(offered_on(ops, s), MAX_SUPPORTED as int).contains(Operation::Back) {
        catalog_offers_only_what_applies(ops, s, Operation::Back);
    }
    lemma_offered_complete(ops, s, op);
}

proof fn lemma_offered_complete(ops: Seq<Operation>, s: SnapshotView, op: Operation)
    ensures
        ops.contains(op) && !(s.elements.len() == 0 && aimed_at_a_row(op)) && !(op == Operation::CloseKeyboard
            && !s.keyboard_open) && !(op == Operation::Back && s.keyboard_open) ==> offered_on(ops, s).contains(op),
        offered_on(ops, s).len() <= ops.len(),
    decreases ops.len(),
{
    if ops.len() > 0 {
        lemma_offered_complete(ops.drop_last(), s, op);
        let o = offered_on(ops.drop_last(), s);
        if ops.contains(op) && !(s.elements.len() == 0 && aimed_at_a_row(op)) && !(op == Operation::CloseKeyboard
            && !s.keyboard_open) && !(op == Operation::Back && s.keyboard_open) {
            if ops.last() == op {
                assert(offered_on(ops, s) == o.push(op));
                assert(o.push(op)[o.len() as int] == op);
            } else {
                let k = choose|k: int| 0 <= k < ops.len() && ops[k] == op;
                assert(ops.drop_last()[k] == op);
                let j = choose|j: int| 0 <= j < o.len() && o[j] == op;
                if allowed_here(ops.last(), s) {
                    assert(o.push(ops.last())[j] == op);
                }
            }
        }
    }
}

} // verus!
