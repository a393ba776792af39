//! What one iteration of the loop asks beyond the action itself: the
//! acceptance criteria, each confirmed by a yes-or-no judgment of its own.
//!
//! The criteria are asked in the same parallel pass as everything else, each
//! under a key of its own, and a verdict that passes the goal can still fail
//! here: that is the whole point of asking separately.
use crate::act::{
    asks_choice, field_for_goal, field_for_plan, operation_for_goal, operation_for_plan, target_for_goal,
    target_for_plan, Aim, Catalog, Deciding, Operation,
};
use crate::judgment::{Confidence, Poles, Question};
use crate::text::{decimal, push_decimal};
use vstd::prelude::*;

verus! {

/// Whether `q` asks `instructions` as a yes-or-no judgment whose yes means
/// `yes` and whose no means `no`.
pub open spec fn asks_yes_no(q: Question<&'static str>, instructions: Seq<char>, yes: Seq<char>, no: Seq<char>) -> bool {
    &&& q matches Question::Noul { instructions: i, criteria }
    &&& i@ == instructions
    &&& criteria.yes@ == yes
    &&& criteria.no@ == no
}

/// What is asked to tell an error screen.
pub open spec fn error_question() -> Seq<char> {
    "Is the current screen an error, crash, or permission-denied state?"@
}

/// What is asked to tell a screen still arriving.
pub open spec fn arriving_question() -> Seq<char> {
    "Is the current screen still arriving — mid-transition, loading, or waiting on something it has already been told to do?"@
}

/// Everything a step asks about what to do, and about the screen itself,
/// beside the goal and the acceptance criteria.
///
/// The row and field questions are asked alongside the operation whether or
/// not it turns out to need them: a question map is answered in parallel,
/// so asking costs nothing and saves a second round trip when it does.
#[derive(Debug)]
pub struct StepQuestions {
    /// What to do.
    pub operation: Question<Deciding>,
    /// Which row to do it to, when the screen has any.
    pub tap_target: Option<Question<Deciding>>,
    /// Which field to type into, when typing is offered and there is one.
    pub type_field: Option<Question<Deciding>>,
    /// Whether the screen is an error state.
    pub is_error_screen: Question<&'static str>,
    /// Whether the screen is still arriving.
    pub still_arriving: Question<&'static str>,
}

impl StepQuestions {
    /// The questions for one step towards `goal` on the screen `catalog`
    /// describes.
    pub fn new(goal: Aim, catalog: &Catalog) -> (q: StepQuestions)
        ensures
            asks_choice(q.operation, goal@, operation_for_goal(), operation_for_plan(), catalog@.operations),
            match q.tap_target {
                None => catalog@.targets.len() == 0,
                Some(t) => catalog@.targets.len() > 0 && asks_choice(
                    t,
                    goal@,
                    target_for_goal(),
                    target_for_plan(),
                    catalog@.target_options,
                ),
            },
            match q.type_field {
                None => !(catalog@.supported.contains(Operation::TypeText) && catalog@.fields.len() > 0),
                Some(t) => catalog@.supported.contains(Operation::TypeText) && catalog@.fields.len() > 0
                    && asks_choice(t, goal@, field_for_goal(), field_for_plan(), catalog@.field_options),
            },
            asks_yes_no(
                q.is_error_screen,
                error_question(),
                "An error message, crash dialog, or blocked-access screen is showing"@,
                "An ordinary working screen"@,
            ),
            asks_yes_no(
                q.still_arriving,
                arriving_question(),
                "Half-drawn, loading, or reporting work that is still in flight"@,
                "Settled: what is on screen is what the app means to show"@,
            ),
    {
        let operation = catalog.operation_question(goal.duplicate());
        let tap_target = catalog.tap_target_question(goal.duplicate());
        let type_field = if crate::act::listed(catalog.operations(), Operation::TypeText) {
            catalog.type_field_question(goal)
        } else {
            None
        };
        StepQuestions {
            operation,
            tap_target,
            type_field,
            is_error_screen: Question::Noul {
                instructions: "Is the current screen an error, crash, or permission-denied state?",
                criteria: Poles {
                    yes: String::from_str("An error message, crash dialog, or blocked-access screen is showing"),
                    no: String::from_str("An ordinary working screen"),
                },
            },
            still_arriving: Question::Noul {
                instructions: "Is the current screen still arriving — mid-transition, loading, or waiting on something it has already been told to do?",
                criteria: Poles {
                    yes: String::from_str("Half-drawn, loading, or reporting work that is still in flight"),
                    no: String::from_str("Settled: what is on screen is what the app means to show"),
                },
            },
        }
    }
}

/// The key the judgment of criterion number `index` is asked and answered
/// under, counting from zero.
pub open spec fn check_name(index: nat) -> Seq<char> {
    "check_"@ + decimal(index)
}

/// The key the judgment of criterion number `index` is asked and answered
/// under: `check_0`, `check_1`, ...
pub fn check_key(index: usize) -> (r: String)
    ensures
        r@ == check_name(index as nat),
{
    let mut s = String::from_str("check_");
    push_decimal(&mut s, index as u64);
    s
}

/// Whether criterion number `i` was confirmed: answered, and judged true
/// with more than `certainty`. A missing answer is not a confirmation.
pub open spec fn confirmed(answers: Seq<Option<Confidence>>, certainty: Confidence, i: int) -> bool {
    &&& 0 <= i < answers.len()
    &&& answers[i] matches Some(c)
    &&& certainty.level() < c.level()
}

/// The first of `criteria` criteria that was not confirmed, by position.
pub open spec fn first_unconfirmed(answers: Seq<Option<Confidence>>, certainty: Confidence, criteria: nat) -> Option<nat>
    decreases criteria,
{
    if criteria == 0 {
        None
    } else {
        match first_unconfirmed(answers, certainty, (criteria - 1) as nat) {
            Some(i) => Some(i),
            None => if confirmed(answers, certainty, criteria - 1) {
                None
            } else {
                Some((criteria - 1) as nat)
            },
        }
    }
}

/// The first criterion the screen did not satisfy, by position, out of
/// `criteria` of them; `answers[i]` is how likely the judge found criterion
/// `i` true, where it answered.
pub fn unmet(answers: &Vec<Option<Confidence>>, criteria: usize, certainty: Confidence) -> (r: Option<usize>)
    ensures
        match first_unconfirmed(answers@, certainty, criteria as nat) {
            Some(i) => r == Some(i as usize),
            None => r is None,
        },
{
    let mut i: usize = 0;
    while i < criteria
        invariant
            i <= criteria,
            first_unconfirmed(answers@, certainty, i as nat) is None,
        decreases criteria - i,
    {
        let met = i < answers.len() && match answers[i] {
            Some(c) => certainty.below(c),
            None => false,
        };
        if !met {
            proof {
                lemma_first_unconfirmed_stays(answers@, certainty, (i + 1) as nat, criteria as nat);
            }
            return Some(i);
        }
        i = i + 1;
    }
    None
}

/// Once a criterion is found unconfirmed, looking at more criteria finds
/// the same one first.
proof fn lemma_first_unconfirmed_stays(answers: Seq<Option<Confidence>>, certainty: Confidence, n: nat, m: nat)
    requires
        n <= m,
        first_unconfirmed(answers, certainty, n) is Some,
    ensures
        first_unconfirmed(answers, certainty, m) == first_unconfirmed(answers, certainty, n),
    decreases m - n,
{
    if n < m {
        lemma_first_unconfirmed_stays(answers, certainty, n, (m - 1) as nat);
    }
}

/// A criterion is reported unmet only when it was not confirmed, and every
/// criterion before it was: the report names the first failure, and none
/// that came after a failure.
pub proof fn unmet_is_the_first_failure(answers: Seq<Option<Confidence>>, certainty: Confidence, criteria: nat)
    ensures
        first_unconfirmed(answers, certainty, criteria) matches Some(i) ==> {
            &&& i < criteria
            &&& !confirmed(answers, certainty, i as int)
            &&& forall|j: int| 0 <= j < i ==> confirmed(answers, certainty, j)
        },
        first_unconfirmed(answers, certainty, criteria) is None ==> forall|j: int|
            0 <= j < criteria ==> confirmed(answers, certainty, j),
    decreases criteria,
{
    if criteria > 0 {
        unmet_is_the_first_failure(answers, certainty, (criteria - 1) as nat);
    }
}

} // verus!
