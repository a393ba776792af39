use jev_pilot::judgment::Confidence;
use jev_pilot::step::{check_key, unmet};

fn at(value: f64) -> Option<Confidence> {
    Some(Confidence::from_bits(value.to_bits()).expect("a probability"))
}

fn certainty() -> Confidence {
    Confidence::from_bits(0.8f64.to_bits()).expect("a probability")
}

#[test]
fn each_criterion_is_asked_under_its_own_key() {
    assert_eq!(check_key(0), "check_0");
    assert_eq!(check_key(7), "check_7");
    assert_eq!(check_key(12), "check_12");
}

#[test]
fn the_first_criterion_not_confirmed_is_the_one_reported() {
    assert_eq!(unmet(&vec![at(0.95), at(0.5), at(0.1)], 3, certainty()), Some(1));
    assert_eq!(unmet(&vec![at(0.95), at(0.9)], 2, certainty()), None);
}

#[test]
fn a_criterion_nobody_answered_is_not_met() {
    assert_eq!(unmet(&vec![None, at(0.99)], 2, certainty()), Some(0));
    assert_eq!(unmet(&vec![at(0.99)], 2, certainty()), Some(1), "the second was never answered");
}

#[test]
fn exactly_the_certainty_is_not_enough() {
    assert_eq!(unmet(&vec![at(0.8)], 1, certainty()), Some(0));
}

#[test]
fn no_criteria_are_never_unmet() {
    assert_eq!(unmet(&vec![], 0, certainty()), None);
    assert_eq!(unmet(&vec![at(0.1)], 0, certainty()), None, "answers beyond the criteria are not read");
}

use jev_pilot::act::{Aim, Catalog};
use jev_pilot::judgment::Question;
use jev_pilot::platform::Android;
use jev_pilot::snapshot::{Bounds, Element, Snapshot, Stamps};
use jev_pilot::step::StepQuestions;

fn row(label: &str, top: i32, editable: bool) -> Element {
    Element {
        label: label.to_owned(),
        detail: None,
        editable,
        bounds: Bounds { left: 0, top, right: 1080, bottom: top + 100 },
    }
}

#[test]
fn a_step_asks_about_the_row_and_field_only_where_there_are_some() {
    let form = Snapshot::new(vec![row("Name", 0, true), row("Save", 200, false)], &mut Stamps::new()).expect("a screen");
    let with_typing = Catalog::for_screen(&form, &Android).accepting_text();
    let asked = StepQuestions::new(Aim::Goal("Save my name".to_owned()), &with_typing);
    assert!(asked.tap_target.is_some());
    assert!(asked.type_field.is_some(), "typing is offered and the screen has a field");

    let without_typing = Catalog::for_screen(&form, &Android);
    let asked = StepQuestions::new(Aim::Goal("Save my name".to_owned()), &without_typing);
    assert!(asked.type_field.is_none(), "a field is not asked about when nothing can write into it");

    let blank = Snapshot::new(Vec::new(), &mut Stamps::new()).expect("an empty screen");
    let asked = StepQuestions::new(Aim::Goal("g".to_owned()), &Catalog::for_screen(&blank, &Android).accepting_text());
    assert!(asked.tap_target.is_none());
    assert!(asked.type_field.is_none());
}

#[test]
fn every_step_asks_whether_the_screen_is_an_error_or_still_arriving() {
    let screen = Snapshot::new(vec![row("OK", 0, false)], &mut Stamps::new()).expect("a screen");
    let asked = StepQuestions::new(Aim::Goal("g".to_owned()), &Catalog::for_screen(&screen, &Android));
    match asked.is_error_screen {
        Question::Noul { instructions, criteria } => {
            assert_eq!(instructions, "Is the current screen an error, crash, or permission-denied state?");
            assert_eq!(criteria.no, "An ordinary working screen");
        }
        Question::Choice { .. } => panic!("a yes-or-no judgment"),
    }
    match asked.still_arriving {
        Question::Noul { instructions, criteria } => {
            assert!(instructions.starts_with("Is the current screen still arriving"));
            assert_eq!(criteria.yes, "Half-drawn, loading, or reporting work that is still in flight");
        }
        Question::Choice { .. } => panic!("a yes-or-no judgment"),
    }
}

#[test]
fn an_aim_held_twice_is_the_same_aim() {
    let plan = Aim::Plan(vec!["Open Wi-Fi".to_owned(), "Turn it on".to_owned()]);
    assert_eq!(plan.duplicate(), plan);
}
