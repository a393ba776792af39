//! Turning a screen into choices, and a choice back into an action.

use jev_pilot::act::{Act, Catalog, Consequence, Decision, Direction, Floors, Indecision, Operation, Outcome, StepAnswers};
use jev_pilot::judgment::{Chosen, Confidence, OptionId};
use jev_pilot::device::{command_for, Command};
use jev_pilot::platform::{Android, Ios, Platform};
use jev_pilot::snapshot::{Bounds, Element, Snapshot, Stamps};

fn at(value: f64) -> Confidence {
    Confidence::from_bits(value.to_bits()).expect("a probability")
}

fn row(label: &str, top: i32, editable: bool) -> Element {
    Element {
        label: label.to_owned(),
        detail: None,
        editable,
        bounds: Bounds { left: 0, top, right: 1080, bottom: top + 100 },
    }
}

fn screen() -> Snapshot {
    Snapshot::new(vec![row("Wi-Fi", 0, false), row("Bluetooth", 200, false), row("Name", 400, true)], &mut Stamps::new()).expect("a screen")
}

fn answers(operation: Operation, confidence: f64, target: Option<u8>) -> StepAnswers {
    StepAnswers {
        operation,
        operation_confidence: at(confidence),
        tap_target: target.map(|n| Chosen { choice: OptionId::nth(n).expect("an id"), confidence: at(0.99) }),
        tap_target_shared: at(0.99),
        type_field: None,
    }
}

#[test]
fn targets_reach_the_wire_in_screen_order_not_alphabetical_order() {
    let catalog = Catalog::for_screen(&screen(), &Android);
    let names: Vec<String> = catalog.rows().into_iter().map(|(_, text)| text).collect();
    assert_eq!(names, vec!["Wi-Fi", "Bluetooth", "Name"]);
    let ids: Vec<String> = catalog.rows().into_iter().map(|(id, _)| id.to_string()).collect();
    assert_eq!(ids, vec!["A1", "A2", "A3"]);
}

#[test]
fn confidence_outside_the_unit_interval_does_not_exist() {
    assert!(Confidence::from_bits(1.5f64.to_bits()).is_none());
    assert!(Confidence::from_bits((-0.1f64).to_bits()).is_none());
    assert!(Confidence::from_bits(f64::NAN.to_bits()).is_none());
    assert!(Confidence::from_bits(0.0f64.to_bits()).is_some());
    assert_eq!(Confidence::from_bits((-0.0f64).to_bits()).map(|c| c.bits()), Some(0));
    assert!(Confidence::from_bits(1.0f64.to_bits()).is_some());
}

#[test]
fn leaving_the_app_costs_more_than_an_ordinary_gesture() {
    assert_eq!(
        Operation::Home.consequence(),
        Consequence::Destructive,
        "pressing home cannot be undone by going back",
    );
    assert_eq!(Operation::Back.consequence(), Consequence::Ordinary);
}

#[test]
fn every_operation_can_be_found_by_the_name_it_is_offered_under() {
    for op in Operation::all() {
        assert_eq!(Operation::from_key(op.key()), Some(op));
    }
    assert_eq!(Operation::from_key("fly"), None);
}

#[test]
fn a_tap_on_a_named_row_resolves_to_that_row() {
    let snapshot = screen();
    let catalog = Catalog::for_screen(&snapshot, &Android);
    let decided = catalog.resolve(&answers(Operation::Tap, 0.9, Some(1)), &Floors::new(at(0.6)));
    let (second, _) = snapshot.refs()[1].clone();
    assert_eq!(decided, Ok(Decision::Ready(Act::Tap(second))));
}

#[test]
fn an_uncertain_operation_is_refused() {
    let catalog = Catalog::for_screen(&screen(), &Android);
    let decided = catalog.resolve(&answers(Operation::Tap, 0.5, Some(1)), &Floors::new(at(0.6)));
    assert_eq!(decided, Err(Indecision::TooUncertain { got: at(0.5), floor: at(0.6) }));
}

#[test]
fn a_verdict_needs_more_certainty_than_an_ordinary_tap() {
    let catalog = Catalog::for_screen(&screen(), &Android);
    let floors = Floors::new(at(0.6)).requiring_for(Consequence::Terminal, at(0.85));
    assert!(catalog.resolve(&answers(Operation::Tap, 0.70, Some(0)), &floors).is_ok());
    assert!(catalog.resolve(&answers(Operation::Done, 0.70, None), &floors).is_err());
    assert!(catalog.resolve(&answers(Operation::Done, 0.90, None), &floors).is_ok());
}

#[test]
fn a_tap_without_a_row_has_no_target() {
    let catalog = Catalog::for_screen(&screen(), &Android);
    assert_eq!(
        catalog.resolve(&answers(Operation::Tap, 0.9, None), &Floors::new(at(0.6))),
        Err(Indecision::NoTarget)
    );
}

#[test]
fn an_operation_the_platform_lacks_is_not_offered() {
    let catalog = Catalog::for_screen(&screen(), &Ios);
    assert_eq!(
        catalog.resolve(&answers(Operation::Back, 0.99, None), &Floors::new(at(0.6))),
        Err(Indecision::NotOffered { what: "back".to_owned() })
    );
}

#[test]
fn typing_is_offered_only_when_the_screen_has_a_field() {
    let with_field = Catalog::for_screen(&screen(), &Android).accepting_text();
    assert!(with_field.operations().contains(&Operation::TypeText));
    let without = Catalog::for_screen(&Snapshot::new(vec![row("Wi-Fi", 0, false)], &mut Stamps::new()).expect("a screen"), &Android).accepting_text();
    assert!(!without.operations().contains(&Operation::TypeText));
}

#[test]
fn a_typing_decision_comes_back_needing_words() {
    let snapshot = screen();
    let catalog = Catalog::for_screen(&snapshot, &Android).accepting_text();
    let mut typing = answers(Operation::TypeText, 0.9, None);
    typing.type_field = Some(Chosen { choice: OptionId::nth(0).expect("an id"), confidence: at(0.9) });
    let (field, _) = snapshot.refs()[2].clone();
    assert_eq!(catalog.resolve(&typing, &Floors::new(at(0.6))), Ok(Decision::NeedsText { into: field }));
}

#[test]
fn leaving_the_app_offers_a_way_back_into_it() {
    let snapshot = screen();
    let catalog = Catalog::for_screen(&snapshot, &Android).returning_to(Some("com.example.wallet"));
    assert!(catalog.operations().contains(&Operation::Return));
    assert_eq!(
        catalog.resolve(&answers(Operation::Return, 0.99, None), &Floors::new(at(0.6))),
        Ok(Decision::Ready(Act::Return("com.example.wallet".to_owned())))
    );
}

#[test]
fn an_escalation_names_rows_by_position() {
    let snapshot = screen();
    let catalog = Catalog::for_screen(&snapshot, &Android);
    let (first, _) = snapshot.refs()[0].clone();
    assert_eq!(catalog.act_from(Operation::Tap, Some(0)), Ok(Decision::Ready(Act::Tap(first))));
    assert!(catalog.act_from(Operation::Tap, Some(9)).is_err());
    assert!(catalog.act_from(Operation::Tap, None).is_err());
}

use jev_pilot::act::Aim;
use jev_pilot::judgment::Question;

#[test]
fn the_operation_question_offers_every_operation_of_the_catalog() {
    let catalog = Catalog::for_screen(&screen(), &Android);
    match catalog.operation_question(Aim::Goal("Turn Wi-Fi on".to_owned())) {
        Question::Choice { instructions, criteria } => {
            assert_eq!(instructions.goal, Aim::Goal("Turn Wi-Fi on".to_owned()));
            assert_eq!(instructions.question, "Which single operation best advances `goal` from the current screen?");
            assert!(instructions.note.is_none());
            assert_eq!(criteria.entries(), catalog.operation_options().entries());
        }
        Question::Noul { .. } => panic!("an operation is chosen, not confirmed"),
    }
}

#[test]
fn a_plan_is_asked_about_its_next_unfinished_step() {
    let catalog = Catalog::for_screen(&screen(), &Android);
    let plan = Aim::Plan(vec!["Open Wi-Fi".to_owned(), "Turn it on".to_owned()]);
    match catalog.tap_target_question(plan).expect("the screen has rows") {
        Question::Choice { instructions, criteria } => {
            assert!(instructions.question.contains("the next unfinished step of `goal`"), "{}", instructions.question);
            assert_eq!(criteria.len(), 3);
        }
        Question::Noul { .. } => panic!("a row is chosen, not confirmed"),
    }
}

#[test]
fn a_screen_without_rows_or_fields_asks_about_neither() {
    let empty = Snapshot::new(Vec::new(), &mut Stamps::new()).expect("an empty screen");
    let catalog = Catalog::for_screen(&empty, &Android);
    assert!(catalog.tap_target_question(Aim::Goal("g".to_owned())).is_none());
    assert!(catalog.type_field_question(Aim::Goal("g".to_owned())).is_none());

    let with_field = Catalog::for_screen(&screen(), &Android);
    assert!(with_field.type_field_question(Aim::Goal("g".to_owned())).is_some(), "the Name row takes text");
}

fn settings() -> Snapshot {
    Snapshot::new(vec![row("Wi-Fi", 0, false), row("Bluetooth", 200, false), row("Display", 400, false)], &mut Stamps::new())
        .expect("a screen")
        .in_app(Some("com.android.settings".to_owned()))
}

#[test]
fn only_operations_the_platform_supports_are_offered() {
    assert!(Android.operations().contains(&Operation::Back));
    assert!(!Ios.operations().contains(&Operation::Back));
    assert!(Android.operations().contains(&Operation::ScrollDown));
    assert!(Android.operations().contains(&Operation::Done));
    assert!(Ios.operations().contains(&Operation::ScrollDown));
    assert!(Ios.operations().contains(&Operation::Done));
}

#[test]
fn a_run_that_has_not_left_is_not_offered_a_way_back() {
    let catalog = Catalog::for_screen(&settings(), &Android).returning_to(Some("com.android.settings"));
    assert!(!catalog.operations().contains(&Operation::Return));
}

#[test]
fn a_screen_under_a_keyboard_offers_closing_it() {
    let covered = Catalog::for_screen(&settings().with_keyboard_open(true), &Android);
    assert!(covered.operations().contains(&Operation::CloseKeyboard));

    let clear = Catalog::for_screen(&settings(), &Android);
    assert!(!clear.operations().contains(&Operation::CloseKeyboard), "there is no keyboard to close");
}

#[test]
fn going_back_is_not_offered_twice_under_two_names() {
    let covered = Catalog::for_screen(&settings().with_keyboard_open(true), &Android);
    assert!(covered.operations().contains(&Operation::CloseKeyboard));
    assert!(!covered.operations().contains(&Operation::Back));

    let clear = Catalog::for_screen(&settings(), &Android);
    assert!(clear.operations().contains(&Operation::Back));
}

#[test]
fn typing_carries_the_point_that_focuses_the_field() {
    let form = Snapshot::new(
        vec![
            row("Send money", 0, false),
            Element {
                label: "Mobile number".to_owned(),
                detail: None,
                editable: true,
                bounds: Bounds { left: 40, top: 300, right: 1040, bottom: 420 },
            },
        ],
        &mut Stamps::new(),
    )
    .expect("a screen");
    let refs = form.refs();
    let (field, element) = refs.iter().find(|(_, e)| e.editable).expect("the form's field");
    let bounds = element.bounds;

    let command = command_for(&Act::TypeText { into: *field, text: "09171234567".to_owned() }, &form)
        .expect("reachable")
        .expect("a command");

    let Command::TypeText { at, text } = command else {
        panic!("expected typing, got {command:?}");
    };
    assert_eq!(text, "09171234567");
    assert!(
        at.x > bounds.left && at.x < bounds.right && at.y > bounds.top && at.y < bounds.bottom,
        "the point must land in the field: {at:?} not inside {bounds:?}"
    );
}

fn labelled(label: &str, top: i32) -> Element {
    Element { label: label.into(), detail: None, editable: false, bounds: Bounds::from_origin_size(0, top, 400, 40) }
}

#[test]
fn a_label_repeated_across_the_screen_is_not_offered_to_choose_from() {
    let mut rows = vec![labelled("Result A", 0), labelled("Result B", 50)];
    rows.extend((0..5).map(|n| labelled("About this result", 100 + 50 * n)));
    let snapshot = Snapshot::new(rows, &mut Stamps::new()).expect("a screen");

    let catalog = Catalog::for_screen(&snapshot, &Android);

    let offered: Vec<String> = catalog.rows().into_iter().map(|(_, text)| text).collect();
    assert_eq!(offered, vec!["Result A", "Result B"]);
}

#[test]
fn a_row_left_out_of_the_choice_can_still_be_named_by_an_escalation() {
    let mut rows: Vec<Element> = (0..5).map(|n| labelled("About this result", 50 * n)).collect();
    rows.push(labelled("Result A", 300));
    let snapshot = Snapshot::new(rows, &mut Stamps::new()).expect("a screen");
    let catalog = Catalog::for_screen(&snapshot, &Android);

    let Ok(Decision::Ready(Act::Tap(first))) = catalog.act_from(Operation::Tap, Some(0)) else {
        panic!("row 0 is on screen and can be tapped");
    };
    let Ok(Decision::Ready(Act::Tap(last))) = catalog.act_from(Operation::Tap, Some(5)) else {
        panic!("row 5 is on screen and can be tapped");
    };
    assert_eq!(snapshot.resolve(first).expect("current").label, "About this result");
    assert_eq!(snapshot.resolve(last).expect("current").label, "Result A");
}

#[test]
fn a_destructive_gesture_is_gated_above_an_ordinary_one() {
    assert_eq!(Operation::SwipeLeft.consequence(), Consequence::Destructive);
    assert_eq!(Operation::Done.consequence(), Consequence::Terminal);
    assert_eq!(Operation::Blocked.consequence(), Consequence::Terminal);
    assert_eq!(Operation::Tap.consequence(), Consequence::Ordinary);
    assert_eq!(Operation::ScrollDown.consequence(), Consequence::Ordinary);
    assert_eq!(Operation::Back.consequence(), Consequence::Ordinary);
}

#[test]
fn a_single_floor_still_applies_to_everything() {
    let catalog = Catalog::for_screen(&screen(), &Android);
    let floors = Floors::new(at(0.6));
    assert!(catalog.resolve(&answers(Operation::Done, 0.70, None), &floors).is_ok());
    assert!(catalog.resolve(&answers(Operation::Tap, 0.50, Some(2)), &floors).is_err());
}

#[test]
fn the_target_matching_the_chosen_operation_is_the_one_used() {
    let snapshot = screen();
    let catalog = Catalog::for_screen(&snapshot, &Android);
    let act = catalog.resolve(&answers(Operation::Tap, 0.99, Some(2)), &Floors::new(at(0.0))).expect("a decision");
    let expected = snapshot.refs()[2].0;
    assert_eq!(act, Decision::Ready(Act::Tap(expected)));
}

#[test]
fn an_operation_without_a_target_ignores_the_speculative_heads() {
    let catalog = Catalog::for_screen(&screen(), &Android);
    for (operation, expected) in [
        (Operation::ScrollDown, Act::Scroll(Direction::Down)),
        (Operation::Done, Act::Finish(Outcome::Achieved)),
        (Operation::Blocked, Act::Finish(Outcome::Blocked)),
    ] {
        let act = catalog.resolve(&answers(operation, 0.99, Some(2)), &Floors::new(at(0.0))).expect("a decision");
        assert_eq!(act, Decision::Ready(expected), "for {operation:?}");
    }
}

#[test]
fn an_uncertain_target_is_refused_even_when_the_operation_is_certain() {
    let catalog = Catalog::for_screen(&screen(), &Android);
    let mut unsure = answers(Operation::Tap, 0.99, Some(2));
    unsure.tap_target = unsure.tap_target.map(|chosen| Chosen { confidence: at(0.20), ..chosen });
    unsure.tap_target_shared = at(0.20);
    let outcome = catalog.resolve(&unsure, &Floors::new(at(0.6)));
    assert!(outcome.is_err(), "got {outcome:?}");
}

#[test]
fn a_non_typing_decision_is_ready_as_it_stands() {
    let catalog = Catalog::for_screen(&screen(), &Android).accepting_text();
    let decision = catalog.resolve(&answers(Operation::Tap, 0.95, Some(1)), &Floors::new(at(0.0))).expect("a decision");
    assert!(matches!(decision, Decision::Ready(Act::Tap(_))), "{decision:?}");
}
