use jev_pilot::act::{Act, Catalog, Direction, Indecision, Outcome, SystemAct};
use jev_pilot::pilot::{
    describe, drawn, recount, watch, Course, Ending, Judged, StateValue, Standing, Watch, CHANGE_BUDGET_MS,
    INEFFECTIVE_LIMIT, MEMORY, STEP_LIMIT,
};
use jev_pilot::platform::Android;
use jev_pilot::snapshot::{Bounds, Element, Snapshot, Stamps};

fn row(label: &str, top: i32) -> Element {
    Element {
        label: label.to_owned(),
        detail: None,
        editable: false,
        bounds: Bounds { left: 0, top, right: 1080, bottom: top + 100 },
    }
}

fn screen() -> Snapshot {
    Snapshot::new(vec![row("Wi-Fi", 0), row("Bluetooth", 200)], &mut Stamps::new()).expect("a screen")
}

#[test]
fn a_run_takes_no_more_steps_than_its_limit() {
    let mut course = Course::new(None, 2);
    assert_eq!(course.step(), 0);
    assert!(course.begin_step());
    assert!(course.begin_step());
    assert_eq!(course.step(), 2);
    assert!(!course.begin_step(), "the third step is not taken");
    assert_eq!(course.step(), 2);
    assert_eq!(course.out_of_steps(), Ending::OutOfSteps { limit: 2 });
}

#[test]
fn the_default_limit_is_generous_but_finite() {
    assert_eq!(STEP_LIMIT, 25);
}

#[test]
fn three_still_screens_in_a_row_end_the_run() {
    let mut course = Course::new(None, STEP_LIMIT);
    course.acting("Tapped Wi-Fi".to_owned());

    assert_eq!(course.settled(false), None);
    assert_eq!(course.settled(false), None);
    assert_eq!(
        course.settled(false),
        Some(Ending::Uncertain { because: Indecision::NoProgress { repeated: INEFFECTIVE_LIMIT } })
    );
}

#[test]
fn a_still_screen_is_reported_to_the_next_step() {
    let mut course = Course::new(None, STEP_LIMIT);
    course.acting("Tapped Wi-Fi".to_owned());
    course.settled(false);

    assert_eq!(course.previous(), Some("Tapped Wi-Fi — the screen did not change"));
}

#[test]
fn a_moving_screen_resets_patience() {
    let mut course = Course::new(None, STEP_LIMIT);
    course.settled(false);
    course.settled(false);
    assert_eq!(course.change_budget(), CHANGE_BUDGET_MS * 3, "patience grows with each still screen");

    assert_eq!(course.settled(true), None);
    assert_eq!(course.change_budget(), CHANGE_BUDGET_MS);
    assert_eq!(course.settled(false), None, "the count started again");
}

#[test]
fn repeating_an_action_is_counted_and_reported() {
    let mut course = Course::new(None, STEP_LIMIT);
    course.acting("Tapped Next".to_owned());
    assert_eq!(course.arrive(1, None, None).repeating, None, "once is not repetition");
    course.acting("Tapped Next".to_owned());
    assert_eq!(course.arrive(2, None, None).repeating, Some(2));
    course.acting("Tapped Back".to_owned());
    assert_eq!(course.arrive(3, None, None).repeating, None, "another action starts the count again");
}

#[test]
fn a_screen_seen_before_says_how_long_ago() {
    let mut course = Course::new(None, STEP_LIMIT);
    assert_eq!(course.arrive(10, None, None).seen_before, None);
    assert_eq!(course.arrive(20, None, None).seen_before, None);
    assert_eq!(course.arrive(30, None, None).seen_before, None);
    assert_eq!(course.arrive(10, None, None).seen_before, Some(3));
    assert_eq!(course.arrive(10, None, None).seen_before, Some(1));
}

#[test]
fn memory_forgets_the_oldest() {
    let mut course = Course::new(None, STEP_LIMIT);
    for n in 0..(MEMORY as u64 + 1) {
        course.arrive(n, None, None);
    }
    assert_eq!(course.arrive(0, None, None).seen_before, None, "screen 0 has been forgotten");

    for n in 0..(MEMORY + 3) {
        course.acting(format!("action {n}"));
    }
    let lately = course.lately();
    assert_eq!(lately.len(), MEMORY);
    assert_eq!(lately.last().map(String::as_str), Some("action 14"));
}

#[test]
fn the_first_app_that_is_not_the_launcher_is_the_origin() {
    let mut course = Course::new(None, STEP_LIMIT);
    course.arrive(1, Some("com.launcher"), Some("com.launcher"));
    assert_eq!(course.origin(), None, "the home screen is not what the goal is about");
    course.arrive(2, Some("com.bank"), Some("com.launcher"));
    assert_eq!(course.origin(), Some("com.bank"));
    course.arrive(3, Some("com.browser"), Some("com.launcher"));
    assert_eq!(course.origin(), Some("com.bank"), "the origin does not move");
}

#[test]
fn a_named_app_is_the_origin_from_the_start() {
    let mut course = Course::new(Some("com.bank".to_owned()), STEP_LIMIT);
    course.arrive(1, Some("com.browser"), None);
    assert_eq!(course.origin(), Some("com.bank"));
}

#[test]
fn an_error_screen_ends_the_run() {
    let mut course = Course::new(None, STEP_LIMIT);
    assert_eq!(course.judged(true, false, true, None, false), Judged::End(Ending::ErrorScreen));
}

#[test]
fn a_goal_met_with_a_criterion_unmet_goes_round_again() {
    let mut course = Course::new(None, STEP_LIMIT);
    assert_eq!(course.judged(false, false, true, Some("the total is shown"), true), Judged::Again);
    assert_eq!(
        course.previous(),
        Some("Judged the goal met, but that was rejected: \"the total is shown\" was not true")
    );
}

#[test]
fn a_goal_met_on_an_empty_screen_is_not_taken() {
    let mut course = Course::new(None, STEP_LIMIT);
    assert_eq!(course.judged(false, true, true, None, false), Judged::Decide);
}

#[test]
fn a_goal_met_with_everything_confirmed_ends_the_run() {
    let mut course = Course::new(None, STEP_LIMIT);
    assert_eq!(
        course.judged(false, false, true, None, false),
        Judged::End(Ending::Finished(Outcome::Achieved))
    );
    assert_eq!(
        course.judged(false, false, false, None, true),
        Judged::End(Ending::Finished(Outcome::Achieved)),
        "every criterion confirmed is the caller's own definition of done"
    );
    assert_eq!(course.judged(false, false, false, None, false), Judged::Decide);
}

#[test]
fn a_verdict_of_success_is_checked_and_any_other_stands() {
    let mut course = Course::new(None, STEP_LIMIT);
    assert_eq!(course.verdict(Outcome::Blocked, true, None), Some(Ending::Finished(Outcome::Blocked)));
    assert_eq!(course.verdict(Outcome::Achieved, true, None), None);
    assert_eq!(
        course.previous(),
        Some("Declared the goal done, but the screen was empty, so there was nothing to have judged it against")
    );
    assert_eq!(course.verdict(Outcome::Achieved, false, Some("paid")), None);
    assert_eq!(course.previous(), Some("Declared the goal done, but that was rejected: \"paid\" was not true"));
    assert_eq!(course.verdict(Outcome::Achieved, false, None), Some(Ending::Finished(Outcome::Achieved)));
}

#[test]
fn actions_are_recounted_by_what_they_touched() {
    let snapshot = screen();
    let refs = snapshot.refs();
    let wifi = refs[0].0;

    assert_eq!(recount(&Act::Tap(wifi), &snapshot), "Tapped Wi-Fi");
    assert_eq!(recount(&Act::LongPress(wifi), &snapshot), "Long-pressed Wi-Fi");
    assert_eq!(
        recount(&Act::TypeText { into: refs[1].0, text: "hi".to_owned() }, &snapshot),
        "Typed \"hi\" into Bluetooth"
    );
    assert_eq!(recount(&Act::Scroll(Direction::Down), &snapshot), "Scrolled Down");
    assert_eq!(recount(&Act::System(SystemAct::Back), &snapshot), "Pressed Back");
    assert_eq!(recount(&Act::Finish(Outcome::Blocked), &snapshot), "Declared Blocked");
    assert_eq!(recount(&Act::Wait, &snapshot), "Waited for the screen to settle");
}

#[test]
fn a_row_from_another_screen_is_recounted_as_gone() {
    let mut stamps = Stamps::new();
    let old = Snapshot::new(vec![row("Wi-Fi", 0), row("Bluetooth", 200)], &mut stamps).expect("a screen");
    let wifi = old.refs()[0].0;
    let new = Snapshot::new(vec![row("Wi-Fi", 0), row("Bluetooth", 200)], &mut stamps).expect("a screen");

    assert_eq!(recount(&Act::Tap(wifi), &new), "Tapped a row that is gone");
}

#[test]
fn a_quiet_screen_ends_the_wait() {
    assert_eq!(watch(1, 1, Some(500), 2), Watch::Over(true));
    assert_eq!(watch(1, 1, Some(500), 1), Watch::Over(false));
    assert_eq!(watch(1, 2, Some(10), 3), Watch::Looking(3), "not quiet long enough");
}

#[test]
fn two_agreeing_readings_say_the_screen_moved_and_stopped() {
    assert_eq!(watch(1, 2, None, 2), Watch::Over(true));
    assert_eq!(watch(1, 1, None, 2), Watch::Looking(2), "begun to change is not finished");
    assert_eq!(watch(1, 1, None, 1), Watch::Looking(1), "changed back is not changed");
}

#[test]
fn a_launched_app_is_drawn_when_in_front_with_something_to_act_on() {
    assert!(drawn("com.bank", Some("com.bank"), true));
    assert!(!drawn("com.bank", Some("com.launcher"), true));
    assert!(!drawn("com.bank", Some("com.bank"), false));
    assert!(drawn("com.bank", None, true), "a reader that cannot say which app is front");
}

#[test]
fn the_state_carries_platform_previous_keyboard_and_rows_first() {
    let catalog = Catalog::for_screen(&screen(), &Android);
    let standing = Standing {
        previous: None,
        app: Some("com.android.settings".to_owned()),
        origin: Some("com.android.settings".to_owned()),
        keyboard_open: false,
        says: Vec::new(),
        unavailable: Vec::new(),
        seen_before: Some(2),
        repeating: None,
        lately: Vec::new(),
    };

    let state = describe(&catalog, "android", &standing);
    let keys: Vec<&str> = state.iter().map(|(k, _)| k.as_str()).collect();
    assert_eq!(keys, vec!["platform", "previous_action", "keyboard_open", "rows", "app", "seen_before"]);
    assert_eq!(state[0].1, StateValue::Text("android".to_owned()));
    assert_eq!(state[1].1, StateValue::Null);
    assert_eq!(
        state[3].1,
        StateValue::Keyed(vec![("A1".to_owned(), "Wi-Fi".to_owned()), ("A2".to_owned(), "Bluetooth".to_owned())])
    );
    assert_eq!(state[5].1, StateValue::Count(2));
}
