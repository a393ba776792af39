//! Reading a command line. Nothing here touches a device.

use jev_pilot::act::{Consequence, Operation};
use jev_pilot::cli::{floors_from, parse, CliError, Invocation, DEFAULT_FLOOR, DEFAULT_STEPS};
use jev_pilot::judgment::Confidence;

/// What each word reads as when it follows `--floor`.
fn floors_of(words: &[String]) -> Vec<Option<Confidence>> {
    words
        .iter()
        .map(|w| w.parse::<f64>().ok().and_then(|x| Confidence::from_bits(x.to_bits())))
        .collect()
}

fn parse_words(words: &[&str]) -> Result<Invocation, CliError> {
    let owned: Vec<String> = words.iter().map(|w| (*w).to_owned()).collect();
    let floors = floors_of(&owned);
    parse(owned, floors)
}

fn parsed(words: &[&str]) -> Invocation {
    parse_words(words).expect("a valid command line")
}

fn level(c: Confidence) -> f64 {
    f64::from_bits(c.bits())
}

#[test]
fn a_goal_is_the_whole_command_line() {
    let Invocation::Run { goal, device, accept, steps, .. } = parsed(&["Open the Wi-Fi settings"]) else {
        panic!("expected a run");
    };

    assert_eq!(goal, "Open the Wi-Fi settings");
    assert!(device.is_none(), "one attached device needs no naming");
    assert!(accept.is_empty());
    assert_eq!(steps, DEFAULT_STEPS);
}

#[test]
fn cli_a_run_without_a_goal_is_refused() {
    assert_eq!(parse_words(&[]), Err(CliError::NoGoal));
    assert_eq!(parse_words(&["--device", "abc123"]), Err(CliError::NoGoal));
}

#[test]
fn a_device_and_acceptance_criteria_can_be_named() {
    let Invocation::Run { goal, device, accept, steps, floors, .. } = parsed(&[
        "--device",
        "abc123",
        "--accept",
        "Wi-Fi is on",
        "--accept",
        "The network list is showing",
        "--steps",
        "20",
        "--floor",
        "0.75",
        "Turn Wi-Fi on",
    ]) else {
        panic!("expected a run");
    };

    assert_eq!(goal, "Turn Wi-Fi on");
    assert_eq!(device.as_deref(), Some("abc123"));
    assert_eq!(accept, ["Wi-Fi is on", "The network list is showing"]);
    assert_eq!(steps, 20);
    assert!((level(floors.for_operation(Operation::Tap)) - 0.75).abs() < f64::EPSILON);
}

#[test]
fn nonsense_limits_are_refused_rather_than_clamped() {
    assert_eq!(
        parse_words(&["--floor", "1.5", "go"]),
        Err(CliError::BadValue { flag: "--floor", got: "1.5".to_owned() })
    );
    assert!(parse_words(&["--floor", "high", "go"]).is_err());
    assert_eq!(
        parse_words(&["--steps", "0", "go"]),
        Err(CliError::BadValue { flag: "--steps", got: "0".to_owned() })
    );
}

#[test]
fn an_unknown_flag_is_refused() {
    let error = parse_words(&["--devce", "abc", "go"]).unwrap_err();

    assert_eq!(error, CliError::UnknownFlag("--devce".to_owned()));
    assert!(error.message().contains("--devce"), "{}", error.message());
}

#[test]
fn the_helper_is_managed_by_its_own_subcommand() {
    assert!(matches!(parsed(&["helper"]), Invocation::Helper { install: false, .. }));
    assert!(matches!(parsed(&["helper", "install"]), Invocation::Helper { install: true, .. }));
    assert!(matches!(
        parsed(&["helper", "install", "--device", "abc"]),
        Invocation::Helper { install: true, device: Some(_) }
    ));
}

#[test]
fn devices_and_help_are_their_own_subcommands() {
    assert!(matches!(parsed(&["devices"]), Invocation::Devices));
    assert!(matches!(parsed(&["--help"]), Invocation::Help));
    assert!(matches!(parsed(&["-h"]), Invocation::Help));
    assert!(matches!(parsed(&["help"]), Invocation::Help));
}

#[test]
fn a_goal_can_follow_the_end_of_options() {
    let Invocation::Run { goal, .. } = parsed(&["--", "--not-a-flag"]) else {
        panic!("expected a run");
    };
    assert_eq!(goal, "--not-a-flag");
}

#[test]
fn the_catalog_can_be_looked_at_without_running_anything() {
    assert!(matches!(parsed(&["observe"]), Invocation::Observe { device: None }));
    assert!(matches!(
        parsed(&["observe", "--device", "abc123"]),
        Invocation::Observe { device: Some(_) }
    ));
}

#[test]
fn looking_at_a_screen_takes_no_goal() {
    assert!(parse_words(&["observe", "Turn Wi-Fi on"]).is_err());
}

#[test]
fn a_lowered_floor_does_not_let_a_run_quit_on_a_guess() {
    let Invocation::Run { floors, .. } = parsed(&["--floor", "0.2", "transfer some money"]) else {
        panic!("a goal is a run");
    };

    assert!((level(floors.for_operation(Operation::Tap)) - 0.2).abs() < f64::EPSILON);
    assert!(level(floors.for_operation(Operation::Blocked)) >= 0.6, "ending the run keeps its own floor");
    assert!(level(floors.for_operation(Operation::Home)) >= 0.6, "leaving the app keeps its own floor");
}

#[test]
fn a_raised_floor_raises_the_costly_actions_too() {
    let Invocation::Run { floors, .. } = parsed(&["--floor", "0.9", "transfer some money"]) else {
        panic!("a goal is a run");
    };

    assert!((level(floors.for_operation(Operation::Blocked)) - 0.9).abs() < f64::EPSILON);
    assert!((level(floors.for_operation(Operation::Tap)) - 0.9).abs() < f64::EPSILON);
}

#[test]
fn more_than_one_goal_is_refused() {
    assert_eq!(parse_words(&["one", "two"]), Err(CliError::TooManyGoals));
}

#[test]
fn a_flag_without_its_value_is_refused() {
    assert_eq!(parse_words(&["go", "--device"]), Err(CliError::MissingValue("--device")));
    assert_eq!(parse_words(&["go", "--floor"]), Err(CliError::MissingValue("--floor")));
    assert_eq!(
        parse_words(&["--floor", "nope", "go"]).unwrap_err().message(),
        "--floor cannot be \"nope\""
    );
}

#[test]
fn the_default_floor_is_the_one_documented() {
    assert_eq!(f64::from_bits(DEFAULT_FLOOR), 0.6);
    let f = floors_from(Confidence::from_bits(0.3f64.to_bits()).expect("a probability"));
    assert!((level(f.for_operation(Operation::Tap)) - 0.3).abs() < f64::EPSILON);
    assert_eq!(level(f.for_operation(Operation::Done)), 0.6);
    let _ = Consequence::Terminal;
}

#[test]
fn the_app_and_desk_are_carried_through() {
    let Invocation::Run { app, desk, .. } = parsed(&["--app", "com.example", "--desk", "/tmp/d", "go"]) else {
        panic!("a run");
    };
    assert_eq!(app.as_deref(), Some("com.example"));
    assert_eq!(desk.as_deref(), Some("/tmp/d"));
}
