//! What a call to the pilot's server stands for. Nothing here touches a
//! device or starts a process.

use jev_pilot::mcp::{answer_from, ended_from, invocation, status_from, waited_from, which_run, AnswerValue, ToolCall, Waited};

fn call() -> ToolCall {
    ToolCall {
        device: None,
        install: None,
        goal: None,
        app: None,
        accept: Vec::new(),
        text: Vec::new(),
        steps: None,
        floor: None,
    }
}

fn running(names: &[&str]) -> Vec<String> {
    names.iter().map(|n| (*n).to_owned()).collect()
}

#[test]
fn observing_runs_the_command_line_that_observes() {
    assert_eq!(invocation("observe", &call()), Some(vec!["observe".to_owned()]));
    assert_eq!(
        invocation("observe", &ToolCall { device: Some("abc123".to_owned()), ..call() }),
        Some(vec!["--device".to_owned(), "abc123".to_owned(), "observe".to_owned()]),
    );
}

#[test]
fn the_helper_is_only_installed_when_asked() {
    assert_eq!(invocation("helper", &call()), Some(vec!["helper".to_owned()]));
    assert_eq!(
        invocation("helper", &ToolCall { install: Some(true), ..call() }),
        Some(vec!["helper".to_owned(), "install".to_owned()]),
    );
}

#[test]
fn a_run_is_started_with_the_flags_the_command_line_already_has() {
    let args = invocation(
        "start_run",
        &ToolCall {
            goal: Some("send fifty pesos".to_owned()),
            app: Some("com.example.wallet".to_owned()),
            accept: vec!["A receipt is on screen".to_owned()],
            text: vec![("amount".to_owned(), "50".to_owned())],
            steps: Some(40),
            floor: Some(0.35f64.to_string()),
            ..call()
        },
    )
    .expect("a run is startable");

    let joined = args.join(" ");
    assert!(joined.contains("--app com.example.wallet"), "{joined}");
    assert!(joined.contains("--accept A receipt is on screen"), "{joined}");
    assert!(joined.contains("--text amount=50"), "{joined}");
    assert!(joined.contains("--steps 40"), "{joined}");
    assert!(joined.contains("--floor 0.35"), "{joined}");
    assert_eq!(args.last().map(String::as_str), Some("send fifty pesos"));
}

#[test]
fn mcp_a_run_without_a_goal_is_refused() {
    assert_eq!(invocation("start_run", &call()), None);
    assert_eq!(invocation("format_disk", &call()), None);
}

#[test]
fn an_answer_becomes_what_the_desk_already_reads() {
    assert_eq!(
        answer_from(Some("tap"), Some(3), None),
        Some(vec![
            ("operation".to_owned(), AnswerValue::Text("tap".to_owned())),
            ("target".to_owned(), AnswerValue::Number(3)),
        ]),
    );
    assert_eq!(
        answer_from(Some("stop"), None, None),
        Some(vec![("operation".to_owned(), AnswerValue::Text("stop".to_owned()))]),
    );
    assert_eq!(
        answer_from(None, None, Some("0150002954")),
        Some(vec![("text".to_owned(), AnswerValue::Text("0150002954".to_owned()))]),
    );
}

#[test]
fn an_empty_answer_is_refused() {
    assert_eq!(answer_from(None, None, None), None);
}

#[test]
fn a_run_is_named_by_the_device_it_drives() {
    assert_eq!(which_run(None, &running(&["abc123"])), Ok("abc123".to_owned()));
    assert_eq!(which_run(Some("abc123"), &running(&["abc123"])), Ok("abc123".to_owned()));

    let torn = which_run(None, &running(&["abc123", "def456"])).expect_err("ambiguous");
    assert_eq!(torn, "more than one run is in flight; name a device: abc123, def456");

    assert_eq!(
        which_run(None, &running(&[])),
        Err("no run is in flight; start_run begins one".to_owned())
    );
    assert_eq!(
        which_run(Some("abc123"), &running(&["def456"])),
        Err("no run on abc123; these are being driven: def456".to_owned())
    );
    assert_eq!(
        which_run(Some("abc123"), &running(&[])),
        Err("nothing is being driven, so no run on abc123".to_owned())
    );
}

#[test]
fn a_status_says_how_a_finished_run_went() {
    let how = ended_from("step 1  4 rows\n\nending : OutOfSteps { limit: 1 }\n");
    assert_eq!(how.as_deref(), Some("ending : OutOfSteps { limit: 1 }"));
    let said = status_from(Some("{\"step\":1}\n"), None, how.as_deref());
    assert!(said.contains("OutOfSteps"), "got {said}");
    assert!(said.contains("{\"step\":1}"), "the steps are still there: {said}");
    assert_eq!(ended_from("step 1  4 rows\n"), None);
}

#[test]
fn a_status_says_when_a_run_is_waiting_or_working() {
    assert_eq!(
        status_from(None, Some("{\"kind\":\"which_action\"}"), None),
        "no steps yet\n\nit is waiting for an answer:\n{\"kind\":\"which_action\"}"
    );
    assert_eq!(
        status_from(Some("  \n"), None, None),
        "no steps yet\n\nit is working, and not waiting for anything\n"
    );
}

#[test]
fn answering_does_not_come_back_with_the_question_it_answered() {
    assert_eq!(waited_from(Some("q1"), Some("q1"), None, false), None);
    assert_eq!(waited_from(Some("q2"), Some("q1"), None, false), Some(Waited::Asking("q2".to_owned())));
    assert_eq!(
        waited_from(Some("q1"), Some("q1"), Some("ending : Finished(Achieved)"), false),
        Some(Waited::Ended("ending : Finished(Achieved)".to_owned()))
    );
    assert_eq!(waited_from(None, None, None, true), Some(Waited::StillGoing));
}
