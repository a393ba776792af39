use jev_pilot::act::{Direction, Swipe, SystemAct};
use jev_pilot::device::helper::{Action, Bundled, HelperInfo, Provision, Reader, Token, SERVICE_COMPONENT};
use jev_pilot::device::Command;
use jev_pilot::snapshot::Point;

const PING: &str = r#"{"success":true,"service":"PilotAccessibilityService",
    "version_code":1,"version_name":"0.1.0","protocol_version":2,"port":18877,
    "auth_required":true,"token_set":false,"authenticated":false}"#;

#[test]
fn the_ping_answer_describes_the_helper() {
    let info = HelperInfo::parse(PING).expect("a helper ping");

    assert_eq!(info.version_name(), "0.1.0");
    assert_eq!(info.protocol_version(), 2);
    assert!(!info.token_set(), "no token has been pushed yet");
    assert!(info.usable());
}

#[test]
fn a_reply_from_some_other_service_is_refused() {
    let impostor = r#"{"success":true,"service":"SomethingElse",
        "protocol_version":2,"version_name":"9.9.9","token_set":true}"#;

    let info = HelperInfo::parse(impostor).expect("well-formed json");
    assert!(!info.usable(), "only our own service may be read from");
}

#[test]
fn a_helper_speaking_another_protocol_is_refused() {
    let newer = PING.replace("\"protocol_version\":2", "\"protocol_version\":3");

    let info = HelperInfo::parse(&newer).expect("well-formed json");
    assert_eq!(info.protocol_version(), 3);
    assert!(!info.usable());
}

#[test]
fn a_reply_that_is_not_the_ping_shape_is_refused() {
    assert!(HelperInfo::parse("").is_none());
    assert!(HelperInfo::parse("<html>404</html>").is_none());
    assert!(HelperInfo::parse("{}").is_none());
}

#[test]
fn a_token_does_not_print_itself() {
    let token = Token::new("c0ffee".to_owned());

    assert!(!token.redacted().contains("c0ffee"));
    assert_eq!(token.expose(), "c0ffee");
}

#[test]
fn the_bundled_manifest_is_read_field_by_field() {
    let manifest = br#"{
        "package": "dev.jevpilot.helper",
        "version_code": 3,
        "version_name": "0.3.1",
        "sha256": "ab12"
    }"#;

    let bundled = Bundled::read(manifest).expect("a complete manifest");
    assert_eq!(bundled.package, "dev.jevpilot.helper");
    assert_eq!(bundled.version_code, 3);
    assert_eq!(bundled.version_name, "0.3.1");
    assert_eq!(bundled.sha256, "ab12");
}

#[test]
fn a_manifest_missing_a_field_is_refused() {
    assert!(Bundled::read(br#"{"version_code": 3, "version_name": "0.3.1"}"#).is_none());
    assert!(Bundled::read(br#"{"version_name": "0.3.1", "sha256": "ab"}"#).is_none());
    assert!(Bundled::read(b"").is_none());
}

#[test]
fn what_the_device_needs_is_decided_from_what_it_has() {
    let enabled =
        "com.other/.Service:dev.jevpilot.helper/dev.jevpilot.helper.PilotAccessibilityService";
    let bundled = 5;

    assert_eq!(Provision::assess(None, "", bundled), Provision::NotInstalled);
    assert_eq!(
        Provision::assess(Some(bundled - 1), enabled, bundled),
        Provision::Outdated { installed: bundled - 1 }
    );
    assert_eq!(
        Provision::assess(Some(bundled), "com.other/.Service", bundled),
        Provision::NotEnabled
    );
    assert_eq!(Provision::assess(Some(bundled), enabled, bundled), Provision::Ready);
    assert!(Provision::Ready.is_ready());
    assert!(!Provision::NotEnabled.is_ready());
}

#[test]
fn enabling_the_helper_keeps_every_other_accessibility_service() {
    let existing = "com.cyb3rko.flashdim/.service.VolumeButtonService";

    let merged = Provision::enabled_services_with_helper(existing);

    assert!(merged.starts_with(existing), "{merged}");
    assert!(merged.contains(SERVICE_COMPONENT), "{merged}");
    assert_eq!(merged.matches(':').count(), 1, "one separator, one addition");
}

#[test]
fn enabling_an_already_enabled_helper_changes_nothing() {
    let already = Provision::enabled_services_with_helper("com.other/.S");

    assert_eq!(Provision::enabled_services_with_helper(&already), already);
}

#[test]
fn enabling_on_a_device_with_no_services_yields_just_the_helper() {
    assert_eq!(Provision::enabled_services_with_helper(""), SERVICE_COMPONENT);
    assert_eq!(Provision::enabled_services_with_helper("null"), SERVICE_COMPONENT);
}

#[test]
fn each_provision_has_its_own_advice() {
    assert_eq!(Provision::Ready.advice(), "the helper is installed and enabled");
    assert!(Provision::NotInstalled.advice().starts_with("no helper on this device"));
    assert!(Provision::Outdated { installed: 1 }.advice().contains("older helper"));
    assert!(Provision::NotEnabled.advice().contains("switched off"));
}

#[test]
fn a_device_without_a_helper_still_reads_screens() {
    let reader = Reader::cli("no helper installed".to_owned());

    assert!(!reader.uses_helper());
    assert_eq!(reader.why().as_deref(), Some("no helper installed"));
}

#[test]
fn losing_the_helper_mid_run_falls_back_rather_than_failing() {
    let mut reader = Reader::helper();
    assert!(reader.uses_helper());

    let changed = reader.degrade("helper stopped answering".to_owned());

    assert!(changed);
    assert!(!reader.uses_helper());
    assert_eq!(reader.why().as_deref(), Some("helper stopped answering"));
}

#[test]
fn falling_back_never_reverses() {
    let mut reader = Reader::helper();
    reader.degrade("first cause".to_owned());
    let changed = reader.degrade("a later symptom".to_owned());

    assert!(!changed, "already fallen back");
    assert_eq!(reader.why().as_deref(), Some("first cause"));
}

#[test]
fn a_screen_only_the_cli_can_see_ends_the_helpers_use() {
    assert!(Reader::cli_saw_more(0, 111));
    assert!(!Reader::cli_saw_more(0, 0));
    assert!(!Reader::cli_saw_more(23, 111));
}

#[test]
fn giving_up_on_the_helper_says_what_the_cli_saw() {
    let mut reader = Reader::helper();
    reader.degrade(Reader::blind_to_this_screen(111, "the uiautomator CLI"));

    assert!(!reader.uses_helper());
    assert_eq!(
        reader.why().as_deref(),
        Some("the helper read no rows from a screen the uiautomator CLI read 111 from, so that window is not served to an accessibility service")
    );
}

#[test]
fn borrowing_the_cli_for_one_screen_keeps_the_helper() {
    let mut reader = Reader::helper();

    reader.borrow_cli(Reader::blind_to_this_screen(106, "the privileged reader"));

    assert!(reader.uses_helper(), "still the helper for the next screen");
    assert_eq!(reader.borrowed(), 1);
    let why = reader.why().expect("a reason");
    assert!(why.contains("106"), "{why}");
    assert!(why.contains("privileged reader"), "it must say which one saw them: {why}");
}

#[test]
fn the_read_after_a_borrow_forgives_one_helper_failure() {
    let mut reader = Reader::helper();
    reader.borrow_cli("blind".to_owned());

    assert!(reader.forgives_a_failure());
    assert!(!reader.forgives_a_failure(), "but only once");
}

#[test]
fn a_failure_out_of_nowhere_is_not_forgiven() {
    let mut reader = Reader::helper();

    assert!(!reader.forgives_a_failure());
}

#[test]
fn many_borrows_still_do_not_end_the_helpers_use() {
    let mut reader = Reader::helper();
    for _ in 0..10 {
        reader.borrow_cli("blind".to_owned());
        let _ = reader.forgives_a_failure();
    }

    assert!(reader.uses_helper());
    assert_eq!(reader.borrowed(), 10);
}

#[test]
fn the_helper_is_given_time_after_a_borrow_and_not_otherwise() {
    let mut reader = Reader::helper();
    assert!(!reader.rebinding());

    reader.borrow_cli("blind".to_owned());
    assert!(reader.rebinding());

    reader.settled();
    assert!(!reader.rebinding());
}

fn body_of(command: &Command) -> String {
    Action::for_command(command, (1080, 2400))
        .expect("the helper serves this command")
        .body()
        .to_owned()
}

#[test]
fn every_gesture_has_a_helper_form() {
    let at = Point { x: 540, y: 1200 };
    for command in [
        Command::Tap(at),
        Command::DoubleTap(at),
        Command::LongPress(at),
        Command::TypeText { at, text: "hello".into() },
        Command::Scroll(Direction::Down),
        Command::SwipeFrom { from: at, direction: Swipe::Left },
        Command::System(SystemAct::Back),
    ] {
        assert!(
            Action::for_command(&command, (1080, 2400)).is_some(),
            "no helper form for {command:?}"
        );
    }
}

#[test]
fn the_helper_serves_no_command_the_shell_refuses() {
    let at = Point { x: 540, y: 1200 };

    assert!(Action::for_command(&Command::Settle, (1080, 2400)).is_none());
    assert!(Action::for_command(&Command::Peek(at), (1080, 2400)).is_none());
    assert!(Action::for_command(&Command::System(SystemAct::Submit), (1080, 2400)).is_none());
}

#[test]
fn a_tap_carries_the_point_it_was_given() {
    let body = body_of(&Command::Tap(Point { x: 540, y: 1200 }));

    assert!(body.contains("\"cmd\":\"tap\""), "{body}");
    assert!(body.contains("\"x\":540"), "{body}");
    assert!(body.contains("\"y\":1200"), "{body}");
}

#[test]
fn text_the_shell_could_not_type_goes_through_unchanged() {
    let body = body_of(&Command::TypeText { at: Point { x: 1, y: 1 }, text: "こんにちは 🎉".into() });

    assert!(body.contains("\"cmd\":\"type\""), "{body}");
    assert!(body.contains("こんにちは 🎉"), "{body}");
}

#[test]
fn text_with_json_punctuation_is_escaped() {
    let body = body_of(&Command::TypeText { at: Point { x: 1, y: 1 }, text: r#"say "hi" \ bye"#.into() });

    assert!(body.contains(r#"\"hi\""#), "{body}");
    assert!(serde_json::from_str::<serde_json::Value>(&body).is_ok(), "{body}");
}

#[test]
fn scrolling_stays_off_the_screen_edges() {
    let (width, height) = (1080, 2400);
    let body = body_of(&Command::Scroll(Direction::Down));
    let json: serde_json::Value = serde_json::from_str(&body).expect("json");

    assert_eq!(json["cmd"], "swipe");
    for key in ["y1", "y2"] {
        let edge = json[key].as_i64().expect(key);
        assert!(edge > 0 && edge < i64::from(height), "{key} = {edge}");
    }
    assert!(json["y1"].as_i64() > json["y2"].as_i64(), "{body}");
    assert!(json["x1"].as_i64().expect("x1") < i64::from(width));
}

#[test]
fn system_gestures_use_the_helpers_global_actions() {
    for (act, expected) in [
        (SystemAct::Back, "back"),
        (SystemAct::Home, "home"),
        (SystemAct::AppSwitcher, "recents"),
    ] {
        let body = body_of(&Command::System(act));
        assert!(body.contains("\"cmd\":\"global\""), "{body}");
        assert!(body.contains(expected), "{act:?} should map to {expected}: {body}");
    }
}

#[test]
fn a_token_spells_its_entropy_in_lower_case_hex() {
    let token = Token::from_entropy(&[0x00, 0xab, 0xff, 0x10]);
    assert_eq!(token.expose(), "00abff10");

    let sixteen = Token::from_entropy(&[0x5a; 16]);
    assert_eq!(sixteen.expose().len(), 32, "128 bits, hex encoded");
    assert!(sixteen.expose().chars().all(|c| c.is_ascii_hexdigit()));
}

#[test]
fn enabling_the_helper_adds_one_separator_at_most() {
    let colons = |s: &str| s.matches(':').count();
    for current in ["", "null", "  ", "com.other/.S", "com.a/.A:com.b/.B", SERVICE_COMPONENT] {
        let enabled = Provision::enabled_services_with_helper(current);
        assert!(colons(&enabled) <= colons(current.trim()) + 1, "{current:?} became {enabled:?}");
        assert!(enabled.split(':').any(|s| s == SERVICE_COMPONENT), "{enabled}");
    }
    assert_eq!(
        Provision::enabled_services_with_helper("com.other/.S"),
        format!("com.other/.S:{SERVICE_COMPONENT}")
    );
}

#[test]
fn a_device_without_a_ready_helper_is_read_through_the_cli_and_says_why() {
    let none = Reader::without_helper(None).expect("the CLI");
    assert!(!none.uses_helper());
    assert_eq!(none.why(), Some("no helper manifest next to this program".to_owned()));
    let off = Reader::without_helper(Some(Provision::NotEnabled)).expect("the CLI");
    assert_eq!(off.why(), Some(Provision::NotEnabled.advice().to_owned()));
    assert!(Reader::without_helper(Some(Provision::Ready)).is_none(), "a ready helper is tried");
}
