//! Building `adb` invocations and reading what `adb` says. Nothing here
//! touches a device.

use jev_pilot::act::{Direction, Swipe, SystemAct};
use jev_pilot::device::adb::{
    dump_retry_wait, empty_retry_wait, screen_from_dump, Adb, AdbError, DumpFailure, Navigation,
    shell_quote, ShellStep, TextError,
};
use jev_pilot::device::helper::Token;
use jev_pilot::device::Command;
use jev_pilot::snapshot::{Point, Stamps};

fn adb() -> Adb {
    Adb::new("SERIAL123".to_owned())
}

#[test]
fn text_with_shell_metacharacters_is_quoted_for_the_remote_shell() {
    let args = adb().type_text_args("Tom & Jerry's").expect("ascii");

    let typed = args.last().expect("the text argument");
    assert!(
        !typed.contains("& Jerry") || typed.starts_with('\''),
        "the ampersand must not reach the device shell unquoted: {typed}"
    );
    assert_eq!(typed, r"'Tom & Jerry'\''s'");
}

#[test]
fn non_ascii_text_is_refused_rather_than_silently_dropped() {
    assert!(matches!(
        adb().type_text_args("こんにちは"),
        Err(TextError::NotAscii { .. })
    ));
    assert!(adb().type_text_args("plain ascii").is_ok());
}

#[test]
fn the_first_character_that_cannot_be_typed_is_named() {
    assert_eq!(
        adb().type_text_args("caf\u{e9} au lait"),
        Err(TextError::NotAscii { offender: '\u{e9}' })
    );
}

#[test]
fn every_invocation_targets_the_chosen_serial() {
    let point = Point { x: 504, y: 670 };
    for args in [
        adb().dump_args(),
        adb().tap_args(point),
        adb().system_args(SystemAct::Back),
    ] {
        assert_eq!(&args[..2], &["-s", "SERIAL123"], "got {args:?}");
    }
}

#[test]
fn the_hierarchy_is_streamed_rather_than_written_and_pulled() {
    let args = adb().dump_args();

    assert!(args.contains(&"exec-out".to_owned()), "got {args:?}");
    assert!(!args.iter().any(|a| a.contains("/sdcard")), "got {args:?}");
}

#[test]
fn the_display_size_is_read_from_the_wm_size_line() {
    assert_eq!(
        Adb::parse_size("Physical size: 1080x2400\n"),
        Some((1080, 2400))
    );
    assert_eq!(
        Adb::parse_size("Physical size: 1080x2400\nOverride size: 720x1600\n"),
        Some((720, 1600)),
        "an override is what is actually displayed"
    );
    assert_eq!(Adb::parse_size("nonsense"), None);
}

#[test]
fn the_app_switcher_swipe_starts_at_the_bottom_edge_and_dwells() {
    let args = adb().app_switcher_swipe_args(1080, 2400);
    let tail: Vec<&str> = args.iter().map(String::as_str).collect();

    assert_eq!(&tail[2..5], &["shell", "input", "swipe"]);
    assert_eq!(tail[5], "540", "horizontally centred");
    assert_eq!(tail[6], "2399", "from the very bottom edge");
    let dwell: u32 = tail[9].parse().expect("a duration in ms");
    assert!(dwell >= 300, "a flick opens home, not the switcher: {dwell}ms");
}

#[test]
fn the_status_line_uiautomator_appends_is_trimmed() {
    let raw = "<hierarchy rotation=\"0\"><node text=\"a\"/></hierarchy>\
               UI hierchary dumped to: /dev/tty\n";

    assert_eq!(
        Adb::extract_hierarchy(raw).as_deref(),
        Some("<hierarchy rotation=\"0\"><node text=\"a\"/></hierarchy>")
    );
    assert_eq!(Adb::extract_hierarchy("ERROR: something went wrong"), None);
}

#[test]
fn scrolling_swipes_within_the_screen_rather_than_from_its_edge() {
    let (width, height) = (1080, 2400);
    let down = adb().scroll_args(Direction::Down, width, height);
    let up = adb().scroll_args(Direction::Up, width, height);

    let nums = |args: &[String]| -> Vec<i32> {
        args[5..9]
            .iter()
            .map(|n| n.parse().expect("a coordinate"))
            .collect()
    };
    let (d, u) = (nums(&down), nums(&up));

    assert!(d[1] > d[3], "scrolling down drags the content upward: {d:?}");
    assert!(u[1] < u[3], "scrolling up drags the content downward: {u:?}");
    for edge in [d[1], d[3], u[1], u[3]] {
        assert!(edge > 0 && edge < height, "must stay off the edges: {edge}");
    }
    assert_eq!(d, vec![540, 1800, 540, 600]);
}

#[test]
fn a_long_press_holds_still_for_longer_than_the_system_threshold() {
    let args = adb().long_press_args(Point { x: 500, y: 700 });
    let parts: Vec<&str> = args.iter().map(String::as_str).collect();

    assert_eq!(&parts[2..5], &["shell", "input", "swipe"]);
    assert_eq!(&parts[5..9], &["500", "700", "500", "700"], "must not move");
    let held: u32 = parts[9].parse().expect("a duration");
    assert!(held > 500, "must outlast the long-press threshold: {held}ms");
}

#[test]
fn a_double_tap_sends_both_taps_in_one_invocation() {
    let args = adb().double_tap_args(Point { x: 120, y: 240 });

    assert_eq!(args.len(), 4, "one shell argument, not two calls: {args:?}");
    assert_eq!(args[2], "shell");
    assert_eq!(args[3].matches("input tap 120 240").count(), 2, "{}", args[3]);
    assert_eq!(args[3], "input tap 120 240; input tap 120 240");
}

#[test]
fn swiping_a_row_travels_sideways_from_it() {
    let at = Point { x: 540, y: 900 };
    let left = adb().swipe_from_args(at, Swipe::Left, 1080);
    let right = adb().swipe_from_args(at, Swipe::Right, 1080);

    let x_of = |args: &[String], i: usize| -> i32 { args[i].parse().expect("coordinate") };
    assert!(x_of(&left, 7) < x_of(&left, 5), "left goes leftward");
    assert!(x_of(&right, 7) > x_of(&right, 5), "right goes rightward");
    assert_eq!(x_of(&left, 6), 900, "stays on the row");
    assert_eq!(x_of(&left, 7), 180);
    assert_eq!(x_of(&right, 7), 900);
}

#[test]
fn a_swipe_stops_short_of_the_screen_edge() {
    let near_left = adb().swipe_from_args(Point { x: 100, y: 50 }, Swipe::Left, 1080);
    let near_right = adb().swipe_from_args(Point { x: 1000, y: 50 }, Swipe::Right, 1080);
    assert_eq!(near_left[7], "1");
    assert_eq!(near_right[7], "1079");
}

#[test]
fn a_hierarchy_with_its_tags_reversed_is_rejected_not_panicked_on() {
    assert_eq!(
        Adb::extract_hierarchy("</hierarchy>\n<hierarchy rotation=\"0\"><node/>"),
        None
    );
    assert_eq!(Adb::extract_hierarchy("</hierarchy>"), None);
    assert_eq!(Adb::extract_hierarchy("<hierarchy"), None);
}

#[test]
fn the_stderr_classification_is_not_shadowed_by_the_exit_status() {
    assert_eq!(
        Adb::classify_stderr("ERROR: could not get idle state."),
        Some(DumpFailure::NeverSettled)
    );
    assert_eq!(
        Adb::classify_stderr("ERROR: null root node returned by UiTestAutomationBridge."),
        Some(DumpFailure::NoActiveWindow)
    );
    assert_eq!(Adb::classify_stderr("device offline"), None);
}

#[test]
fn submitting_presses_the_enter_key() {
    let args = adb().system_args(SystemAct::Submit);
    assert_eq!(args.last().map(String::as_str), Some("KEYCODE_ENTER"));
}

#[test]
fn the_helper_tunnel_lets_adb_choose_the_host_port() {
    let args = adb().forward_args(18888);
    let parts: Vec<&str> = args.iter().map(String::as_str).collect();

    assert_eq!(&parts[2..], &["forward", "tcp:0", "tcp:18888"]);
}

#[test]
fn the_allocated_host_port_is_read_back_from_adb() {
    assert_eq!(Adb::parse_forward_port("18899\n"), Some(18899));
    assert_eq!(Adb::parse_forward_port(""), None);
    assert_eq!(Adb::parse_forward_port("error: cannot bind"), None);
}

#[test]
fn an_existing_tunnel_to_the_helper_is_reused() {
    let listing = "OTHER tcp:5000 tcp:18877\nSERIAL123 tcp:6001 tcp:9999\nSERIAL123 tcp:6002 tcp:18877\n";
    assert_eq!(adb().parse_forward_reuse(listing, 18877), Some(6002));
    assert_eq!(adb().parse_forward_reuse(listing, 1234), None);
}

#[test]
fn the_installed_version_is_read_from_dumpsys() {
    assert_eq!(
        Adb::parse_version_code("    versionCode=42 minSdk=26 targetSdk=34\n"),
        Some(42)
    );
    assert_eq!(Adb::parse_version_code("Unable to find package"), None);
}

#[test]
fn only_devices_that_are_ready_are_listed() {
    let raw = "List of devices attached\nabc123\tdevice\ndef456\tunauthorized\nghi789\tdevice\n\n";
    assert_eq!(Adb::parse_devices(raw), vec!["abc123".to_owned(), "ghi789".to_owned()]);
}

#[test]
fn the_navigation_mode_decides_how_the_switcher_is_reached() {
    assert_eq!(Navigation::from_setting("0\n"), Navigation::Buttons);
    assert_eq!(Navigation::from_setting("1"), Navigation::Buttons);
    assert_eq!(Navigation::from_setting("2"), Navigation::Gesture);
    assert_eq!(Navigation::from_setting("null"), Navigation::Gesture);
    assert!(Navigation::Buttons.app_switcher_responds_to_keyevent());
    assert!(!Navigation::Gesture.app_switcher_responds_to_keyevent());
}

#[test]
fn a_single_quote_is_escaped_for_the_device_shell() {
    assert_eq!(shell_quote("it's"), r"'it'\''s'");
    assert_eq!(shell_quote(""), "''");
}

#[test]
fn under_gesture_navigation_the_switcher_is_a_swipe() {
    let by_key = adb()
        .shell_step(&Command::System(SystemAct::AppSwitcher), Navigation::Buttons, (1080, 2400))
        .expect("a key");
    let by_swipe = adb()
        .shell_step(&Command::System(SystemAct::AppSwitcher), Navigation::Gesture, (1080, 2400))
        .expect("a swipe");
    assert_eq!(by_key, ShellStep::Run(adb().system_args(SystemAct::AppSwitcher)));
    assert_eq!(by_swipe, ShellStep::Run(adb().app_switcher_swipe_args(1080, 2400)));
}

#[test]
fn a_preview_has_no_android_equivalent() {
    assert_eq!(
        adb().shell_step(&Command::Peek(Point { x: 1, y: 1 }), Navigation::Buttons, (1080, 2400)),
        Err(AdbError::Unsupported { gesture: "peek" })
    );
    assert_eq!(
        adb().shell_step(&Command::Settle, Navigation::Buttons, (1080, 2400)),
        Ok(ShellStep::Wait(600))
    );
    assert_eq!(
        adb().shell_step(&Command::TypeText { at: Point { x: 1, y: 1 }, text: "é".to_owned() }, Navigation::Buttons, (1080, 2400)),
        Err(AdbError::Text(TextError::NotAscii { offender: 'é' }))
    );
}

#[test]
fn waiting_grows_with_each_attempt() {
    assert_eq!(dump_retry_wait(1), 300);
    assert_eq!(dump_retry_wait(3), 900);
    assert_eq!(empty_retry_wait(2), 300);
}

#[test]
fn a_dump_without_a_hierarchy_means_no_readable_window() {
    assert!(matches!(screen_from_dump("ERROR: null root node", &mut Stamps::new()), Err(AdbError::NoActiveWindow)));
    let screen = screen_from_dump(
        "<hierarchy rotation=\"0\"><node text=\"Wi-Fi\" clickable=\"true\" enabled=\"true\" bounds=\"[0,0][100,50]\"/></hierarchy>UI hierchary dumped to: /dev/tty",
        &mut Stamps::new(),
    )
    .expect("a screen");
    assert_eq!(screen.len(), 1);
}

#[test]
fn each_package_is_handed_its_own_token_by_a_targeted_broadcast() {
    let token = Token::new("abc123".to_owned());
    let args = adb().push_token_args(&token);
    let parts: Vec<&str> = args.iter().map(String::as_str).collect();

    assert_eq!(&parts[..2], &["-s", "SERIAL123"]);
    assert_eq!(&parts[2..5], &["shell", "am", "broadcast"]);
    assert!(
        parts.contains(&"dev.jevpilot.helper/dev.jevpilot.helper.TokenReceiver"),
        "the receiver is named, so no other app can be handed the token: {parts:?}"
    );
    assert!(parts.contains(&"dev.jevpilot.helper.SET_TOKEN"), "{parts:?}");
    assert!(parts.iter().any(|p| p.contains("'abc123'")), "{parts:?}");
}
