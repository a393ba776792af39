//! Observations: references, geometry, and telling screens apart.

use jev_pilot::snapshot::{Bounds, Element, Point, Snapshot, Stamps, TapError, MAX_ELEMENTS};

fn element(label: &str, bounds: Bounds) -> Element {
    Element { label: label.to_owned(), detail: None, editable: false, bounds }
}

fn row(label: &str, top: i32, bottom: i32) -> Element {
    element(label, Bounds { left: 0, top, right: 1080, bottom })
}

#[test]
fn a_reference_from_an_earlier_snapshot_does_not_resolve_against_a_later_one() {
    let mut stamps = Stamps::new();
    let first = Snapshot::new(vec![row("A", 0, 100)], &mut stamps).expect("a screen");
    let second = Snapshot::new(vec![row("A", 0, 100)], &mut stamps).expect("a screen");
    let (handle, _) = first.refs()[0].clone();

    assert!(first.resolve(handle).is_ok());
    assert!(second.resolve(handle).is_err());
    assert!(matches!(second.tap_point(handle), Err(TapError::Stale(_))));
}

#[test]
fn each_observation_from_one_source_gets_a_stamp_of_its_own() {
    let mut stamps = Stamps::new();
    let screens: Vec<Snapshot> =
        (0..5).map(|_| Snapshot::new(vec![row("A", 0, 100)], &mut stamps).expect("a screen")).collect();
    for (i, a) in screens.iter().enumerate() {
        let (handle, _) = a.refs()[0].clone();
        for (j, b) in screens.iter().enumerate() {
            assert_eq!(b.resolve(handle).is_ok(), i == j);
        }
    }
    let refused = Snapshot::new(vec![row("A", 0, 100); MAX_ELEMENTS + 1], &mut stamps);
    assert!(refused.is_err());
    let next = Snapshot::new(vec![row("A", 0, 100)], &mut stamps).expect("a screen");
    let (handle, _) = next.refs()[0].clone();
    assert!(screens.iter().all(|s| s.resolve(handle).is_err()));
}

#[test]
fn extreme_bounds_do_not_overflow_the_centre_calculation() {
    let b = Bounds { left: i32::MAX - 1, top: i32::MAX - 1, right: i32::MAX, bottom: i32::MAX };
    assert_eq!(b.center(), Point { x: i32::MAX - 1, y: i32::MAX - 1 });
    let b = Bounds { left: i32::MIN, top: i32::MIN, right: i32::MAX, bottom: i32::MAX };
    assert_eq!(b.center(), Point { x: 0, y: 0 });
}

#[test]
fn a_snapshot_over_the_element_limit_is_refused() {
    let rows: Vec<Element> = (0..=MAX_ELEMENTS as i32).map(|i| row("r", i, i + 1)).collect();
    let refused = Snapshot::new(rows, &mut Stamps::new()).expect_err("too many");
    assert_eq!(refused.found, MAX_ELEMENTS + 1);
    assert_eq!(refused.limit, MAX_ELEMENTS);
    let rows: Vec<Element> = (0..MAX_ELEMENTS as i32).map(|i| row("r", i, i + 1)).collect();
    assert!(Snapshot::new(rows, &mut Stamps::new()).is_ok());
}

#[test]
fn a_row_half_hidden_behind_a_bar_is_tapped_where_it_is_visible() {
    let screen = Snapshot::new(vec![row("List row", 900, 1100), row("Bottom bar", 1000, 1200)], &mut Stamps::new()).expect("a screen");
    let (handle, _) = screen.refs()[0].clone();
    assert_eq!(screen.tap_point(handle), Ok(Point { x: 540, y: 950 }));
}

#[test]
fn an_unobstructed_row_is_still_tapped_at_its_centre() {
    let screen = Snapshot::new(vec![row("A", 100, 200), row("B", 300, 400)], &mut Stamps::new()).expect("a screen");
    let (handle, _) = screen.refs()[0].clone();
    assert_eq!(screen.tap_point(handle), Ok(Point { x: 540, y: 150 }));
}

#[test]
fn a_fully_covered_row_is_refused() {
    let screen = Snapshot::new(vec![row("Hidden", 100, 200), row("Sheet", 0, 2400)], &mut Stamps::new()).expect("a screen");
    let (handle, _) = screen.refs()[0].clone();
    assert!(matches!(screen.tap_point(handle), Err(TapError::Obscured(_))));
}

#[test]
fn a_screen_with_nothing_on_it_is_not_worth_acting_on() {
    let empty = Snapshot::new(Vec::new(), &mut Stamps::new()).expect("a screen");
    assert!(!empty.worth_acting_on());
    assert!(empty.is_empty());
    assert!(Snapshot::new(vec![row("A", 0, 10)], &mut Stamps::new()).expect("a screen").worth_acting_on());
}

#[test]
fn a_fingerprint_is_about_what_is_on_screen_not_when_it_was_read() {
    let a = Snapshot::new(vec![row("A", 0, 100)], &mut Stamps::new()).expect("a screen");
    let b = Snapshot::new(vec![row("A", 0, 100)], &mut Stamps::new()).expect("a screen");
    assert_eq!(a.fingerprint(), b.fingerprint());
    assert_eq!(a.place(), b.place());
}

#[test]
fn where_a_screen_is_does_not_change_which_screen_it_is() {
    let a = Snapshot::new(vec![row("A", 0, 100)], &mut Stamps::new()).expect("a screen");
    let moved = Snapshot::new(vec![row("A", 50, 150)], &mut Stamps::new()).expect("a screen");
    assert_eq!(a.place(), moved.place());
    assert_ne!(a.fingerprint(), moved.fingerprint());
}

#[test]
fn a_screen_that_gains_a_row_is_a_different_place() {
    let a = Snapshot::new(vec![row("A", 0, 100)], &mut Stamps::new()).expect("a screen");
    let more = Snapshot::new(vec![row("A", 0, 100), row("B", 200, 300)], &mut Stamps::new()).expect("a screen");
    assert_ne!(a.place(), more.place());
}

#[test]
fn the_keyboard_coming_up_counts_as_a_change() {
    let a = Snapshot::new(vec![row("A", 0, 100)], &mut Stamps::new()).expect("a screen");
    let b = Snapshot::new(vec![row("A", 0, 100)], &mut Stamps::new()).expect("a screen").with_keyboard_open(true);
    assert_ne!(a.fingerprint(), b.fingerprint());
}

#[test]
fn words_that_are_not_rows_still_make_a_screen_a_different_screen() {
    let a = Snapshot::new(vec![row("1", 0, 100)], &mut Stamps::new()).expect("a screen").saying(vec!["2 of 6 digits".to_owned()]);
    let b = Snapshot::new(vec![row("1", 0, 100)], &mut Stamps::new()).expect("a screen").saying(vec!["3 of 6 digits".to_owned()]);
    assert_ne!(a.fingerprint(), b.fingerprint());
}

#[test]
fn a_control_becoming_available_makes_it_a_different_screen() {
    let a = Snapshot::new(vec![row("1", 0, 100)], &mut Stamps::new()).expect("a screen").offering_but_refusing(vec!["Continue".to_owned()]);
    let b = Snapshot::new(vec![row("1", 0, 100)], &mut Stamps::new()).expect("a screen");
    assert_ne!(a.fingerprint(), b.fingerprint());
    assert_eq!(a.unavailable(), vec!["Continue".to_owned()]);
}

#[test]
fn the_screen_says_how_long_it_has_been_quiet() {
    let a = Snapshot::new(Vec::new(), &mut Stamps::new()).expect("a screen").quiet_for(Some(250));
    assert_eq!(a.quiet_for_ms(), Some(250));
    assert_eq!(Snapshot::new(Vec::new(), &mut Stamps::new()).expect("a screen").quiet_for_ms(), None);
}

#[test]
fn a_row_is_described_with_its_detail() {
    let mut e = row("Wi-Fi", 0, 10);
    assert_eq!(e.describe(), "Wi-Fi");
    e.detail = Some("Connected".to_owned());
    assert_eq!(e.describe(), "Wi-Fi — Connected");
}

#[test]
fn an_origin_and_size_become_bounds_without_overflow() {
    assert_eq!(
        Bounds::from_origin_size(10, 20, 30, 40),
        Bounds { left: 10, top: 20, right: 40, bottom: 60 }
    );
    assert_eq!(Bounds::from_origin_size(i32::MAX, 0, 5, 1).right, i32::MAX);
}

#[test]
fn a_page_scrolled_to_other_rows_is_a_different_place() {
    let page = |shift: i32| {
        let row = |label: &str, top: i32| Element {
            label: label.into(),
            detail: None,
            editable: false,
            bounds: Bounds::from_origin_size(0, top - shift, 400, 80),
        };
        vec![
            row("Result A", 100),
            row("Result B", 600),
            Element {
                label: "Toolbar".into(),
                detail: None,
                editable: false,
                bounds: Bounds::from_origin_size(0, 500, 400, 1000),
            },
        ]
    };
    let mut stamps = Stamps::new();
    let top = Snapshot::new(page(0), &mut stamps).expect("a screen");
    let scrolled = Snapshot::new(page(400), &mut stamps).expect("a screen");

    assert_ne!(top.place(), scrolled.place());

    let shifted = |shift: i32| {
        vec![
            row("Account Number", 100 + shift, 180 + shift),
            row("Continue", 300 + shift, 380 + shift),
        ]
    };
    let first = Snapshot::new(shifted(0), &mut stamps).expect("a screen");
    let again = Snapshot::new(shifted(40), &mut stamps).expect("a screen");
    assert_eq!(first.place(), again.place(), "the same rows a little lower are the same place");
}

#[test]
fn a_screen_can_be_told_apart_from_the_one_before_it() {
    let row = |label: &str, top: i32| element(label, Bounds { left: 0, top, right: 100, bottom: top + 50 });
    let mut stamps = Stamps::new();
    let before = Snapshot::new(vec![row("Continue", 0)], &mut stamps).expect("a screen");
    let same = Snapshot::new(vec![row("Continue", 0)], &mut stamps).expect("a screen");
    let moved = Snapshot::new(vec![row("Continue", 80)], &mut stamps).expect("a screen");
    let other = Snapshot::new(vec![row("Back", 0)], &mut stamps).expect("a screen");

    assert_eq!(before.fingerprint(), same.fingerprint(), "same rows, same place");
    assert_ne!(before.fingerprint(), moved.fingerprint(), "the row moved");
    assert_ne!(before.fingerprint(), other.fingerprint(), "different rows");
}

#[test]
fn a_screen_with_nothing_on_it_is_not_an_error() {
    let snapshot = Snapshot::new(Vec::new(), &mut Stamps::new()).expect("an empty screen is legal");
    assert!(snapshot.is_empty());
    assert_eq!(snapshot.len(), 0);
}
