//! Reading hierarchies into observations, on both platforms.

use jev_pilot::act::{Catalog, Operation};
use jev_pilot::platform::ios::Ios;

use jev_pilot::platform::{Android, HierarchyError, Platform};
use jev_pilot::platform::android::parse_bounds;
use jev_pilot::snapshot::{Bounds, Stamps};

const SCREEN: &str = r#"<?xml version="1.0" encoding="UTF-8"?>
<hierarchy rotation="0">
  <node index="0" text="" class="android.widget.FrameLayout" package="com.android.settings" clickable="false" enabled="true" bounds="[0,0][1080,2400]">
    <node index="0" text="Network &amp; internet" class="android.widget.TextView" package="com.android.settings" clickable="false" enabled="true" bounds="[0,100][1080,200]"/>
    <node index="1" text="" class="android.widget.LinearLayout" package="com.android.settings" clickable="true" enabled="true" bounds="[0,300][1080,500]">
      <node index="0" text="Wi-Fi" class="android.widget.TextView" package="com.android.settings" clickable="false" enabled="true" bounds="[40,320][600,380]"/>
      <node index="1" text="Connected" class="android.widget.TextView" package="com.android.settings" clickable="false" enabled="true" bounds="[40,390][600,450]"/>
      <node index="2" text="Toggle" class="android.widget.Switch" package="com.android.settings" clickable="true" enabled="true" bounds="[900,350][1000,450]"/>
    </node>
    <node index="2" text="Greyed" class="android.widget.Button" package="com.android.settings" clickable="true" enabled="false" bounds="[0,600][1080,700]"/>
    <node index="3" text="Held" class="android.widget.TextView" package="com.android.settings" long-clickable="true" enabled="true" bounds="[0,800][1080,900]"/>
    <node index="4" text="" hint="Search settings" class="android.widget.EditText" package="com.android.settings" clickable="false" enabled="true" bounds="[0,1000][1080,1100]"/>
    <node index="5" text="" class="android.view.View" package="com.android.systemui" clickable="false" enabled="true" bounds="[0,0][1080,80]"/>
    <node index="6" text="" class="android.view.View" package="com.android.systemui" clickable="false" enabled="true" bounds="[0,2300][1080,2400]"/>
    <node index="7" text="" class="android.view.View" package="com.android.systemui" clickable="false" enabled="true" bounds="[0,2200][1080,2300]"/>
  </node>
</hierarchy>"#;

fn labels(raw: &str) -> Vec<String> {
    let snapshot = Android.parse_hierarchy(raw, &mut Stamps::new()).expect("parses");
    snapshot.refs().into_iter().map(|(_, e)| e.label).collect()
}

#[test]
fn a_row_takes_the_labels_of_the_text_it_contains() {
    let snapshot = Android.parse_hierarchy(SCREEN, &mut Stamps::new()).expect("parses");
    let refs = snapshot.refs();
    let (_, wifi) = refs.iter().find(|(_, e)| e.label == "Wi-Fi").expect("the Wi-Fi row");
    assert_eq!(wifi.detail.as_deref(), Some("Connected"));
    assert_eq!(wifi.bounds, Bounds { left: 0, top: 300, right: 1080, bottom: 500 });
    assert!(!wifi.editable);
}

#[test]
fn a_nested_control_keeps_its_own_label() {
    let all = labels(SCREEN);
    assert!(all.contains(&"Toggle".to_owned()), "{all:?}");
    assert_eq!(all.iter().filter(|l| *l == "Toggle").count(), 1);
}

#[test]
fn a_disabled_control_is_not_offered_even_though_it_is_clickable() {
    assert!(!labels(SCREEN).contains(&"Greyed".to_owned()));
}

#[test]
fn long_clickable_and_checkable_controls_are_offered() {
    assert!(labels(SCREEN).contains(&"Held".to_owned()));
}

#[test]
fn an_empty_text_field_is_surfaced_and_named_by_its_hint() {
    let snapshot = Android.parse_hierarchy(SCREEN, &mut Stamps::new()).expect("parses");
    let refs = snapshot.refs();
    let (_, field) = refs.iter().find(|(_, e)| e.editable).expect("the search field");
    assert_eq!(field.label, "Search settings");
    assert_eq!(field.detail, None);
}

#[test]
fn a_nameless_field_is_described_rather_than_discarded() {
    let raw = r#"<hierarchy><node class="android.widget.EditText" enabled="true" bounds="[0,0][10,10]"/></hierarchy>"#;
    assert_eq!(labels(raw), vec!["text field".to_owned()]);
}

#[test]
fn a_clickable_with_no_name_at_all_is_still_dropped() {
    let raw = r#"<hierarchy><node text="" clickable="true" enabled="true" bounds="[0,0][10,10]"/></hierarchy>"#;
    assert!(labels(raw).is_empty());
}

#[test]
fn editability_is_taken_from_the_trait_not_from_a_class_name() {
    let raw = r#"<hierarchy><node text="Amount" editable="true" class="io.flutter.Semantics" enabled="true" bounds="[0,0][10,10]"/><node text="Note" editable="false" class="android.widget.EditText" clickable="true" enabled="true" bounds="[0,20][10,30]"/></hierarchy>"#;
    let snapshot = Android.parse_hierarchy(raw, &mut Stamps::new()).expect("parses");
    let refs = snapshot.refs();
    assert!(refs[0].1.editable);
    assert!(!refs[1].1.editable);
}

#[test]
fn the_screen_keeps_the_words_that_are_not_rows() {
    let snapshot = Android.parse_hierarchy(SCREEN, &mut Stamps::new()).expect("parses");
    // A disabled control is not a row, so what it says is said by the screen.
    assert_eq!(snapshot.notices(), vec!["Network & internet".to_owned(), "Greyed".to_owned()]);
}

#[test]
fn system_chrome_does_not_get_to_name_the_screen() {
    let snapshot = Android.parse_hierarchy(SCREEN, &mut Stamps::new()).expect("parses");
    assert_eq!(snapshot.app().as_deref(), Some("com.android.settings"));
}

#[test]
fn a_window_that_names_itself_the_application_wins() {
    let raw = r#"<hierarchy><node window-type="application" package="com.example.wallet"/><node package="com.other" text="x"/><node package="com.other" text="y"/></hierarchy>"#;
    let snapshot = Android.parse_hierarchy(raw, &mut Stamps::new()).expect("parses");
    assert_eq!(snapshot.app().as_deref(), Some("com.example.wallet"));
}

#[test]
fn the_soft_keyboard_is_not_offered_as_rows() {
    let raw = r#"<hierarchy>
      <window window-type="application" package="com.example"><node text="Send" clickable="true" enabled="true" bounds="[0,0][100,50]"/></window>
      <window window-type="input_method" package="com.google.android.inputmethod.latin"><node text="q" clickable="true" enabled="true" bounds="[0,2000][100,2100]"/><node text="w" clickable="true" enabled="true" bounds="[100,2000][200,2100]"/></window>
    </hierarchy>"#;
    let snapshot = Android.parse_hierarchy(raw, &mut Stamps::new()).expect("parses");
    assert_eq!(labels(raw), vec!["Send".to_owned()]);
    assert!(snapshot.keyboard_open());
    assert!(!Android.parse_hierarchy(SCREEN, &mut Stamps::new()).expect("parses").keyboard_open());
}

#[test]
fn a_malformed_hierarchy_is_refused_with_what_was_wrong() {
    match Android.parse_hierarchy("<hierarchy><node></hierarchy>", &mut Stamps::new()) {
        Err(HierarchyError::Malformed { detail }) => assert!(!detail.is_empty()),
        other => panic!("expected a refusal, got {other:?}"),
    }
}

#[test]
fn a_screen_with_more_rows_than_can_be_addressed_is_refused() {
    let mut raw = String::from("<hierarchy>");
    for i in 0..260 {
        raw.push_str(&format!(
            r#"<node text="row {i}" clickable="true" enabled="true" bounds="[0,{i}][10,{}]"/>"#,
            i + 1
        ));
    }
    raw.push_str("</hierarchy>");
    match Android.parse_hierarchy(&raw, &mut Stamps::new()) {
        Err(HierarchyError::TooMany(e)) => {
            assert_eq!(e.found, 260);
            assert_eq!(e.limit, 250);
        }
        other => panic!("expected too many, got {other:?}"),
    }
}

#[test]
fn bounds_are_read_as_four_numbers() {
    assert_eq!(
        parse_bounds("[0,300][1080,500]"),
        Some(Bounds { left: 0, top: 300, right: 1080, bottom: 500 })
    );
    assert_eq!(
        parse_bounds("[-5,0][10,-1]"),
        Some(Bounds { left: -5, top: 0, right: 10, bottom: -1 })
    );
    assert_eq!(parse_bounds("[0,0][10]"), None);
    assert_eq!(parse_bounds(""), None);
}

#[test]
fn each_platform_offers_only_its_own_gestures() {
    assert!(Android.operations().contains(&Operation::Back));
    assert!(!Android.operations().contains(&Operation::Peek));
    assert!(!Ios.operations().contains(&Operation::Back));
    assert!(Ios.operations().contains(&Operation::Peek));
    assert_eq!(Android.name(), "Android");
    assert_eq!(Ios.name(), "iOS");
}

const IOS_SCREEN: &str = r#"
<XCUIElementTypeApplication type="XCUIElementTypeApplication" name="Settings"
    enabled="true" visible="true" x="0" y="0" width="390" height="844">
  <XCUIElementTypeCell type="XCUIElementTypeCell" enabled="true" visible="true"
      x="0" y="100" width="390" height="44">
    <XCUIElementTypeStaticText type="XCUIElementTypeStaticText" label="Wi-Fi"
        enabled="true" visible="true" x="16" y="110" width="100" height="20"/>
    <XCUIElementTypeStaticText type="XCUIElementTypeStaticText" label="Not Connected"
        enabled="true" visible="true" x="200" y="110" width="150" height="20"/>
  </XCUIElementTypeCell>
  <XCUIElementTypeButton type="XCUIElementTypeButton" label="Done"
      enabled="true" visible="true" x="300" y="20" width="60" height="30"/>
  <XCUIElementTypeButton type="XCUIElementTypeButton" label="Hidden"
      enabled="true" visible="false" x="0" y="0" width="10" height="10"/>
  <XCUIElementTypeButton type="XCUIElementTypeButton" label="Greyed"
      enabled="false" visible="true" x="0" y="0" width="10" height="10"/>
  <XCUIElementTypeTextField type="XCUIElementTypeTextField" value="Search"
      enabled="true" visible="true" x="0" y="60" width="390" height="30.6"/>
</XCUIElementTypeApplication>
"#;

fn to_pixels(text: &str) -> Option<i32> {
    let rounded = text.trim().parse::<f64>().ok()?.round();
    if !rounded.is_finite() || rounded < f64::from(i32::MIN) || rounded > f64::from(i32::MAX) {
        return None;
    }
    Some(rounded as i32)
}

fn read_ios(raw: &str) -> jev_pilot::snapshot::Snapshot {
    let doc = Ios::document(raw).expect("parses");
    let frames: Vec<Option<(i32, i32, i32, i32)>> = Ios::frame_texts(&doc)
        .into_iter()
        .map(|f| {
            let (x, y, w, h) = f?;
            Some((to_pixels(&x)?, to_pixels(&y)?, to_pixels(&w)?, to_pixels(&h)?))
        })
        .collect();
    Ios::snapshot_of(&doc, &frames, &mut Stamps::new()).expect("addressable")
}

#[test]
fn a_cell_takes_the_label_of_the_text_it_contains() {
    let snapshot = read_ios(IOS_SCREEN);
    let refs = snapshot.refs();
    let (_, cell) = refs.iter().find(|(_, e)| e.label == "Wi-Fi").expect("the Wi-Fi row is present");
    assert_eq!(cell.detail.as_deref(), Some("Not Connected"));
    assert_eq!(cell.bounds.center().y, 122);
}

#[test]
fn invisible_and_disabled_elements_are_not_offered() {
    let labels: Vec<String> = read_ios(IOS_SCREEN).refs().into_iter().map(|(_, e)| e.label).collect();
    assert!(labels.contains(&"Done".to_owned()));
    assert!(!labels.contains(&"Hidden".to_owned()), "got {labels:?}");
    assert!(!labels.contains(&"Greyed".to_owned()), "got {labels:?}");
}

#[test]
fn an_ios_text_field_accepts_text_and_its_frame_is_rounded() {
    let snapshot = read_ios(IOS_SCREEN);
    let refs = snapshot.refs();
    let (_, field) = refs.iter().find(|(_, e)| e.editable).expect("the field");
    assert_eq!(field.label, "Search");
    assert_eq!(field.bounds, Bounds { left: 0, top: 60, right: 390, bottom: 91 });
}

#[test]
fn an_ios_catalog_offers_no_system_back() {
    let snapshot = read_ios(IOS_SCREEN);
    let catalog = Catalog::for_screen(&snapshot, &Ios);

    assert!(!catalog.operations().contains(&Operation::Back));
    assert!(catalog.operations().contains(&Operation::Home));
    assert!(catalog.operations().contains(&Operation::Peek));
}

#[test]
fn bare_static_text_is_not_offered_as_an_action() {
    const HEADING: &str = r#"
    <XCUIElementTypeApplication type="XCUIElementTypeApplication" enabled="true" visible="true"
        x="0" y="0" width="390" height="844">
      <XCUIElementTypeStaticText type="XCUIElementTypeStaticText" label="Settings"
          enabled="true" visible="true" x="16" y="60" width="200" height="34"/>
      <XCUIElementTypeButton type="XCUIElementTypeButton" label="Edit"
          enabled="true" visible="true" x="300" y="60" width="60" height="34"/>
    </XCUIElementTypeApplication>
    "#;
    let labels: Vec<String> = read_ios(HEADING).refs().into_iter().map(|(_, e)| e.label).collect();
    assert_eq!(labels, vec!["Edit".to_owned()], "static text must not be a target");
}

#[test]
fn a_cell_that_already_merged_its_text_keeps_that_label() {
    const MERGED: &str = r#"
    <XCUIElementTypeApplication type="XCUIElementTypeApplication" enabled="true" visible="true"
        x="0" y="0" width="390" height="844">
      <XCUIElementTypeCell type="XCUIElementTypeCell" label="Bluetooth, On"
          enabled="true" visible="true" x="0" y="200" width="390" height="44"/>
    </XCUIElementTypeApplication>
    "#;
    let snapshot = read_ios(MERGED);
    let refs = snapshot.refs();
    let (_, cell) = refs.first().expect("the row is present");
    assert_eq!(cell.label, "Bluetooth, On");
    assert_eq!(cell.detail, None);
}

#[test]
fn a_hint_names_a_field_without_pretending_to_be_its_contents() {
    let raw = r#"<hierarchy rotation="0">
        <node index="0" text="" content-desc="" class="android.widget.EditText"
              editable="true" hint="Number to be loaded" clickable="true"
              bounds="[41,360][967,493]" />
        <node index="1" text="0917" content-desc="" class="android.widget.EditText"
              editable="true" hint="Number to be loaded" clickable="true"
              bounds="[41,560][967,693]" />
        </hierarchy>"#;

    assert_eq!(labels(raw), vec!["Number to be loaded", "0917"]);
}

#[test]
fn editability_falls_back_to_the_class_when_the_trait_is_absent() {
    let raw = r#"<hierarchy rotation="0">
        <node index="0" text="typed" class="android.widget.EditText"
              clickable="true" bounds="[0,0][100,50]" />
        </hierarchy>"#;

    let snapshot = Android.parse_hierarchy(raw, &mut Stamps::new()).expect("a screen");
    assert!(snapshot.refs()[0].1.editable);
}

#[test]
fn the_screen_says_whether_the_keyboard_is_open() {
    let keyboard = r#"<hierarchy rotation="0">
        <node index="0" window-type="application" package="com.example" class="android.widget.FrameLayout" bounds="[0,0][1080,2400]">
          <node index="0" text="" hint="Search" class="android.widget.EditText" editable="true" clickable="true" bounds="[0,100][1080,200]" />
        </node>
        <node index="1" window-type="input_method" package="com.google.android.inputmethod.latin" class="android.widget.FrameLayout" bounds="[0,1600][1080,2400]">
          <node index="0" text="q" class="android.widget.Button" clickable="true" bounds="[0,1700][100,1800]" />
          <node index="1" text="Space" class="android.widget.Button" clickable="true" bounds="[200,2200][800,2300]" />
        </node>
        </hierarchy>"#;

    let up = Android.parse_hierarchy(keyboard, &mut Stamps::new()).expect("a screen");
    assert!(up.keyboard_open());
    assert_eq!(labels(keyboard), vec!["Search"], "a key is never a row");
    assert!(!Android.parse_hierarchy(SCREEN, &mut Stamps::new()).expect("a screen").keyboard_open());
}

#[test]
fn the_screen_says_which_app_it_belongs_to() {
    assert_eq!(
        Android.parse_hierarchy(SCREEN, &mut Stamps::new()).expect("a screen").app().as_deref(),
        Some("com.android.settings"),
    );
}

#[test]
fn a_reader_that_cannot_say_how_quiet_it_is_says_nothing() {
    assert_eq!(Android.parse_hierarchy(SCREEN, &mut Stamps::new()).expect("a screen").quiet_for_ms(), None);
}
