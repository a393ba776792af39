//! What an answer to an impasse means.

use jev_pilot::act::Operation;
use jev_pilot::desk::{answer_from, parse_typed, resolve_answer, supplied, words_from};
use jev_pilot::pilot::Resolution;

#[test]
fn a_typed_answer_names_an_operation_and_its_row() {
    assert_eq!(
        parse_typed("tap 3"),
        Some(Resolution::Choose { operation: Operation::Tap, target: Some(3) })
    );
    assert_eq!(
        parse_typed("  back  "),
        Some(Resolution::Choose { operation: Operation::Back, target: None })
    );
    assert_eq!(parse_typed("stop"), Some(Resolution::Stop));
    assert_eq!(parse_typed("stop now please"), Some(Resolution::Stop));
}

#[test]
fn a_typed_answer_that_names_nothing_is_not_understood() {
    assert_eq!(parse_typed(""), None);
    assert_eq!(parse_typed("   "), None);
    assert_eq!(parse_typed("fly away"), None);
    assert_eq!(
        parse_typed("tap three"),
        Some(Resolution::Choose { operation: Operation::Tap, target: None })
    );
}

#[test]
fn an_answer_file_resolves_the_same_way() {
    assert_eq!(resolve_answer(Some("stop"), Some(4)), Some(Resolution::Stop));
    assert_eq!(
        resolve_answer(Some("tap"), Some(2)),
        Some(Resolution::Choose { operation: Operation::Tap, target: Some(2) })
    );
    assert_eq!(resolve_answer(Some("nonsense"), None), None);
    assert_eq!(resolve_answer(None, Some(1)), None);
}

#[test]
fn words_given_up_front_are_found_by_the_field_they_belong_in() {
    let texts = vec![
        ("password".to_owned(), "hunter2".to_owned()),
        ("account number".to_owned(), "0150002954".to_owned()),
    ];
    assert_eq!(supplied(&texts, "Password").as_deref(), Some("hunter2"));
    assert_eq!(supplied(&texts, "RBGI Account Number").as_deref(), Some("0150002954"));
    assert_eq!(supplied(&texts, "Amount"), None);
}

#[test]
fn words_given_with_an_answer_are_the_words_typed() {
    let (resolution, words) = answer_from(r#"{"operation":"type_text","target":0,"text":"50"}"#);
    assert_eq!(resolution, Some(Resolution::Choose { operation: Operation::TypeText, target: Some(0) }));
    assert_eq!(words.as_deref(), Some("50"));
}

#[test]
fn words_come_with_an_answer_only_when_it_types() {
    let (resolution, words) = answer_from(r#"{"operation":"tap","target":3,"text":"50"}"#);
    assert_eq!(resolution, Some(Resolution::Choose { operation: Operation::Tap, target: Some(3) }));
    assert_eq!(words, None);
    assert_eq!(answer_from(r#"{"operation":"stop"}"#), (Some(Resolution::Stop), None));
    assert_eq!(answer_from(r#"{"operation":"fly","target":1}"#), (None, None));
    assert_eq!(answer_from(r#"{"operation":"back","target":"two"}"#).0, Some(Resolution::Choose { operation: Operation::Back, target: None }));
    assert_eq!(answer_from("not json"), (None, None));
    assert_eq!(answer_from("[1, 2]"), (None, None));
}

#[test]
fn the_words_asked_for_come_from_the_answer_file() {
    assert_eq!(words_from(r#"{"text":"jane@example.com"}"#), "jane@example.com");
    assert_eq!(words_from(r#"{"text":7}"#), "");
    assert_eq!(words_from("{}"), "");
    assert_eq!(words_from("no"), "");
}

#[test]
fn every_operation_can_be_chosen_by_typing_its_name() {
    for operation in Operation::all() {
        assert_eq!(parse_typed(operation.key()), Some(Resolution::Choose { operation, target: None }));
        assert_eq!(
            parse_typed(&format!("{} 12", operation.key())),
            Some(Resolution::Choose { operation, target: Some(12) })
        );
    }
    assert_eq!(parse_typed(""), None);
}
