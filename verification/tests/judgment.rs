use jev_pilot::judgment::{Confidence, Full, OptionId, Options, MAX_OPTIONS};

#[test]
fn ids_count_from_one_and_spell_themselves_with_an_a() {
    let first = OptionId::nth(0).expect("an id");
    assert_eq!(first.get(), 1);
    assert_eq!(first.to_string(), "A1");
    assert_eq!(OptionId::nth(41).expect("an id").to_string(), "A42");
    assert_eq!(OptionId::nth(254).expect("the last id").to_string(), "A255");
    assert!(OptionId::nth(255).is_none(), "no id is left for the 256th option");
}

#[test]
fn an_id_reads_back_from_its_spelling() {
    for index in [0u8, 9, 99, 254] {
        let id = OptionId::nth(index).expect("an id");
        assert_eq!(OptionId::parse(&id.to_string()), Some(id));
    }
    assert!(OptionId::parse("B1").is_none());
    assert!(OptionId::parse("A").is_none());
    assert!(OptionId::parse("A256").is_none());
    assert!(OptionId::parse("").is_none());
}

#[test]
fn options_keep_the_order_they_were_given() {
    let mut options = Options::new();
    assert!(options.is_empty());
    let a = options.push("first".to_owned()).expect("room");
    let b = options.push("second".to_owned()).expect("room");
    options.push_named("Tap".to_owned(), "press a row".to_owned()).expect("room");

    assert_eq!(a.to_string(), "A1");
    assert_eq!(b.to_string(), "A2");
    assert_eq!(options.len(), 3);
    assert_eq!(
        options.entries(),
        vec![
            ("A1".to_owned(), "first".to_owned()),
            ("A2".to_owned(), "second".to_owned()),
            ("Tap".to_owned(), "press a row".to_owned()),
        ]
    );
}

#[test]
fn a_full_choice_refuses_another_option() {
    let mut options = Options::new();
    for n in 0..MAX_OPTIONS {
        options.push(format!("row {n}")).expect("room");
    }
    assert_eq!(options.push("one more".to_owned()), Err(Full));
    assert_eq!(options.push_named("k".to_owned(), "v".to_owned()), Err(Full));
    assert_eq!(options.len(), MAX_OPTIONS);
}

#[test]
fn confidences_compare_as_the_numbers_they_are() {
    let low = Confidence::from_bits(0.25f64.to_bits()).expect("in range");
    let high = Confidence::from_bits(0.75f64.to_bits()).expect("in range");

    assert!(low.below(high));
    assert!(!high.below(low));
    assert_eq!(low.at_least(high).bits(), 0.75f64.to_bits());
    assert_eq!(high.at_least(low).bits(), 0.75f64.to_bits());
    assert_eq!(Confidence::zero().bits(), 0);
}

#[test]
fn a_full_choice_explains_itself() {
    let mut options = Options::new();
    for _ in 0..MAX_OPTIONS {
        options.push("a row".to_owned()).expect("within the limit");
    }

    let full = options.push("one too many".to_owned()).expect_err("the choice is full");

    let message = full.message();
    assert!(message.contains(&MAX_OPTIONS.to_string()), "got {message}");
    assert_eq!(message, "a Choice may offer at most 255 options");
}
