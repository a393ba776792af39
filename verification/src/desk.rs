//! A person, or another program, deciding what the model could not.
//!
//! Questions go out as files and typed prompts, which is the caller's
//! business. What an answer means is decided here: a typed line, the fields
//! of an answer file, or a text given up front for a field.
use crate::act::{key_of, operation_named, Operation};
use crate::device::helper::{field_in, field_views, find_field, read_json_fields, json_fields, JsonField, JsonFieldView};
use crate::pilot::Resolution;
use crate::text::{contains, decimal, is_digit, is_space, lemma_decimal_reads_back, lemma_two_words, lowercase, parse_usize, split_spaces, words_of};
use vstd::prelude::*;

verus! {

/// How long an answer is waited for, in seconds.
pub const WAIT_SECONDS: u64 = 300;

/// How often the answer file is looked for, in milliseconds.
pub const ASKED_AGAIN_AFTER_MS: u64 = 20;

/// What a typed line resolves to: `stop`, or an operation's name and,
/// optionally, the row it is for.
pub open spec fn typed_resolution(line: Seq<char>) -> Option<Resolution> {
    let ws = words_of(line);
    if ws.len() == 0 {
        None
    } else if ws[0] == "stop"@ {
        Some(Resolution::Stop)
    } else {
        match operation_named(ws[0]) {
            None => None,
            Some(operation) => Some(
                Resolution::Choose {
                    operation,
                    target: if ws.len() > 1 {
                        parse_usize(ws[1])
                    } else {
                        None
                    },
                },
            ),
        }
    }
}

/// Read a typed answer: `stop`, or an operation's name and, for one that
/// needs it, the row's number; anything after that is ignored. `None` when
/// the line names nothing this tool knows.
pub fn parse_typed(line: &str) -> (r: Option<Resolution>)
    ensures
        r == typed_resolution(line@),
{
    let chars = crate::text::chars_of(line);
    let ws = crate::text::words(chars.as_slice());
    assert(crate::text::runs(ws@) == words_of(line@));
    if ws.len() == 0 {
        return None;
    }
    assert(crate::text::runs(ws@)[0] == ws@[0]@);
    let stop = crate::text::chars_of("stop");
    if crate::text::same_chars(ws[0].as_slice(), stop.as_slice()) {
        return Some(Resolution::Stop);
    }
    let name = crate::text::string_of(ws[0].as_slice());
    let operation = match Operation::from_key(name.as_str()) {
        Some(op) => op,
        None => {
            return None;
        },
    };
    let target = if ws.len() > 1 {
        assert(crate::text::runs(ws@)[1] == ws@[1]@);
        proof {
            crate::text::lemma_parse_natural_nonneg(ws@[1]@);
        }
        match crate::text::natural_of(ws[1].as_slice(), usize::MAX as u64) {
            Some(n) => Some(n as usize),
            None => None,
        }
    } else {
        None
    };
    Some(Resolution::Choose { operation, target })
}

/// Every operation can be chosen by typing its name, alone or followed by a
/// space and the number of a row; `stop` stops the run, and a blank line
/// names nothing.
pub proof fn every_operation_can_be_typed(op: Operation, n: usize)
    ensures
        typed_resolution(key_of(op)) == Some(Resolution::Choose { operation: op, target: None }),
        typed_resolution(key_of(op) + seq![' '] + decimal(n as nat)) == Some(
            Resolution::Choose { operation: op, target: Some(n) },
        ),
        typed_resolution("stop"@) == Some(Resolution::Stop),
        typed_resolution(Seq::empty()) is None,
{
    let k = key_of(op);
    let d = decimal(n as nat);
    crate::act::lemma_key_is_one_word(op);
    lemma_decimal_reads_back(n as nat);
    assert forall|i: int| 0 <= i < d.len() implies !is_space(#[trigger] d[i]) by {
        assert(is_digit(d[i]));
    }
    lemma_two_words(k, d);
    crate::act::every_key_names_its_operation(op);
    reveal_strlit("stop");
    let stop = "stop"@;
    assert(stop.len() == 4 && stop[0] == 's');
    assert(k != stop);
    assert forall|i: int| 0 <= i < stop.len() implies !is_space(#[trigger] stop[i]) by {
        assert(stop[i] == 's' || stop[i] == 't' || stop[i] == 'o' || stop[i] == 'p');
    }
    lemma_two_words(stop, d);
    assert(split_spaces(Seq::<char>::empty()) == seq![Seq::<char>::empty()]);
    assert(seq![Seq::<char>::empty()].drop_last() =~= Seq::<Seq<char>>::empty());
    let blank = seq![Seq::<char>::empty()];
    assert(blank.last().len() == 0);
    assert(blank.drop_last() =~= Seq::<Seq<char>>::empty());
    assert(crate::text::nonempty(Seq::<Seq<char>>::empty()) == Seq::<Seq<char>>::empty());
    assert(crate::text::nonempty(blank) == crate::text::nonempty(blank.drop_last()));
}

/// What an answer file's `operation` and `target` fields resolve to: `stop`,
/// or an operation this tool knows and the row it is for, when the target is
/// a number a position can hold.
pub open spec fn answered_resolution(operation: Option<Seq<char>>, target: Option<u64>) -> Option<Resolution> {
    match operation {
        None => None,
        Some(name) => if name == "stop"@ {
            Some(Resolution::Stop)
        } else {
            match operation_named(name) {
                None => None,
                Some(op) => Some(
                    Resolution::Choose {
                        operation: op,
                        target: match target {
                            Some(n) if n <= usize::MAX => Some(n as usize),
                            _ => None,
                        },
                    },
                ),
            }
        },
    }
}

/// Read an answer file's fields: its `operation`, when that is a string, and
/// its `target`, when that is a whole number.
pub fn resolve_answer(operation: Option<&str>, target: Option<u64>) -> (r: Option<Resolution>)
    ensures
        r == answered_resolution(
            match operation {
                Some(o) => Some(o@),
                None => None,
            },
            target,
        ),
{
    let name = match operation {
        Some(o) => o,
        None => {
            return None;
        },
    };
    if crate::text::same_text(name, "stop") {
        return Some(Resolution::Stop);
    }
    let op = match Operation::from_key(name) {
        Some(op) => op,
        None => {
            return None;
        },
    };
    let target = match target {
        Some(n) => {
            if n <= usize::MAX as u64 {
                Some(n as usize)
            } else {
                None
            }
        },
        None => None,
    };
    Some(Resolution::Choose { operation: op, target })
}

/// What an answer left in the desk's file says, from the fields of the JSON
/// object it holds: what its `operation` and `target` resolve to, and the
/// words in its `text`, kept only when the operation is typing, where they
/// are what to type. Text that is not a JSON object names nothing.
pub open spec fn file_answer(fields: Option<Seq<(Seq<char>, JsonFieldView)>>) -> (Option<Resolution>, Option<Seq<char>>) {
    match fields {
        None => (None, None),
        Some(f) => {
            let operation = match field_in(f, "operation"@) {
                Some(JsonFieldView::Text(t)) => Some(t),
                _ => None,
            };
            let target = match field_in(f, "target"@) {
                Some(JsonFieldView::Unsigned(n)) => Some(n),
                _ => None,
            };
            let words = match field_in(f, "text"@) {
                Some(JsonFieldView::Text(t)) => if operation == Some(key_of(Operation::TypeText)) {
                    Some(t)
                } else {
                    None
                },
                _ => None,
            };
            (answered_resolution(operation, target), words)
        },
    }
}

/// Read the answer left in the desk's file: the resolution it names, or
/// `None` when it names nothing this tool knows, and the words it brings for
/// a field when it answers with typing.
pub fn answer_from(raw: &str) -> (r: (Option<Resolution>, Option<String>))
    ensures
        (r.0, match r.1 {
            Some(t) => Some(t@),
            None => None,
        }) == file_answer(json_fields(raw@)),
{
    let fields = match read_json_fields(raw) {
        Some(f) => f,
        None => {
            return (None, None);
        },
    };
    let ghost all = field_views(fields@);
    let operation: Option<&str> = match find_field(&fields, "operation") {
        Some(i) => match &fields[i].1 {
            JsonField::Text(t) => Some(t.as_str()),
            _ => None,
        },
        None => None,
    };
    let target: Option<u64> = match find_field(&fields, "target") {
        Some(i) => match &fields[i].1 {
            JsonField::Unsigned(n) => Some(*n),
            _ => None,
        },
        None => None,
    };
    let typing = match operation {
        Some(o) => crate::text::same_text(o, Operation::TypeText.key()),
        None => false,
    };
    let words: Option<String> = match find_field(&fields, "text") {
        Some(i) => match &fields[i].1 {
            JsonField::Text(t) => if typing {
                Some(t.clone())
            } else {
                None
            },
            _ => None,
        },
        None => None,
    };
    (resolve_answer(operation, target), words)
}

/// The words an answer to "what should go in this field?" brings: the
/// `text` of the JSON object in the desk's file, or nothing when it has none.
pub open spec fn written_words(fields: Option<Seq<(Seq<char>, JsonFieldView)>>) -> Seq<char> {
    match fields {
        Some(f) => match field_in(f, "text"@) {
            Some(JsonFieldView::Text(t)) => t,
            _ => Seq::empty(),
        },
        None => Seq::empty(),
    }
}

/// Read the words an answer file brings for a field.
pub fn words_from(raw: &str) -> (r: String)
    ensures
        r@ == written_words(json_fields(raw@)),
{
    let fields = match read_json_fields(raw) {
        Some(f) => f,
        None => {
            return String::new();
        },
    };
    match find_field(&fields, "text") {
        Some(i) => match &fields[i].1 {
            JsonField::Text(t) => t.clone(),
            _ => String::new(),
        },
        None => String::new(),
    }
}

/// The first text given for a field whose description names it, ignoring
/// case: a text for `email` is typed into `Email address`.
pub open spec fn supplied_from(texts: Seq<(Seq<char>, Seq<char>)>, field: Seq<char>) -> Option<Seq<char>>
    decreases texts.len(),
{
    if texts.len() == 0 {
        None
    } else if contains(lowercase(field), lowercase(texts[0].0)) {
        Some(texts[0].1)
    } else {
        supplied_from(texts.drop_first(), field)
    }
}

/// The text given up front for a field, when one was: looked up by the
/// field's description.
pub fn supplied(texts: &Vec<(String, String)>, field: &str) -> (r: Option<String>)
    ensures
        match supplied_from(crate::judgment::option_texts(texts@), field@) {
            Some(t) => r matches Some(x) && x@ == t,
            None => r is None,
        },
{
    let ghost all = crate::judgment::option_texts(texts@);
    let wanted = crate::text::to_lowercase(field);
    let wanted_chars = crate::text::chars_of(wanted.as_str());
    let mut i: usize = 0;
    assert(all.skip(0) =~= all);
    while i < texts.len()
        invariant
            i <= texts@.len(),
            all == crate::judgment::option_texts(texts@),
            wanted_chars@ == lowercase(field@),
            supplied_from(all, field@) == supplied_from(all.skip(i as int), field@),
        decreases texts@.len() - i,
    {
        let ghost rest = all.skip(i as int);
        assert(rest[0] == (texts@[i as int].0@, texts@[i as int].1@));
        let name = crate::text::to_lowercase(texts[i].0.as_str());
        let name_chars = crate::text::chars_of(name.as_str());
        if crate::text::contains_chars(wanted_chars.as_slice(), name_chars.as_slice()) {
            return Some(texts[i].1.clone());
        }
        assert(rest.drop_first() =~= all.skip(i + 1));
        i = i + 1;
    }
    None
}

} // verus!
