//! What a tool call to the pilot's server stands for.
//!
//! The server itself — the protocol, the child processes it starts, the
//! files it watches — is the caller's business. What a call means is decided
//! here: which run it is about, the command line it becomes, what an answer
//! writes, and what a run's desk says about it.
use crate::snapshot::{text_of, texts};
use crate::text::{first_from, trim};
use vstd::prelude::*;

verus! {

/// Which device a call is about, when more than one is attached.
#[derive(Debug, Clone, PartialEq, Eq)]
pub struct Which {
    /// Which device, when more than one is attached.
    pub device: Option<String>,
}

/// What the helper tool takes.
#[derive(Debug, Clone, PartialEq, Eq)]
pub struct HelperArgs {
    /// Which device, when more than one is attached.
    pub device: Option<String>,
    /// Install and enable it, rather than only reporting.
    pub install: Option<bool>,
}

/// What answering a run takes.
#[derive(Debug, Clone, PartialEq, Eq)]
pub struct AnswerArgs {
    /// Which device's run, when more than one is being driven.
    pub device: Option<String>,
    /// One of the operations the run listed, or `stop` to end it.
    pub operation: Option<String>,
    /// Which row, or which field when typing, counting from zero.
    pub target: Option<u32>,
    /// The words, when it asked for some.
    pub text: Option<String>,
}

/// The arguments of a tool call, as far as they say anything a command line
/// can carry: each present only when the call gave it with the right shape.
#[derive(Debug, Clone, PartialEq, Eq)]
pub struct ToolCall {
    /// `device`, when it is a string.
    pub device: Option<String>,
    /// `install`, when it is a boolean.
    pub install: Option<bool>,
    /// `goal`, when it is a string.
    pub goal: Option<String>,
    /// `app`, when it is a string.
    pub app: Option<String>,
    /// The strings among `accept`, in order.
    pub accept: Vec<String>,
    /// The string entries of `text`, by field, in the order they are held.
    pub text: Vec<(String, String)>,
    /// `steps`, when it is a whole number.
    pub steps: Option<u64>,
    /// `floor`, when it is a number, written as a number is written.
    pub floor: Option<String>,
}

/// What came of waiting on a run.
#[derive(Debug, Clone, PartialEq, Eq)]
pub enum Waited {
    /// It stopped to ask, and this is what it wants.
    Asking(String),
    /// It is over, and this is how it went.
    Ended(String),
    /// Neither yet. The caller was given its time back rather than held.
    StillGoing,
}

/// How long a call waits on a run before handing the caller its time back,
/// in seconds.
pub const PATIENCE_SECONDS: u64 = 45;

/// How often a waited-on run is looked at, in milliseconds.
pub const LOOKED_AT_EVERY_MS: u64 = 20;

/// `parts` joined with `", "` between them.
pub open spec fn listed(parts: Seq<Seq<char>>) -> Seq<char>
    decreases parts.len(),
{
    if parts.len() == 0 {
        Seq::empty()
    } else if parts.len() == 1 {
        parts[0]
    } else {
        listed(parts.drop_last()) + ", "@ + parts.last()
    }
}

/// `parts` joined with `", "`.
fn join_listed(parts: &Vec<String>) -> (r: String)
    ensures
        r@ == listed(texts(parts@)),
{
    let ghost all = texts(parts@);
    let mut out = String::new();
    let mut i: usize = 0;
    while i < parts.len()
        invariant
            i <= parts@.len(),
            all == texts(parts@),
            out@ == listed(all.take(i as int)),
        decreases parts@.len() - i,
    {
        assert(all.take(i + 1).drop_last() =~= all.take(i as int));
        assert(all.take(i + 1).last() == parts@[i as int]@);
        if i > 0 {
            crate::text::push_str(&mut out, ", ");
        } else {
            assert(all.take(0) =~= Seq::<Seq<char>>::empty());
            assert(out@ =~= Seq::<char>::empty());
        }
        crate::text::push_str(&mut out, parts[i].as_str());
        assert(out@ =~= listed(all.take(i + 1)));
        i = i + 1;
    }
    assert(all.take(i as int) =~= all);
    out
}

/// Which run a call is about: the one on the device it names, or, when it
/// names none, the only one there is; otherwise what to tell the caller.
pub open spec fn chosen_run(asked: Option<Seq<char>>, running: Seq<Seq<char>>) -> Result<Seq<char>, Seq<char>> {
    match asked {
        Some(device) => if running.contains(device) {
            Ok(device)
        } else if running.len() == 0 {
            Err("nothing is being driven, so no run on "@ + device)
        } else {
            Err("no run on "@ + device + "; these are being driven: "@ + listed(running))
        },
        None => if running.len() == 1 {
            Ok(running[0])
        } else if running.len() == 0 {
            Err("no run is in flight; start_run begins one"@)
        } else {
            Err("more than one run is in flight; name a device: "@ + listed(running))
        },
    }
}

/// Which run a call is about.
///
/// A run is named by the device it drives: two runs on one phone would take
/// turns at the same screen, each undoing what the other had just done.
/// Refused, with what to say to the caller, when there is no such run, or
/// when there is more than one and the call did not say which.
pub fn which_run(asked: Option<&str>, running: &Vec<String>) -> (r: Result<String, String>)
    ensures
        match chosen_run(
            match asked {
                Some(a) => Some(a@),
                None => None,
            },
            texts(running@),
        ) {
            Ok(d) => r matches Ok(x) && x@ == d,
            Err(m) => r matches Err(x) && x@ == m,
        },
{
    let ghost names = texts(running@);
    match asked {
        Some(device) => {
            let mut i: usize = 0;
            while i < running.len()
                invariant
                    i <= running@.len(),
                    names == texts(running@),
                    asked == Some(device),
                    forall|k: int| 0 <= k < i ==> names[k] != device@,
                decreases running@.len() - i,
            {
                assert(names[i as int] == running@[i as int]@);
                if crate::text::same_text(running[i].as_str(), device) {
                    assert(names.contains(device@));
                    return Ok(String::from_str(device));
                }
                i = i + 1;
            }
            if running.len() == 0 {
                let mut m = String::from_str("nothing is being driven, so no run on ");
                crate::text::push_str(&mut m, device);
                Err(m)
            } else {
                let mut m = String::from_str("no run on ");
                crate::text::push_str(&mut m, device);
                crate::text::push_str(&mut m, "; these are being driven: ");
                crate::text::push_str(&mut m, join_listed(running).as_str());
                Err(m)
            }
        },
        None => {
            if running.len() == 1 {
                assert(names[0] == running@[0]@);
                Ok(running[0].clone())
            } else if running.len() == 0 {
                Err(String::from_str("no run is in flight; start_run begins one"))
            } else {
                let mut m = String::from_str("more than one run is in flight; name a device: ");
                crate::text::push_str(&mut m, join_listed(running).as_str());
                Err(m)
            }
        },
    }
}

/// The `--text` argument for one field: `field=words`.
pub open spec fn text_argument(entry: (Seq<char>, Seq<char>)) -> Seq<char> {
    entry.0 + "="@ + entry.1
}

/// `--accept` before each claim.
pub open spec fn accept_arguments(claims: Seq<Seq<char>>) -> Seq<Seq<char>>
    decreases claims.len(),
{
    if claims.len() == 0 {
        Seq::empty()
    } else {
        accept_arguments(claims.drop_last()) + seq!["--accept"@, claims.last()]
    }
}

/// `--text` before each `field=words`.
pub open spec fn text_arguments(entries: Seq<(Seq<char>, Seq<char>)>) -> Seq<Seq<char>>
    decreases entries.len(),
{
    if entries.len() == 0 {
        Seq::empty()
    } else {
        text_arguments(entries.drop_last()) + seq!["--text"@, text_argument(entries.last())]
    }
}

/// The command line a tool call stands for, or nothing when the tool is not
/// one of ours or a run is asked for without a goal.
pub open spec fn command_for_call(tool: Seq<char>, call: ToolCall) -> Option<Seq<Seq<char>>> {
    let head = match text_of(call.device) {
        Some(d) => seq!["--device"@, d],
        None => Seq::empty(),
    };
    if tool == "observe"@ {
        Some(head.push("observe"@))
    } else if tool == "devices"@ {
        Some(head.push("devices"@))
    } else if tool == "helper"@ {
        Some(
            if call.install == Some(true) {
                head + seq!["helper"@, "install"@]
            } else {
                head.push("helper"@)
            },
        )
    } else if tool == "start_run"@ {
        match text_of(call.goal) {
            None => None,
            Some(goal) => {
                let app = match text_of(call.app) {
                    Some(a) => seq!["--app"@, a],
                    None => Seq::empty(),
                };
                let steps = match call.steps {
                    Some(n) => seq!["--steps"@, crate::text::decimal(n as nat)],
                    None => Seq::empty(),
                };
                let floor = match text_of(call.floor) {
                    Some(f) => seq!["--floor"@, f],
                    None => Seq::empty(),
                };
                Some(
                    head + app + accept_arguments(texts(call.accept@)) + text_arguments(
                        crate::judgment::option_texts(call.text@),
                    ) + steps + floor + seq![goal],
                )
            },
        }
    } else {
        None
    }
}

/// Push `a` then `b`.
fn push_pair(args: &mut Vec<String>, a: &str, b: String)
    ensures
        texts(final(args)@) == texts(old(args)@) + seq![a@, b@],
{
    let ghost before = texts(args@);
    args.push(String::from_str(a));
    args.push(b);
    assert(texts(args@) =~= before + seq![a@, b@]);
}

/// The command line one tool call stands for.
///
/// Built as separate arguments rather than a shell string: the goal and the
/// words to type come from whoever is talking to the server, and a string
/// handed to a shell is a string that can carry a second command. `None` when
/// the call is not worth running: a run with no goal is not a run.
pub fn invocation(tool: &str, call: &ToolCall) -> (r: Option<Vec<String>>)
    ensures
        match command_for_call(tool@, *call) {
            Some(words) => r matches Some(v) && texts(v@) == words,
            None => r is None,
        },
{
    let mut args: Vec<String> = Vec::new();
    match &call.device {
        Some(d) => push_pair(&mut args, "--device", d.clone()),
        None => {},
    }
    let ghost head = texts(args@);
    assert(head =~= match text_of(call.device) {
        Some(d) => seq!["--device"@, d],
        None => Seq::<Seq<char>>::empty(),
    });
    if crate::text::same_text(tool, "observe") {
        args.push(String::from_str("observe"));
        assert(texts(args@) =~= head.push("observe"@));
        return Some(args);
    }
    if crate::text::same_text(tool, "devices") {
        args.push(String::from_str("devices"));
        assert(texts(args@) =~= head.push("devices"@));
        return Some(args);
    }
    if crate::text::same_text(tool, "helper") {
        args.push(String::from_str("helper"));
        let install = match call.install {
            Some(b) => b,
            None => false,
        };
        if install {
            args.push(String::from_str("install"));
            assert(texts(args@) =~= head + seq!["helper"@, "install"@]);
        } else {
            assert(texts(args@) =~= head.push("helper"@));
        }
        return Some(args);
    }
    if !crate::text::same_text(tool, "start_run") {
        return None;
    }
    let goal = match &call.goal {
        Some(g) => g.clone(),
        None => {
            return None;
        },
    };
    match &call.app {
        Some(a) => push_pair(&mut args, "--app", a.clone()),
        None => {},
    }
    let ghost with_app = texts(args@);
    let ghost claims = texts(call.accept@);
    let mut i: usize = 0;
    while i < call.accept.len()
        invariant
            i <= call.accept@.len(),
            claims == texts(call.accept@),
            texts(args@) == with_app + accept_arguments(claims.take(i as int)),
        decreases call.accept@.len() - i,
    {
        assert(claims.take(i + 1).drop_last() =~= claims.take(i as int));
        assert(claims.take(i + 1).last() == call.accept@[i as int]@);
        push_pair(&mut args, "--accept", call.accept[i].clone());
        assert(texts(args@) =~= with_app + accept_arguments(claims.take(i + 1)));
        i = i + 1;
    }
    assert(claims.take(i as int) =~= claims);
    let ghost with_accept = texts(args@);
    let ghost entries = crate::judgment::option_texts(call.text@);
    let mut k: usize = 0;
    while k < call.text.len()
        invariant
            k <= call.text@.len(),
            entries == crate::judgment::option_texts(call.text@),
            texts(args@) == with_accept + text_arguments(entries.take(k as int)),
        decreases call.text@.len() - k,
    {
        assert(entries.take(k + 1).drop_last() =~= entries.take(k as int));
        assert(entries.take(k + 1).last() == (call.text@[k as int].0@, call.text@[k as int].1@));
        let mut said = call.text[k].0.clone();
        said.push('=');
        crate::text::push_str(&mut said, call.text[k].1.as_str());
        proof {
            reveal_strlit("=");
        }
        assert(said@ =~= text_argument(entries[k as int]));
        push_pair(&mut args, "--text", said);
        assert(texts(args@) =~= with_accept + text_arguments(entries.take(k + 1)));
        k = k + 1;
    }
    assert(entries.take(k as int) =~= entries);
    match call.steps {
        Some(n) => push_pair(&mut args, "--steps", crate::text::decimal_text(n)),
        None => {},
    }
    match &call.floor {
        Some(f) => push_pair(&mut args, "--floor", f.clone()),
        None => {},
    }
    let ghost before_goal = texts(args@);
    args.push(goal);
    assert(texts(args@) =~= before_goal.push(texts(args@).last()));
    assert(texts(args@) =~= command_for_call(tool@, *call)->Some_0);
    Some(args)
}

/// One field of an answer written to a run's desk.
#[derive(Debug, Clone, PartialEq, Eq)]
pub enum AnswerValue {
    /// A string.
    Text(String),
    /// A whole number.
    Number(u64),
}

/// What an answer to an impasse writes to the desk: the operation, the
/// target and the text, each when given, in that order; nothing when none
/// is, since an empty answer would let a run act on an empty file.
pub fn answer_from(operation: Option<&str>, target: Option<u64>, text: Option<&str>) -> (r: Option<Vec<(String, AnswerValue)>>)
    ensures
        r is None <==> (operation is None && target is None && text is None),
        r matches Some(v) ==> ({
            let keys = v@.map_values(|p: (String, AnswerValue)| p.0@);
            &&& keys == (if operation is Some { seq!["operation"@] } else { Seq::empty() }) + (if target is Some {
                seq!["target"@]
            } else {
                Seq::empty()
            }) + (if text is Some { seq!["text"@] } else { Seq::empty() })
            &&& forall|j: int| 0 <= j < v@.len() ==> match #[trigger] v@[j].1 {
                AnswerValue::Text(t) => (keys[j] == "operation"@ && (operation matches Some(o) && t@ == o@)) || (keys[j]
                    == "text"@ && (text matches Some(x) && t@ == x@)),
                AnswerValue::Number(n) => keys[j] == "target"@ && target == Some(n),
            }
        }),
{
    let mut answer: Vec<(String, AnswerValue)> = Vec::new();
    match operation {
        Some(o) => {
            answer.push((String::from_str("operation"), AnswerValue::Text(String::from_str(o))));
        },
        None => {},
    }
    match target {
        Some(n) => {
            answer.push((String::from_str("target"), AnswerValue::Number(n)));
        },
        None => {},
    }
    match text {
        Some(t) => {
            answer.push((String::from_str("text"), AnswerValue::Text(String::from_str(t))));
        },
        None => {},
    }
    proof {
        let keys = answer@.map_values(|p: (String, AnswerValue)| p.0@);
        assert(keys =~= (if operation is Some { seq!["operation"@] } else { Seq::empty() }) + (if target is Some {
            seq!["target"@]
        } else {
            Seq::empty()
        }) + (if text is Some { seq!["text"@] } else { Seq::empty() }));
        reveal_strlit("operation");
        reveal_strlit("target");
        reveal_strlit("text");
    }
    if answer.len() == 0 {
        None
    } else {
        Some(answer)
    }
}

/// How a run ended, from what it printed: everything from the last thing it
/// says, `ending : ...`, on its own line, trimmed.
pub open spec fn ending_in(log: Seq<char>) -> Option<Seq<char>> {
    match first_from(log, "\nending : "@, 0) {
        Some(at) => Some(trim(log.skip(at))),
        None => None,
    }
}

/// How a run ended, if what it printed says.
pub fn ended_from(log: &str) -> (r: Option<String>)
    ensures
        match ending_in(log@) {
            Some(e) => r matches Some(x) && x@ == e,
            None => r is None,
        },
{
    let chars = crate::text::chars_of(log);
    let mark = crate::text::chars_of("\nending : ");
    match crate::text::find_from(chars.as_slice(), mark.as_slice(), 0) {
        Some(at) => {
            let tail = crate::text::slice_of(chars.as_slice(), at, chars.len());
            assert(tail@ =~= log@.skip(at as int));
            let t = crate::text::trim_chars(tail.as_slice());
            Some(crate::text::string_of(t.as_slice()))
        },
        None => None,
    }
}

/// What a desk says about a run: its steps so far, and then whether it is
/// waiting for an answer, over, or working.
pub open spec fn status_text(steps: Option<Seq<char>>, asking: Option<Seq<char>>, ended: Option<Seq<char>>) -> Seq<char> {
    let first = match steps {
        Some(s) if trim(s).len() > 0 => "steps so far:\n"@ + s,
        _ => "no steps yet\n"@,
    };
    first + match asking {
        Some(q) => "\nit is waiting for an answer:\n"@ + q,
        None => match ended {
            Some(how) => "\nit is over:\n"@ + how + "\n"@,
            None => "\nit is working, and not waiting for anything\n"@,
        },
    }
}

/// How a run is getting on, from its desk: what its step log holds, the
/// question lying there if there is one, and how it ended if it has.
pub fn status_from(steps: Option<&str>, asking: Option<&str>, ended: Option<&str>) -> (r: String)
    ensures
        r@ == status_text(
            match steps {
                Some(s) => Some(s@),
                None => None,
            },
            match asking {
                Some(q) => Some(q@),
                None => None,
            },
            match ended {
                Some(e) => Some(e@),
                None => None,
            },
        ),
{
    let mut said = String::new();
    let written = match steps {
        Some(s) => {
            let chars = crate::text::chars_of(s);
            let t = crate::text::trim_chars(chars.as_slice());
            t.len() > 0
        },
        None => false,
    };
    if written {
        crate::text::push_str(&mut said, "steps so far:\n");
        match steps {
            Some(s) => crate::text::push_str(&mut said, s),
            None => {},
        }
    } else {
        crate::text::push_str(&mut said, "no steps yet\n");
    }
    match asking {
        Some(q) => {
            crate::text::push_str(&mut said, "\nit is waiting for an answer:\n");
            crate::text::push_str(&mut said, q);
        },
        None => match ended {
            Some(how) => {
                crate::text::push_str(&mut said, "\nit is over:\n");
                crate::text::push_str(&mut said, how);
                crate::text::push_str(&mut said, "\n");
            },
            None => {
                crate::text::push_str(&mut said, "\nit is working, and not waiting for anything\n");
            },
        },
    }
    said
}

/// What one look at a run's desk, while waiting on it, settles: the question
/// lying there, unless it is the one just answered; else how the run ended;
/// else, once the wait is over, that it is still going; else nothing yet.
pub fn waited_from(question: Option<&str>, answered: Option<&str>, ended: Option<&str>, out_of_time: bool) -> (r: Option<Waited>)
    ensures
        match question {
            Some(q) if !(answered matches Some(a) && a@ == q@) => r matches Some(Waited::Asking(x)) && x@ == q@,
            _ => match ended {
                Some(how) => r matches Some(Waited::Ended(x)) && x@ == how@,
                None => if out_of_time {
                    r == Some(Waited::StillGoing)
                } else {
                    r is None
                },
            },
        },
{
    match question {
        Some(q) => {
            let same = match answered {
                Some(a) => crate::text::same_text(a, q),
                None => false,
            };
            if !same {
                return Some(Waited::Asking(String::from_str(q)));
            }
        },
        None => {},
    }
    match ended {
        Some(how) => Some(Waited::Ended(String::from_str(how))),
        None => if out_of_time {
            Some(Waited::StillGoing)
        } else {
            None
        },
    }
}

} // verus!
