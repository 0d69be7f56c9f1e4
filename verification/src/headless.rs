//! The JSON and print modes.
//!
//! JSON mode reads one prompt per line and writes events as JSON lines. Print mode runs the
//! prompts of the command line, the first with what was piped in, and prints the answers.

use crate::json;
use crate::json::{JVal, Json};
use crate::model::{Model, ModelView};
use crate::rpc;
use crate::text;
use vstd::prelude::*;
use vstd::string::*;

verus! {

/// The event that begins a session.
pub open spec fn start_event(model: Option<ModelView>) -> JVal {
    JVal::Object(
        map![
            "type"@ => JVal::Str("session_start"@),
            "model"@ => JVal::Str(match model { Some(m) => m.id, None => "unknown"@ }),
            "provider"@ => JVal::Str(match model { Some(m) => m.provider, None => "unknown"@ }),
        ],
    )
}

/// The event that begins a session.
pub fn session_start(model: &Option<Model>) -> (r: Json)
    ensures
        r@ == start_event(
            match *model {
                Some(m) => Some(m@),
                None => None,
            },
        ),
{
    let (id, provider) = match model {
        Some(m) => (m.id.as_str(), m.provider.as_str()),
        None => ("unknown", "unknown"),
    };
    Json::object().with("type", Json::of_str("session_start")).with("model", Json::of_str(id)).with(
        "provider",
        Json::of_str(provider),
    )
}

/// The event that ends a session.
pub open spec fn end_event() -> JVal {
    JVal::Object(map!["type"@ => JVal::Str("session_end"@)])
}

/// The event that ends a session.
pub fn session_end() -> (r: Json)
    ensures
        r@ == end_event(),
{
    Json::object().with("type", Json::of_str("session_end"))
}

/// The event that begins a turn.
pub open spec fn turn_event(prompt: Seq<char>) -> JVal {
    JVal::Object(
        map!["type"@ => JVal::Str("turn_start"@), "message"@ => JVal::Str(prompt)],
    )
}

/// The prompt in a line with the event that begins its turn; nothing in a blank line.
pub open spec fn line_prompt(line: Seq<char>) -> Option<(Seq<char>, JVal)> {
    let prompt = text::trimmed(line);
    if prompt.len() == 0 {
        None
    } else {
        Some((prompt, turn_event(prompt)))
    }
}

/// The prompt in a line with the event that begins its turn; nothing in a blank line.
pub fn prompt_line(line: &str) -> (r: Option<(String, Json)>)
    ensures
        (match r {
            Some((prompt, ev)) => Some((prompt@, ev@)),
            None => None,
        }) == line_prompt(line@),
{
    let prompt = text::trim(line);
    if prompt.as_str().is_empty() {
        return None;
    }
    let ev = Json::object().with("type", Json::of_str("turn_start")).with(
        "message",
        Json::of_str(prompt.as_str()),
    );
    Some((prompt, ev))
}

/// The events that end a turn: the answer where it is not empty, and the end; or the error.
pub open spec fn turn_events(outcome: Result<Seq<char>, Seq<char>>) -> Seq<JVal> {
    let end = JVal::Object(
        map!["type"@ => JVal::Str("turn_end"@), "stop_reason"@ => JVal::Str("stop"@)],
    );
    match outcome {
        Ok(answer) => if answer.len() > 0 {
            seq![
                JVal::Object(map!["type"@ => JVal::Str("delta"@), "delta"@ => JVal::Str(answer)]),
                end,
            ]
        } else {
            seq![end]
        },
        Err(m) => seq![
            JVal::Object(map!["type"@ => JVal::Str("error"@), "message"@ => JVal::Str(m)]),
        ],
    }
}

/// The events that end a turn which ended in an answer or an error message.
pub fn turn_end(outcome: Result<String, String>) -> (r: Vec<Json>)
    ensures
        r@.map_values(|j: Json| j@) == turn_events(rpc::outcome_view(outcome)),
{
    let mut out: Vec<Json> = Vec::new();
    match &outcome {
        Ok(t) => {
            if !t.as_str().is_empty() {
                out.push(
                    Json::object().with("type", Json::of_str("delta")).with(
                        "delta",
                        Json::of_str(t.as_str()),
                    ),
                );
            }
            out.push(
                Json::object().with("type", Json::of_str("turn_end")).with(
                    "stop_reason",
                    Json::of_str("stop"),
                ),
            );
        },
        Err(m) => {
            out.push(
                Json::object().with("type", Json::of_str("error")).with(
                    "message",
                    Json::of_str(m.as_str()),
                ),
            );
        },
    }
    assert(views(out@) =~= turn_events(rpc::outcome_view(outcome)));
    out
}

spec fn views(s: Seq<Json>) -> Seq<JVal> {
    s.map_values(|j: Json| j@)
}

/// What print mode shows.
#[derive(Debug, PartialEq, Eq)]
pub enum Printed {
    Nothing,
    /// on standard output
    Answer(String),
    /// on standard error
    Error(String),
}

/// What a `Printed` denotes.
pub enum PrintedView {
    Nothing,
    Answer(Seq<char>),
    Error(Seq<char>),
}

impl View for Printed {
    type V = PrintedView;

    open spec fn view(&self) -> PrintedView {
        match self {
            Printed::Nothing => PrintedView::Nothing,
            Printed::Answer(t) => PrintedView::Answer(t@),
            Printed::Error(t) => PrintedView::Error(t@),
        }
    }
}

/// What print mode shows of a prompt's outcome: an answer that is not empty, or the error.
pub open spec fn print_of(outcome: Result<Seq<char>, Seq<char>>) -> PrintedView {
    match outcome {
        Ok(t) => if t.len() == 0 {
            PrintedView::Nothing
        } else {
            PrintedView::Answer(t)
        },
        Err(m) => PrintedView::Error("错误: "@ + m),
    }
}

/// What print mode shows of a prompt's outcome: an answer that is not empty, or the error.
pub fn printed(outcome: Result<String, String>) -> (r: Printed)
    ensures
        r@ == print_of(rpc::outcome_view(outcome)),
{
    match outcome {
        Ok(t) => if t.as_str().is_empty() {
            Printed::Nothing
        } else {
            Printed::Answer(t)
        },
        Err(m) => Printed::Error(text::cat("错误: ", m.as_str())),
    }
}

/// The prompts that are not empty, in order.
pub open spec fn nonempty(s: Seq<Seq<char>>) -> Seq<Seq<char>>
    decreases s.len(),
{
    if s.len() == 0 {
        Seq::empty()
    } else if s.last().len() > 0 {
        nonempty(s.drop_last()).push(s.last())
    } else {
        nonempty(s.drop_last())
    }
}

/// The prompts with the text of a pipe, where it is not blank, put in front of the first.
pub open spec fn with_piped(s: Seq<Seq<char>>, piped: Option<Seq<char>>) -> Seq<Seq<char>> {
    match piped {
        Some(t) => if text::trimmed(t).len() == 0 {
            s
        } else if s.len() == 0 {
            seq![t]
        } else {
            s.update(0, t + "\n"@ + s[0])
        },
        None => s,
    }
}

/// The prompts that print mode runs, with what was piped in: all that are not empty.
pub fn print_prompts(prompts: &Vec<String>, piped: Option<&str>) -> (r: Vec<String>)
    ensures
        text::strs(r@) == nonempty(with_piped(text::strs(prompts@), text::opt_slice(piped))),
{
    let all = prompts_with(prompts, piped);
    let ghost s = text::strs(all@);
    let mut out: Vec<String> = Vec::new();
    let mut i: usize = 0;
    assert(s.take(0) =~= Seq::<Seq<char>>::empty());
    assert(text::strs(out@) =~= Seq::<Seq<char>>::empty());
    while i < all.len()
        invariant
            i <= all@.len(),
            s == text::strs(all@),
            text::strs(out@) == nonempty(s.take(i as int)),
        decreases all@.len() - i,
    {
        proof {
            assert(s.take(i + 1).drop_last() =~= s.take(i as int));
            assert(s.take(i + 1).last() == all@[i as int]@);
        }
        if !all[i].as_str().is_empty() {
            let t = all[i].clone();
            let ghost before = out@;
            out.push(t);
            assert(text::strs(out@) =~= text::strs(before).push(t@));
        }
        i += 1;
    }
    assert(s.take(s.len() as int) =~= s);
    out
}

fn prompts_with(prompts: &Vec<String>, piped: Option<&str>) -> (r: Vec<String>)
    ensures
        text::strs(r@) == with_piped(text::strs(prompts@), text::opt_slice(piped)),
{
    let mut out = text::clone_strings(prompts);
    assert(text::strs(out@).len() == out@.len());
    if let Some(t) = piped {
        if !text::is_blank(t) {
            if out.len() == 0 {
                out.push(t.to_owned());
                assert(text::strs(out@) =~= seq![t@]);
            } else {
                let ghost before = out@;
                let mut first = text::cat(t, "\n");
                first.append(out[0].as_str());
                out.set(0, first);
                assert(text::strs(out@) =~= text::strs(before).update(0, first@));
                assert(text::strs(before)[0] == before[0]@);
            }
        }
    }
    out
}

// ---- laws ---------------------------------------------------------------------------------------

proof fn lemma_members()
    ensures
        "type"@ != "model"@,
        "type"@ != "provider"@,
        "type"@ != "message"@,
        "type"@ != "delta"@,
        "type"@ != "stop_reason"@,
        "model"@ != "provider"@,
{
    reveal_strlit("type");
    reveal_strlit("model");
    reveal_strlit("provider");
    reveal_strlit("message");
    reveal_strlit("delta");
    reveal_strlit("stop_reason");
    assert("type"@.len() != "model"@.len());
    assert("type"@.len() != "provider"@.len());
    assert("type"@.len() != "message"@.len());
    assert("type"@.len() != "delta"@.len());
    assert("type"@.len() != "stop_reason"@.len());
    assert("model"@.len() != "provider"@.len());
}


/// A session begins with an event that names its model and provider, or says that they are
/// unknown, and ends with one of its own.
pub proof fn sessions_tell_their_model(m: ModelView)
    ensures
        json::opt_str_value(json::member(start_event(Some(m)), "type"@)) == Some("session_start"@),
        json::opt_str_value(json::member(start_event(Some(m)), "model"@)) == Some(m.id),
        json::opt_str_value(json::member(start_event(Some(m)), "provider"@)) == Some(m.provider),
        json::opt_str_value(json::member(start_event(None), "type"@)) == Some("session_start"@),
        json::opt_str_value(json::member(start_event(None), "model"@)) == Some("unknown"@),
        json::opt_str_value(json::member(start_event(None), "provider"@)) == Some("unknown"@),
        json::opt_str_value(json::member(end_event(), "type"@)) == Some("session_end"@),
{
    lemma_members();
}

/// A turn begins with its prompt. An answer that is not empty is told whole before the turn's
/// end; an empty one is not told; a failed turn tells its error alone.
pub proof fn turns_tell_their_answers(prompt: Seq<char>, answer: Seq<char>, m: Seq<char>)
    ensures
        json::opt_str_value(json::member(turn_event(prompt), "type"@)) == Some("turn_start"@),
        json::opt_str_value(json::member(turn_event(prompt), "message"@)) == Some(prompt),
        ({
            let s = turn_events(Ok(answer));
            &&& s.len() == (if answer.len() > 0 {
                2int
            } else {
                1int
            })
            &&& answer.len() > 0 ==> json::opt_str_value(json::member(s[0], "type"@)) == Some(
                "delta"@,
            ) && json::opt_str_value(json::member(s[0], "delta"@)) == Some(answer)
            &&& json::opt_str_value(json::member(s.last(), "type"@)) == Some("turn_end"@)
            &&& json::opt_str_value(json::member(s.last(), "stop_reason"@)) == Some("stop"@)
        }),
        turn_events(Err(m)).len() == 1,
        json::opt_str_value(json::member(turn_events(Err(m))[0], "type"@)) == Some("error"@),
        json::opt_str_value(json::member(turn_events(Err(m))[0], "message"@)) == Some(m),
{
    lemma_members();
}

/// Every prompt that is not empty is run, in order, and no other.
pub proof fn prompts_are_run_in_order(s: Seq<Seq<char>>, p: Seq<char>)
    ensures
        nonempty(Seq::empty()).len() == 0,
        p.len() > 0 ==> nonempty(s.push(p)) == nonempty(s).push(p),
        p.len() == 0 ==> nonempty(s.push(p)) == nonempty(s),
{
    assert(s.push(p).drop_last() =~= s);
}

/// What was piped in stands before the first prompt, on lines of its own, and is the prompt
/// where there is none; a blank pipe changes nothing, and no pipe touches the other prompts.
pub proof fn pipe_goes_first(first: Seq<char>, rest: Seq<Seq<char>>, piped: Seq<char>)
    ensures
        with_piped(seq![first] + rest, None) == seq![first] + rest,
        text::trimmed(piped).len() > 0 ==> with_piped(seq![first] + rest, Some(piped)) == seq![
            piped + "\n"@ + first,
        ] + rest,
        text::trimmed(piped).len() > 0 ==> with_piped(Seq::empty(), Some(piped)) == seq![piped],
        text::trimmed(piped).len() == 0 ==> with_piped(seq![first] + rest, Some(piped)) == seq![
            first,
        ] + rest,
        text::trimmed(piped).len() == 0 ==> with_piped(Seq::empty(), Some(piped)).len() == 0,
        with_piped(Seq::empty(), None).len() == 0,
{
    let s = seq![first] + rest;
    assert(s[0] == first);
    assert(s.update(0, piped + "\n"@ + first) =~= seq![piped + "\n"@ + first] + rest);
}

/// A line is a prompt without the white space round it, and begins a turn with it; a blank line
/// is none.
pub proof fn lines_are_prompts(a: Seq<char>, prompt: Seq<char>, b: Seq<char>)
    requires
        forall|i: int| 0 <= i < a.len() ==> text::white_space(#[trigger] a[i]),
        forall|i: int| 0 <= i < b.len() ==> text::white_space(#[trigger] b[i]),
        prompt.len() > 0 ==> !text::white_space(prompt[0]) && !text::white_space(prompt.last()),
    ensures
        prompt.len() == 0 ==> line_prompt(a + prompt + b) is None,
        prompt.len() > 0 ==> (line_prompt(a + prompt + b) matches Some((p, ev)) && p == prompt
            && json::opt_str_value(json::member(ev, "message"@)) == Some(prompt)),
{
    text::trimming_takes_the_middle(a, prompt, b);
    lemma_members();
}

/// An answer is printed as it is, an empty one not at all, and an error with a word before it.
pub proof fn answers_are_printed(t: Seq<char>)
    ensures
        t.len() > 0 ==> print_of(Ok(t)) == PrintedView::Answer(t),
        t.len() == 0 ==> print_of(Ok(t)) is Nothing,
        print_of(Err(t)) == PrintedView::Error("错误: "@ + t),
{
}

} // verus!
