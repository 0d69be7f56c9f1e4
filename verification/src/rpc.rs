//! RPC mode: one JSON command per line in, one JSON value per line out.
//!
//! A `prompt` command is accepted at once; its answer follows as events. `abort`, `clear`
//! and `ping` are answered at once. Everything else is an error.

use crate::json;
use crate::json::{JVal, Json};
use crate::text;
use vstd::prelude::*;
use vstd::string::*;

verus! {

/// What to do with a command.
#[derive(Debug)]
pub enum RpcStep {
    /// Nothing: the line was blank.
    Ignore,
    /// Send this.
    Reply(Json),
    /// Make a new session, then send this.
    Clear(Json),
    /// Send `reply`, run the prompt, then send what `answer` makes of its outcome.
    Prompt { reply: Json, id: Option<Json>, text: String },
}

/// What an `RpcStep` denotes.
pub enum RpcStepView {
    Ignore,
    Reply(JVal),
    Clear(JVal),
    Prompt { reply: JVal, id: Option<JVal>, text: Seq<char> },
}

impl View for RpcStep {
    type V = RpcStepView;

    open spec fn view(&self) -> RpcStepView {
        match self {
            RpcStep::Ignore => RpcStepView::Ignore,
            RpcStep::Reply(j) => RpcStepView::Reply(j@),
            RpcStep::Clear(j) => RpcStepView::Clear(j@),
            RpcStep::Prompt { reply, id, text } => RpcStepView::Prompt {
                reply: reply@,
                id: opt_id(*id),
                text: text@,
            },
        }
    }
}

/// The view of an optional id.
pub open spec fn opt_id(id: Option<Json>) -> Option<JVal> {
    match id {
        Some(j) => Some(j@),
        None => None,
    }
}

/// An id as it is sent: null where the command had none.
pub open spec fn sent_id(id: Option<JVal>) -> JVal {
    match id {
        Some(j) => j,
        None => JVal::Null,
    }
}

/// The response that a command was carried out.
pub open spec fn success(id: Option<JVal>, command: Seq<char>) -> JVal {
    JVal::Object(
        map![
            "id"@ => sent_id(id),
            "type"@ => JVal::Str("response"@),
            "command"@ => JVal::Str(command),
            "success"@ => JVal::Bool(true),
        ],
    )
}

/// The response to a ping.
pub open spec fn pong(id: Option<JVal>) -> JVal {
    JVal::Object(
        map![
            "id"@ => sent_id(id),
            "type"@ => JVal::Str("response"@),
            "command"@ => JVal::Str("ping"@),
            "success"@ => JVal::Bool(true),
            "message"@ => JVal::Str("pong"@),
        ],
    )
}

/// The response that something went wrong.
pub open spec fn failure(id: Option<JVal>, message: Seq<char>) -> JVal {
    JVal::Object(
        map![
            "id"@ => sent_id(id),
            "type"@ => JVal::Str("response"@),
            "success"@ => JVal::Bool(false),
            "error"@ => JVal::Str(message),
        ],
    )
}

/// What to do with a decoded command.
pub open spec fn command_step(cmd: JVal) -> RpcStepView {
    let id = json::member(cmd, "id"@);
    let kind = json::str_or_empty(json::member(cmd, "type"@));
    if kind == "prompt"@ {
        RpcStepView::Prompt {
            reply: success(id, "prompt"@),
            id,
            text: json::str_or_empty(json::member(cmd, "message"@)),
        }
    } else if kind == "abort"@ {
        RpcStepView::Reply(success(id, "abort"@))
    } else if kind == "clear"@ {
        RpcStepView::Clear(success(id, "clear"@))
    } else if kind == "ping"@ {
        RpcStepView::Reply(pong(id))
    } else {
        RpcStepView::Reply(failure(id, "未知命令: "@ + kind))
    }
}

/// What to do with a line.
pub open spec fn line_step(line: Seq<char>) -> RpcStepView {
    let l = text::trimmed(line);
    if l.len() == 0 {
        RpcStepView::Ignore
    } else {
        match json::parsed(l) {
            Ok(cmd) => command_step(cmd),
            Err(m) => RpcStepView::Reply(failure(None, "无效的 JSON: "@ + m)),
        }
    }
}

fn clone_id(id: Option<&Json>) -> (r: Option<Json>)
    ensures
        opt_id(r) == json::opt_json(id),
{
    match id {
        Some(j) => Some(j.clone()),
        None => None,
    }
}

fn id_value(id: Option<&Json>) -> (r: Json)
    ensures
        r@ == sent_id(json::opt_json(id)),
{
    match id {
        Some(j) => j.clone(),
        None => Json::Null,
    }
}

fn success_reply(id: Option<&Json>, command: &str) -> (r: Json)
    ensures
        r@ == success(json::opt_json(id), command@),
{
    Json::object().with("id", id_value(id)).with("type", Json::of_str("response")).with(
        "command",
        Json::of_str(command),
    ).with("success", Json::Bool(true))
}

/// The response that something went wrong.
pub fn send_error(id: Option<&Json>, message: &str) -> (r: Json)
    ensures
        r@ == failure(json::opt_json(id), message@),
{
    Json::object().with("id", id_value(id)).with("type", Json::of_str("response")).with(
        "success",
        Json::Bool(false),
    ).with("error", Json::of_str(message))
}

/// Decides what to do with a line.
pub fn handle_line(line: &str) -> (r: RpcStep)
    ensures
        r@ == line_step(line@),
{
    let l = text::trim(line);
    if l.as_str().is_empty() {
        return RpcStep::Ignore;
    }
    match json::parse(l.as_str()) {
        Ok(cmd) => handle_command(&cmd),
        Err(m) => RpcStep::Reply(send_error(None, text::cat("无效的 JSON: ", m.as_str()).as_str())),
    }
}

/// Decides what to do with a decoded command.
pub fn handle_command(cmd: &Json) -> (r: RpcStep)
    ensures
        r@ == command_step(cmd@),
{
    let id = cmd.get("id");
    let kind = cmd.text_member("type");
    let kind = kind.as_str();
    if text::str_eq(kind, "prompt") {
        RpcStep::Prompt {
            reply: success_reply(id, "prompt"),
            id: clone_id(id),
            text: cmd.text_member("message"),
        }
    } else if text::str_eq(kind, "abort") {
        RpcStep::Reply(success_reply(id, "abort"))
    } else if text::str_eq(kind, "clear") {
        RpcStep::Clear(success_reply(id, "clear"))
    } else if text::str_eq(kind, "ping") {
        RpcStep::Reply(success_reply(id, "ping").with("message", Json::of_str("pong")))
    } else {
        RpcStep::Reply(send_error(id, text::cat("未知命令: ", kind).as_str()))
    }
}

/// An event as it is sent.
pub open spec fn event(inner: JVal) -> JVal {
    JVal::Object(map!["type"@ => JVal::Str("event"@), "event"@ => inner])
}

/// The event that carries an answer.
pub open spec fn delta_event(answer: Seq<char>) -> JVal {
    event(
        JVal::Object(map!["type"@ => JVal::Str("delta"@), "delta"@ => JVal::Str(answer)]),
    )
}

/// The event that ends a turn.
pub open spec fn end_event() -> JVal {
    event(
        JVal::Object(
            map!["type"@ => JVal::Str("turn_end"@), "stop_reason"@ => JVal::Str("stop"@)],
        ),
    )
}

/// What follows a prompt: the answer where it is not empty, and the end of the turn; or the
/// error.
pub open spec fn outcome_values(
    id: Option<JVal>,
    outcome: Result<Seq<char>, Seq<char>>,
) -> Seq<JVal> {
    match outcome {
        Ok(answer) => if answer.len() > 0 {
            seq![delta_event(answer), end_event()]
        } else {
            seq![end_event()]
        },
        Err(m) => seq![failure(id, m)],
    }
}

/// The view of a prompt's outcome.
pub open spec fn outcome_view(r: Result<String, String>) -> Result<Seq<char>, Seq<char>> {
    match r {
        Ok(t) => Ok(t@),
        Err(m) => Err(m@),
    }
}

/// What to send after a prompt ended in an answer or an error message.
pub fn answer(id: Option<&Json>, outcome: Result<String, String>) -> (r: Vec<Json>)
    ensures
        r@.map_values(|j: Json| j@) == outcome_values(
            json::opt_json(id),
            outcome_view(outcome),
        ),
{
    let mut out: Vec<Json> = Vec::new();
    match &outcome {
        Ok(t) => {
            if !t.as_str().is_empty() {
                out.push(
                    Json::object().with("type", Json::of_str("event")).with(
                        "event",
                        Json::object().with("type", Json::of_str("delta")).with(
                            "delta",
                            Json::of_str(t.as_str()),
                        ),
                    ),
                );
            }
            out.push(
                Json::object().with("type", Json::of_str("event")).with(
                    "event",
                    Json::object().with("type", Json::of_str("turn_end")).with(
                        "stop_reason",
                        Json::of_str("stop"),
                    ),
                ),
            );
        },
        Err(m) => {
            out.push(send_error(id, m.as_str()));
        },
    }
    assert(r_views(out@) =~= outcome_values(json::opt_json(id), outcome_view(outcome)));
    out
}

spec fn r_views(s: Seq<Json>) -> Seq<JVal> {
    s.map_values(|j: Json| j@)
}

/// A value as a line of output, without the line feed that ends it.
pub fn output_line(j: &Json) -> (r: String)
    ensures
        r@ == json::rendered(j@),
        json::single_line(r@),
{
    json::render(j)
}

// ---- laws -----------------------------------------------------------------------------------------

/// Whether a value is a response that carries an id.
pub open spec fn responds_to(v: JVal, id: Option<JVal>) -> bool {
    &&& json::member(v, "id"@) == Some(sent_id(id))
    &&& json::member(v, "type"@) == Some(JVal::Str("response"@))
}

/// Every command is answered with a response under its own id, known or not.
pub proof fn every_command_is_answered(cmd: JVal)
    ensures
        match command_step(cmd) {
            RpcStepView::Ignore => false,
            RpcStepView::Reply(v) => responds_to(v, json::member(cmd, "id"@)),
            RpcStepView::Clear(v) => responds_to(v, json::member(cmd, "id"@)),
            RpcStepView::Prompt { reply, id, .. } => responds_to(
                reply,
                json::member(cmd, "id"@),
            ) && id == json::member(cmd, "id"@),
        },
{
    lemma_reply_members();
}

/// An error is answered under the id of the command, and says that it failed and why.
pub proof fn errors_are_reported(id: Option<JVal>, message: Seq<char>)
    ensures
        responds_to(failure(id, message), id),
        json::member(failure(id, message), "success"@) == Some(JVal::Bool(false)),
        json::member(failure(id, message), "error"@) == Some(JVal::Str(message)),
{
    lemma_reply_members();
}

proof fn lemma_reply_members()
    ensures
        "id"@ != "type"@,
        "id"@ != "command"@,
        "id"@ != "success"@,
        "id"@ != "message"@,
        "id"@ != "error"@,
        "type"@ != "command"@,
        "type"@ != "success"@,
        "type"@ != "message"@,
        "type"@ != "error"@,
        "success"@ != "error"@,
{
    reveal_strlit("id");
    reveal_strlit("type");
    reveal_strlit("command");
    reveal_strlit("success");
    reveal_strlit("message");
    reveal_strlit("error");
    assert("id"@.len() != "type"@.len());
    assert("id"@.len() != "command"@.len());
    assert("id"@.len() != "error"@.len());
    assert("type"@.len() != "command"@.len());
    assert("type"@.len() != "error"@.len());
    assert("success"@.len() != "error"@.len());
}

proof fn lemma_commands()
    ensures
        "prompt"@ != "abort"@,
        "prompt"@ != "clear"@,
        "prompt"@ != "ping"@,
        "abort"@ != "clear"@,
        "abort"@ != "ping"@,
        "clear"@ != "ping"@,
{
    reveal_strlit("prompt");
    reveal_strlit("abort");
    reveal_strlit("clear");
    reveal_strlit("ping");
    assert("prompt"@.len() != "abort"@.len());
    assert("prompt"@.len() != "clear"@.len());
    assert("prompt"@.len() != "ping"@.len());
    assert("abort"@[0] != "clear"@[0]);
    assert("abort"@.len() != "ping"@.len());
    assert("clear"@.len() != "ping"@.len());
}

proof fn lemma_sent_members()
    ensures
        "success"@ != "command"@,
        "success"@ != "message"@,
        "command"@ != "message"@,
        "type"@ != "event"@,
        "type"@ != "delta"@,
        "type"@ != "stop_reason"@,
{
    reveal_strlit("success");
    reveal_strlit("command");
    reveal_strlit("message");
    reveal_strlit("type");
    reveal_strlit("event");
    reveal_strlit("delta");
    reveal_strlit("stop_reason");
    assert("success"@[0] != "command"@[0]);
    assert("success"@[0] != "message"@[0]);
    assert("command"@[0] != "message"@[0]);
    assert("type"@.len() != "event"@.len());
    assert("type"@.len() != "delta"@.len());
    assert("type"@.len() != "stop_reason"@.len());
}


/// A prompt is accepted with the text it carries, an abort and a clear are carried out, a ping
/// is answered; each response names its command. Any other command fails with an error that
/// names it.
pub proof fn commands_are_told_apart(cmd: JVal)
    ensures
        ({
            let id = json::member(cmd, "id"@);
            let kind = json::str_or_empty(json::member(cmd, "type"@));
            let step = command_step(cmd);
            &&& kind == "prompt"@ ==> (step matches RpcStepView::Prompt { reply, text, .. } && text
                == json::str_or_empty(json::member(cmd, "message"@)) && confirms(
                reply,
                id,
                "prompt"@,
            ))
            &&& kind == "abort"@ ==> (step matches RpcStepView::Reply(v) && confirms(
                v,
                id,
                "abort"@,
            ))
            &&& kind == "clear"@ ==> (step matches RpcStepView::Clear(v) && confirms(
                v,
                id,
                "clear"@,
            ))
            &&& kind == "ping"@ ==> (step matches RpcStepView::Reply(v) && confirms(v, id, "ping"@)
                && json::member(v, "message"@) == Some(JVal::Str("pong"@)))
            &&& kind != "prompt"@ && kind != "abort"@ && kind != "clear"@ && kind != "ping"@ ==> (
            step matches RpcStepView::Reply(v) && refuses(v, id, "未知命令: "@ + kind))
        }),
{
    lemma_commands();
    lemma_reply_members();
    lemma_sent_members();
}

/// Whether a value is the response that a command was carried out.
pub open spec fn confirms(v: JVal, id: Option<JVal>, command: Seq<char>) -> bool {
    &&& json::member(v, "id"@) == Some(
        match id {
            Some(j) => j,
            None => JVal::Null,
        },
    )
    &&& json::opt_str_value(json::member(v, "type"@)) == Some("response"@)
    &&& json::opt_str_value(json::member(v, "command"@)) == Some(command)
    &&& json::member(v, "success"@) == Some(JVal::Bool(true))
}

/// Whether a value is the response that something went wrong.
pub open spec fn refuses(v: JVal, id: Option<JVal>, message: Seq<char>) -> bool {
    &&& json::member(v, "id"@) == Some(
        match id {
            Some(j) => j,
            None => JVal::Null,
        },
    )
    &&& json::opt_str_value(json::member(v, "type"@)) == Some("response"@)
    &&& json::member(v, "success"@) == Some(JVal::Bool(false))
    &&& json::opt_str_value(json::member(v, "error"@)) == Some(message)
}

/// A blank line is ignored, white space round a command makes no difference, and a line that is
/// no JSON is refused without an id, saying why.
pub proof fn lines_are_commands(a: Seq<char>, line: Seq<char>, b: Seq<char>)
    requires
        forall|i: int| 0 <= i < a.len() ==> text::white_space(#[trigger] a[i]),
        forall|i: int| 0 <= i < b.len() ==> text::white_space(#[trigger] b[i]),
        line.len() > 0 ==> !text::white_space(line[0]) && !text::white_space(line.last()),
    ensures
        line.len() == 0 ==> line_step(a + line + b) is Ignore,
        line.len() > 0 ==> (match json::parsed(line) {
            Ok(cmd) => line_step(a + line + b) == command_step(cmd),
            Err(m) => line_step(a + line + b) matches RpcStepView::Reply(v) && refuses(
                v,
                None,
                "无效的 JSON: "@ + m,
            ),
        }),
{
    text::trimming_takes_the_middle(a, line, b);
    lemma_reply_members();
    lemma_sent_members();
}

/// Whether a value is an event of the given kind.
pub open spec fn tells(v: JVal, kind: Seq<char>) -> bool {
    &&& json::opt_str_value(json::member(v, "type"@)) == Some("event"@)
    &&& json::opt_str_value(json::opt_member(json::member(v, "event"@), "type"@)) == Some(kind)
}

/// An answer that is not empty is sent whole before the end of the turn; an empty one is not
/// sent; a failed prompt sends one error under the id of the prompt, and no end of a turn.
pub proof fn answers_are_sent_whole(id: Option<JVal>, answer: Seq<char>, m: Seq<char>)
    ensures
        ({
            let s = outcome_values(id, Ok(answer));
            &&& s.len() == (if answer.len() > 0 {
                2int
            } else {
                1int
            })
            &&& answer.len() > 0 ==> tells(s[0], "delta"@) && json::opt_str_value(
                json::opt_member(json::member(s[0], "event"@), "delta"@),
            ) == Some(answer)
            &&& tells(s.last(), "turn_end"@) && json::opt_str_value(
                json::opt_member(json::member(s.last(), "event"@), "stop_reason"@),
            ) == Some("stop"@)
        }),
        outcome_values(id, Err(m)).len() == 1,
        refuses(outcome_values(id, Err(m))[0], id, m),
{
    lemma_sent_members();
    lemma_reply_members();
}

} // verus!
