//! Completions, roles, generation parameters, the newest-first history, and
//! the request/response exchange rules.

use std::collections::VecDeque;
use vstd::prelude::*;
use vstd::string::*;
use crate::json::{
    append_bool, append_json_string, append_milli, append_u64, bool_str, dec_str, json_string,
    milli_str,
};
use crate::model::Model;
use crate::ClientError;

verus! {

/// The entry recorded in place of a reply when an exchange fails.
pub const ERROR_TEXT: &'static str = "An error occurred while sending the message";

/// Who authored a turn of conversation.
#[derive(Debug, Clone, Copy, PartialEq, Eq, Structural)]
pub enum CompletionRole {
    USER,
    SYSTEM,
    AI,
}

/// The wire name of a role. AI-authored turns never travel, so their wire
/// name is only a stored placeholder.
pub open spec fn wire_of(r: CompletionRole) -> Seq<char> {
    match r {
        CompletionRole::USER => "user"@,
        CompletionRole::SYSTEM => "system"@,
        CompletionRole::AI => "placeholder"@,
    }
}

/// The role a stored wire name denotes: anything but "user" and "system" is AI.
pub open spec fn role_of_wire(s: Seq<char>) -> CompletionRole {
    if s == "user"@ {
        CompletionRole::USER
    } else if s == "system"@ {
        CompletionRole::SYSTEM
    } else {
        CompletionRole::AI
    }
}

/// One turn of conversation, as a pair of character sequences.
pub struct CompletionView {
    pub role: Seq<char>,
    pub content: Seq<char>,
}

/// One role-tagged turn of text; the role is held under its wire name.
#[derive(Debug)]
pub struct Completion {
    role: String,
    pub content: String,
}

impl View for Completion {
    type V = CompletionView;

    closed spec fn view(&self) -> CompletionView {
        CompletionView { role: self.role@, content: self.content@ }
    }
}

impl Completion {
    /// A turn authored under the given role.
    pub fn new(role: CompletionRole, content: &str) -> (c: Completion)
        ensures
            c@.role == wire_of(role),
            c@.content == content@,
    {
        let role_name = match role {
            CompletionRole::USER => String::from_str("user"),
            CompletionRole::SYSTEM => String::from_str("system"),
            CompletionRole::AI => String::from_str("placeholder"),
        };
        Completion { role: role_name, content: content.to_owned() }
    }

    /// The role this turn's stored wire name denotes.
    pub fn get_role(&self) -> (r: CompletionRole)
        ensures
            r == role_of_wire(self@.role),
    {
        let user = String::from_str("user");
        let system = String::from_str("system");
        if self.role == user {
            CompletionRole::USER
        } else if self.role == system {
            CompletionRole::SYSTEM
        } else {
            CompletionRole::AI
        }
    }

    /// A turn restored from its stored form: the role is kept as the wire
    /// name found there, and any name besides "user" and "system" reads back
    /// as AI.
    pub fn from_wire(role: String, content: String) -> (c: Completion)
        ensures
            c@.role == role@,
            c@.content == content@,
    {
        Completion { role, content }
    }

    /// The stored wire name of this turn's role.
    pub fn wire_role(&self) -> (r: &String)
        ensures
            r@ == self@.role,
    {
        &self.role
    }

    /// A turn equal, turn for turn, to this one.
    pub fn duplicate(&self) -> (c: Completion)
        ensures
            c@ == self@,
    {
        Completion { role: self.role.clone(), content: self.content.clone() }
    }
}

/// Storing a role and reading it back yields the same role.
pub proof fn lemma_role_round_trip(r: CompletionRole)
    ensures
        role_of_wire(wire_of(r)) == r,
{
    reveal_strlit("user");
    reveal_strlit("system");
    reveal_strlit("placeholder");
    assert("user"@.len() == 4);
    assert("system"@.len() == 6);
    assert("placeholder"@.len() == 11);
}

/// The generation parameters of a session. The sampling knobs are held in
/// thousandths of a unit, so 700 stands for 0.7 on the wire.
#[derive(Debug, Clone, Copy, PartialEq, Eq, Structural)]
pub struct CompletionParams {
    pub max_tokens: u32,
    pub frequency_penalty: u32,
    pub top_p: u32,
    pub temperature: u32,
    pub stream: bool,
}

impl CompletionParams {
    pub fn new(
        max_tokens: u32,
        frequency_penalty: u32,
        top_p: u32,
        temperature: u32,
        stream: bool,
    ) -> (p: CompletionParams)
        ensures
            p == (CompletionParams { max_tokens, frequency_penalty, top_p, temperature, stream }),
    {
        CompletionParams { max_tokens, frequency_penalty, top_p, temperature, stream }
    }
}

/// What a history holds, newest turn first; absence means the session keeps
/// no memory.
pub open spec fn hist_view(h: Option<VecDeque<Completion>>) -> Option<Seq<CompletionView>> {
    match h {
        Option::None => Option::None,
        Option::Some(d) => Option::Some(d@.map_values(|c: Completion| c@)),
    }
}

/// A history after one turn is recorded: the turn becomes position 0.
pub open spec fn hist_push(h: Option<Seq<CompletionView>>, c: CompletionView) -> Option<
    Seq<CompletionView>,
> {
    match h {
        Option::None => Option::None,
        Option::Some(s) => Option::Some(seq![c] + s),
    }
}

/// Records a turn at the front of the history; without history support this
/// does nothing.
pub fn add_history(history: &mut Option<VecDeque<Completion>>, msg: Completion)
    ensures
        hist_view(*final(history)) == hist_push(hist_view(*old(history)), msg@),
{
    let taken = history.take();
    match taken {
        Option::None => {
            *history = Option::None;
        },
        Option::Some(mut d) => {
            let ghost before = d@;
            d.push_front(msg);
            proof {
                assert(d@.map_values(|c: Completion| c@) =~= seq![msg@] + before.map_values(
                    |c: Completion| c@,
                ));
            }
            *history = Option::Some(d);
        },
    }
}

/// Whether a turn travels in an outbound transcript: AI-authored turns do not.
pub open spec fn is_outbound(c: CompletionView) -> bool {
    role_of_wire(c.role) != CompletionRole::AI
}

/// An outbound transcript: the AI-authored turns removed, the order of the
/// rest kept.
pub open spec fn filter_ai(h: Seq<CompletionView>) -> Seq<CompletionView> {
    h.filter(|c: CompletionView| is_outbound(c))
}

pub open spec fn views_of(s: Seq<Completion>) -> Seq<CompletionView> {
    s.map_values(|c: Completion| c@)
}

/// The turns a request carries, given the submitted turn and the history as
/// it stood before the turn was recorded: the filtered transcript when
/// history is kept, the one turn alone when it is not.
pub open spec fn outbound_views(m: CompletionView, h: Option<Seq<CompletionView>>) -> Seq<
    CompletionView,
> {
    match h {
        Option::None => seq![m],
        Option::Some(s) => filter_ai(seq![m] + s),
    }
}

/// The turns to send, read from a history that already records `msg` at the
/// front (or from `msg` alone when no history is kept).
pub fn outbound_messages(msg: &Completion, history: &Option<VecDeque<Completion>>) -> (r: Vec<
    Completion,
>)
    ensures
        match hist_view(*history) {
            Option::None => views_of(r@) == seq![msg@],
            Option::Some(s) => views_of(r@) == filter_ai(s),
        },
{
    match history {
        Option::None => {
            let mut v: Vec<Completion> = Vec::new();
            v.push(msg.duplicate());
            proof {
                assert(views_of(v@) =~= seq![msg@]);
            }
            v
        },
        Option::Some(d) => {
            let mut v: Vec<Completion> = Vec::new();
            let n = d.len();
            let mut i: usize = 0;
            while i < n
                invariant
                    i <= n,
                    n == d@.len(),
                    views_of(v@) == filter_ai(d@.map_values(|c: Completion| c@).subrange(
                        0,
                        i as int,
                    )),
                decreases n - i,
            {
                let ghost seen = d@.map_values(|c: Completion| c@).subrange(0, i as int);
                let c = &d[i];
                if c.get_role() != CompletionRole::AI {
                    v.push(c.duplicate());
                }
                proof {
                    let next = d@.map_values(|c: Completion| c@).subrange(0, i + 1);
                    assert(next.drop_last() =~= seen);
                    assert(next.last() == d@[i as int]@);
                    reveal(Seq::filter);
                    if is_outbound(d@[i as int]@) {
                        assert(views_of(v@) =~= filter_ai(next));
                    } else {
                        assert(views_of(v@) =~= filter_ai(next));
                    }
                }
                i = i + 1;
            }
            proof {
                assert(d@.map_values(|c: Completion| c@).subrange(0, n as int) =~= d@.map_values(
                    |c: Completion| c@,
                ));
            }
            v
        },
    }
}

/// One turn as it appears in the request body.
pub open spec fn msg_json(m: CompletionView) -> Seq<char> {
    "{\"role\":"@ + json_string(m.role) + ",\"content\":"@ + json_string(m.content) + "}"@
}

/// The turns of the request body, comma separated.
pub open spec fn msgs_body(ms: Seq<CompletionView>) -> Seq<char>
    decreases ms.len(),
{
    if ms.len() == 0 {
        Seq::empty()
    } else if ms.len() == 1 {
        msg_json(ms[0])
    } else {
        msgs_body(ms.drop_last()) + ","@ + msg_json(ms.last())
    }
}

/// The whole request body of a completion call.
pub open spec fn payload_json(model: Seq<char>, p: CompletionParams, ms: Seq<CompletionView>) -> Seq<
    char,
> {
    "{\"model\":"@ + json_string(model) + ",\"max_tokens\":"@ + dec_str(p.max_tokens as nat)
        + ",\"frequency_penalty\":"@ + milli_str(p.frequency_penalty as nat) + ",\"top_p\":"@
        + milli_str(p.top_p as nat) + ",\"temperature\":"@ + milli_str(p.temperature as nat)
        + ",\"stream\":"@ + bool_str(p.stream) + ",\"messages\":["@ + msgs_body(ms) + "]}"@
}

fn append_message(out: &mut String, c: &Completion)
    ensures
        final(out)@ == old(out)@ + msg_json(c@),
{
    out.append("{\"role\":");
    append_json_string(out, c.role.as_str());
    out.append(",\"content\":");
    append_json_string(out, c.content.as_str());
    out.append("}");
    proof {
        assert(final(out)@ =~= old(out)@ + msg_json(c@));
    }
}

/// The request body for the given model, parameters and outbound turns.
pub fn render_payload(model: &Model, params: &CompletionParams, messages: &Vec<Completion>) -> (r:
    String)
    ensures
        r@ == payload_json(model@, *params, views_of(messages@)),
{
    let mut out = String::new();
    out.append("{\"model\":");
    append_json_string(&mut out, model.name.as_str());
    out.append(",\"max_tokens\":");
    append_u64(&mut out, params.max_tokens as u64);
    out.append(",\"frequency_penalty\":");
    append_milli(&mut out, params.frequency_penalty as u64);
    out.append(",\"top_p\":");
    append_milli(&mut out, params.top_p as u64);
    out.append(",\"temperature\":");
    append_milli(&mut out, params.temperature as u64);
    out.append(",\"stream\":");
    append_bool(&mut out, params.stream);
    out.append(",\"messages\":[");
    let ghost head = out@;
    let n = messages.len();
    let mut i: usize = 0;
    while i < n
        invariant
            i <= n,
            n == messages@.len(),
            out@ == head + msgs_body(views_of(messages@.subrange(0, i as int))),
        decreases n - i,
    {
        if i > 0 {
            out.append(",");
        }
        append_message(&mut out, &messages[i]);
        proof {
            let next = views_of(messages@.subrange(0, i + 1));
            assert(next.drop_last() =~= views_of(messages@.subrange(0, i as int)));
            assert(next.last() == messages@[i as int]@);
            assert(out@ =~= head + msgs_body(next));
        }
        i = i + 1;
    }
    out.append("]}");
    proof {
        assert(messages@.subrange(0, n as int) =~= messages@);
        assert(out@ =~= payload_json(model@, *params, views_of(messages@)));
    }
    out
}

/// Records the submitted turn at position 0 before any network activity, and
/// builds the request body from the filtered transcript (or, without history,
/// from the turn alone).
pub fn prepare_request(
    model: &Model,
    params: &CompletionParams,
    msg: Completion,
    history: &mut Option<VecDeque<Completion>>,
) -> (r: String)
    ensures
        hist_view(*final(history)) == hist_push(hist_view(*old(history)), msg@),
        r@ == payload_json(model@, *params, outbound_views(msg@, hist_view(*old(history)))),
{
    add_history(history, msg.duplicate());
    let out_msgs = outbound_messages(&msg, history);
    render_payload(model, params, &out_msgs)
}

/// What came back from one transport round trip: a connection failure, or a
/// status code with the reply text.
#[derive(Debug)]
pub enum TransportOutcome {
    Failed,
    Reply { status: u16, body: String },
}

/// The string at `choices[0].message.content` of a reply text, or absence
/// when the text does not parse or that path holds no string.
pub uninterp spec fn content_of(body: Seq<char>) -> Option<Seq<char>>;

/// Relies on serde_json::from_str and serde_json::Value indexing: yields
/// `choices[0].message.content` when the text parses and that path holds a
/// string. What a given text yields is a function of that text alone.
#[verifier::external_body]
fn extract_content(body: &str) -> (r: Option<String>)
    ensures
        match r {
            Option::Some(s) => content_of(body@) == Option::Some(s@),
            Option::None => content_of(body@) is None,
        },
{
    match serde_json::from_str::<serde_json::Value>(body) {
        Ok(v) => v["choices"][0]["message"]["content"].as_str().map(|s| s.to_string()),
        Err(_) => None,
    }
}

/// An AI-authored turn holding the given text.
pub open spec fn ai_view(content: Seq<char>) -> CompletionView {
    CompletionView { role: "placeholder"@, content }
}

/// Records an already extracted reply content: a string becomes the newest,
/// AI-authored turn; absence is a malformed reply and records nothing.
pub fn record_extracted(
    history: &mut Option<VecDeque<Completion>>,
    content: Option<String>,
) -> (r: Result<(), ClientError>)
    ensures
        match content {
            Option::Some(c) => {
                &&& r is Ok
                &&& hist_view(*final(history)) == hist_push(
                    hist_view(*old(history)),
                    ai_view(c@),
                )
            },
            Option::None => {
                &&& r == Err::<(), ClientError>(ClientError::MalformedResponse)
                &&& *final(history) == *old(history)
            },
        },
{
    match content {
        Option::Some(c) => {
            add_history(history, Completion::new(CompletionRole::AI, c.as_str()));
            Ok(())
        },
        Option::None => Err(ClientError::MalformedResponse),
    }
}

/// How one transport outcome is judged: only status 201 succeeds, and a
/// success must carry a string content, which the judgement yields.
pub open spec fn finish_result(outcome: TransportOutcome) -> Result<Seq<char>, ClientError> {
    match outcome {
        TransportOutcome::Failed => Err(ClientError::Transport),
        TransportOutcome::Reply { status, body } => {
            if status != 201 {
                Err(ClientError::UnexpectedStatus(status))
            } else {
                match content_of(body@) {
                    Option::Some(c) => Ok(c),
                    Option::None => Err(ClientError::MalformedResponse),
                }
            }
        },
    }
}

/// Checks one transport outcome against the exchange contract: a success's
/// content becomes the newest turn; any failure leaves the history as it
/// stood and is returned.
pub fn apply_response(
    history: &mut Option<VecDeque<Completion>>,
    outcome: TransportOutcome,
) -> (r: Result<(), ClientError>)
    ensures
        match finish_result(outcome) {
            Result::Ok(c) => {
                &&& r is Ok
                &&& hist_view(*final(history)) == hist_push(hist_view(*old(history)), ai_view(c))
            },
            Result::Err(e) => {
                &&& r == Err::<(), ClientError>(e)
                &&& *final(history) == *old(history)
            },
        },
{
    match outcome {
        TransportOutcome::Failed => Err(ClientError::Transport),
        TransportOutcome::Reply { status, body } => {
            if status != 201 {
                Err(ClientError::UnexpectedStatus(status))
            } else {
                let content = extract_content(body.as_str());
                record_extracted(history, content)
            }
        },
    }
}

} // verus!
