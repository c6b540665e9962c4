//! The exchange of messages that makes up one chat with OS3.
//!
//! Once the opening message is sent, what comes in over the socket is handed to
//! a `ChatExchange` one event at a time. Each event yields a step: what to save,
//! what to send, whether to close the socket, and the result once there is one.

use crate::llm::providers::os3;
use crate::{json, text};
use vstd::prelude::*;

verus! {

/// For how many seconds the acknowledgement is waited for.
pub const ACK_TIMEOUT_SECS: u64 = 20;

/// For how many seconds the reply is waited for.
pub const CHAT_TIMEOUT_SECS: u64 = 180;

/// For how many seconds the connection is waited for.
pub const CONNECT_TIMEOUT_SECS: u64 = 30;

/// What is said of a connection that took too long.
pub const CONNECT_TIMED_OUT: &'static str = "OS3 ws connect timed out";

/// What a chat results in.
pub enum ChatResult {
    Text(String),
}

/// What is read of a text message: the string members of its JSON object that
/// matter to a chat.
pub struct WsMessage {
    pub typ: Option<String>,
    pub role: Option<String>,
    pub text: Option<String>,
    pub session_id: Option<String>,
}

/// What a message holds.
pub struct MessageModel {
    pub typ: Option<Seq<char>>,
    pub role: Option<Seq<char>>,
    pub text: Option<Seq<char>>,
    pub session_id: Option<Seq<char>>,
}

impl View for WsMessage {
    type V = MessageModel;

    open spec fn view(&self) -> MessageModel {
        MessageModel {
            typ: text::view_of(self.typ),
            role: text::view_of(self.role),
            text: text::view_of(self.text),
            session_id: text::view_of(self.session_id),
        }
    }
}

/// What a JSON text says as a message.
pub open spec fn message_in(document: Seq<char>) -> MessageModel {
    MessageModel {
        typ: json::string_member(document, "type"@),
        role: json::string_member(document, "role"@),
        text: json::string_member(document, "text"@),
        session_id: json::string_member(document, "sessionId"@),
    }
}

impl WsMessage {
    /// Reads a text message.
    pub fn read(document: &str) -> (m: WsMessage)
        ensures
            m@ == message_in(document@),
    {
        WsMessage {
            typ: json::read_string(document, "type"),
            role: json::read_string(document, "role"),
            text: json::read_string(document, "text"),
            session_id: json::read_string(document, "sessionId"),
        }
    }
}

/// What can happen while a chat waits.
pub enum WsEvent {
    /// A text message came.
    Message(WsMessage),
    /// A message of another kind came.
    Other,
    /// The socket was closed or failed, or the time was up.
    Ended,
}

/// What an event holds.
pub enum EventModel {
    Message(MessageModel),
    Other,
    Ended,
}

impl View for WsEvent {
    type V = EventModel;

    open spec fn view(&self) -> EventModel {
        match self {
            WsEvent::Message(m) => EventModel::Message(m@),
            WsEvent::Other => EventModel::Other,
            WsEvent::Ended => EventModel::Ended,
        }
    }
}

/// What a chat waits for.
#[derive(Clone, Copy, Debug, PartialEq, Eq, Structural)]
pub enum ChatPhase {
    /// The acknowledgement of the opening message.
    Ack,
    /// The reply of the agent.
    Reply,
    /// Nothing any more.
    Over,
}

/// What is to be done after an event.
pub struct ChatStep {
    /// A session id to save.
    pub save_session: Option<String>,
    /// A text message to send.
    pub send: Option<String>,
    /// Whether to close the socket.
    pub close: bool,
    /// The result of the chat, once there is one.
    pub outcome: Option<Result<ChatResult, String>>,
}

/// What a step holds.
pub struct StepModel {
    pub save_session: Option<Seq<char>>,
    pub send: Option<Seq<char>>,
    pub close: bool,
    pub outcome: Option<Result<Seq<char>, Seq<char>>>,
}

/// The text in the result of a chat.
pub open spec fn view_of_result(r: Result<ChatResult, String>) -> Result<Seq<char>, Seq<char>> {
    match r {
        Ok(ChatResult::Text(t)) => Ok(t@),
        Err(e) => Err(e@),
    }
}

impl View for ChatStep {
    type V = StepModel;

    open spec fn view(&self) -> StepModel {
        StepModel {
            save_session: text::view_of(self.save_session),
            send: text::view_of(self.send),
            close: self.close,
            outcome: match self.outcome {
                Some(r) => Some(view_of_result(r)),
                None => None,
            },
        }
    }
}

/// Whether a message is of the given type.
pub open spec fn is_type(event: EventModel, typ: Seq<char>) -> bool {
    event matches EventModel::Message(m) && m.typ == Some(typ)
}

/// The opening message is acknowledged.
pub open spec fn is_ack(event: EventModel) -> bool {
    is_type(event, "init_ack"@)
}

/// The service turns the chat down.
pub open spec fn is_refusal(event: EventModel) -> bool {
    is_type(event, "admission.refused"@)
}

/// The agent replies.
pub open spec fn is_agent_reply(event: EventModel) -> bool {
    is_type(event, "chat.message"@) && event->Message_0.role == Some("agent"@)
}

/// The text of a reply; empty if it has none.
pub open spec fn reply_text(event: EventModel) -> Seq<char> {
    match event {
        EventModel::Message(m) => match m.text {
            Some(t) => t,
            None => ""@,
        },
        _ => ""@,
    }
}

/// The result that an event gives a chat in the given phase, if any.
pub open spec fn outcome_of(phase: ChatPhase, event: EventModel) -> Option<
    Result<Seq<char>, Seq<char>>,
> {
    match phase {
        ChatPhase::Ack => if is_refusal(event) {
            Some(Err("OS3 refused the connection (stale or over-limit session)"@))
        } else if event is Ended {
            Some(Err("OS3 did not acknowledge init in time"@))
        } else {
            None
        },
        ChatPhase::Reply => if is_agent_reply(event) {
            Some(Ok(reply_text(event)))
        } else if is_refusal(event) {
            Some(Err("OS3 refused the session"@))
        } else if event is Ended {
            Some(Err("OS3 reply timed out"@))
        } else {
            None
        },
        ChatPhase::Over => None,
    }
}

/// The phase after an event.
pub open spec fn phase_after(phase: ChatPhase, event: EventModel) -> ChatPhase {
    if outcome_of(phase, event) is Some {
        ChatPhase::Over
    } else if phase == ChatPhase::Ack && is_ack(event) {
        ChatPhase::Reply
    } else {
        phase
    }
}

/// What is to be done after an event: the acknowledgement is followed by the
/// utterance, and its session id is saved; the end of the wait for a reply, by
/// the close of the socket.
pub open spec fn step_after(
    phase: ChatPhase,
    utterance: Seq<char>,
    event: EventModel,
    now_ms: u64,
) -> StepModel {
    let acknowledged = phase == ChatPhase::Ack && is_ack(event);
    let outcome = outcome_of(phase, event);
    StepModel {
        save_session: if acknowledged {
            event->Message_0.session_id
        } else {
            None
        },
        send: if acknowledged {
            Some(os3::chat_frame(utterance, now_ms))
        } else {
            None
        },
        close: phase == ChatPhase::Reply && outcome is Some,
        outcome,
    }
}

/// For how many seconds a chat waits in a phase.
pub open spec fn patience_secs(phase: ChatPhase) -> int {
    match phase {
        ChatPhase::Ack => ACK_TIMEOUT_SECS as int,
        ChatPhase::Reply => CHAT_TIMEOUT_SECS as int,
        ChatPhase::Over => 0,
    }
}

fn nothing() -> (step: ChatStep)
    ensures
        step@ == (StepModel { save_session: None, send: None, close: false, outcome: None }),
{
    ChatStep { save_session: None, send: None, close: false, outcome: None }
}

fn fail(message: &str, close: bool) -> (step: ChatStep)
    ensures
        step@ == (StepModel {
            save_session: None,
            send: None,
            close,
            outcome: Some(Err(message@)),
        }),
{
    ChatStep { save_session: None, send: None, close, outcome: Some(Err(message.to_owned())) }
}

fn is_text(s: &Option<String>, t: &str) -> (r: bool)
    ensures
        r == (text::view_of(*s) == Some(t@)),
{
    match s {
        Some(x) => text::same_text(x.as_str(), t),
        None => false,
    }
}

/// One chat, after its opening message was sent.
pub struct ChatExchange {
    utterance: String,
    phase: ChatPhase,
}

impl ChatExchange {
    /// What the user said.
    pub closed spec fn said(&self) -> Seq<char> {
        self.utterance@
    }

    /// What the chat waits for.
    pub closed spec fn waits_for(&self) -> ChatPhase {
        self.phase
    }

    /// A chat that waits for its acknowledgement.
    pub fn new(utterance: &str) -> (chat: ChatExchange)
        ensures
            chat.said() == utterance@,
            chat.waits_for() == ChatPhase::Ack,
    {
        ChatExchange { utterance: utterance.to_owned(), phase: ChatPhase::Ack }
    }

    /// What the chat waits for.
    pub fn phase(&self) -> (phase: ChatPhase)
        ensures
            phase == self.waits_for(),
    {
        self.phase
    }

    /// Whether a chat that has waited this long in its phase waits no longer.
    pub fn time_is_up(&self, waited_ms: u128) -> (r: bool)
        ensures
            r == (waited_ms >= 1000 * patience_secs(self.waits_for())),
    {
        match self.phase {
            ChatPhase::Ack => waited_ms >= 1000 * ACK_TIMEOUT_SECS as u128,
            ChatPhase::Reply => waited_ms >= 1000 * CHAT_TIMEOUT_SECS as u128,
            ChatPhase::Over => true,
        }
    }

    /// Takes an event that happened at the given time.
    pub fn step(&mut self, event: WsEvent, now_ms: u64) -> (step: ChatStep)
        ensures
            step@ == step_after(old(self).waits_for(), old(self).said(), event@, now_ms),
            final(self).waits_for() == phase_after(old(self).waits_for(), event@),
            final(self).said() == old(self).said(),
    {
        proof {
            reveal_strlit("init_ack");
            reveal_strlit("admission.refused");
            reveal_strlit("chat.message");
            assert("init_ack"@.len() != "admission.refused"@.len());
            assert("chat.message"@.len() != "admission.refused"@.len());
        }
        match self.phase {
            ChatPhase::Ack => match event {
                WsEvent::Message(m) => {
                    if is_text(&m.typ, "init_ack") {
                        self.phase = ChatPhase::Reply;
                        let frame = os3::chat_message(self.utterance.as_str(), now_ms);
                        ChatStep {
                            save_session: m.session_id,
                            send: Some(frame),
                            close: false,
                            outcome: None,
                        }
                    } else if is_text(&m.typ, "admission.refused") {
                        self.phase = ChatPhase::Over;
                        fail("OS3 refused the connection (stale or over-limit session)", false)
                    } else {
                        nothing()
                    }
                },
                WsEvent::Other => nothing(),
                WsEvent::Ended => {
                    self.phase = ChatPhase::Over;
                    fail("OS3 did not acknowledge init in time", false)
                },
            },
            ChatPhase::Reply => match event {
                WsEvent::Message(m) => {
                    if is_text(&m.typ, "chat.message") && is_text(&m.role, "agent") {
                        self.phase = ChatPhase::Over;
                        let reply = match m.text {
                            Some(t) => t,
                            None => "".to_owned(),
                        };
                        ChatStep {
                            save_session: None,
                            send: None,
                            close: true,
                            outcome: Some(Ok(ChatResult::Text(reply))),
                        }
                    } else if is_text(&m.typ, "admission.refused") {
                        self.phase = ChatPhase::Over;
                        fail("OS3 refused the session", true)
                    } else {
                        nothing()
                    }
                },
                WsEvent::Other => nothing(),
                WsEvent::Ended => {
                    self.phase = ChatPhase::Over;
                    fail("OS3 reply timed out", true)
                },
            },
            ChatPhase::Over => nothing(),
        }
    }
}

/// What the request log is told of a chat: the reply, or the error.
pub fn log_entry(result: &Result<ChatResult, String>) -> (r: (Option<&str>, Option<&str>))
    ensures
        match view_of_result(*result) {
            Ok(t) => text::view_of_str(r.0) == Some(t) && r.1 is None,
            Err(e) => r.0 is None && text::view_of_str(r.1) == Some(e),
        },
{
    match result {
        Ok(ChatResult::Text(t)) => (Some(t.as_str()), None),
        Err(e) => (None, Some(e.as_str())),
    }
}

/// The result of a chat in the given phase in which the given events happen;
/// `None` if they leave it waiting.
pub open spec fn result_of(phase: ChatPhase, events: Seq<EventModel>) -> Option<
    Result<Seq<char>, Seq<char>>,
>
    decreases events.len(),
{
    if events.len() == 0 {
        None
    } else {
        match outcome_of(phase, events[0]) {
            Some(r) => Some(r),
            None => result_of(phase_after(phase, events[0]), events.skip(1)),
        }
    }
}

/// Whether an event leaves a chat waiting in the phase that it is in.
pub open spec fn passes_by(phase: ChatPhase, event: EventModel) -> bool {
    outcome_of(phase, event) is None && phase_after(phase, event) == phase
}

proof fn lemma_passed_by(phase: ChatPhase, before: Seq<EventModel>, rest: Seq<EventModel>)
    requires
        forall|i: int| 0 <= i < before.len() ==> passes_by(phase, #[trigger] before[i]),
    ensures
        result_of(phase, before + rest) == result_of(phase, rest),
    decreases before.len(),
{
    if before.len() == 0 {
        assert(before + rest =~= rest);
    } else {
        let tail = before.skip(1);
        assert((before + rest)[0] == before[0]);
        assert(passes_by(phase, before[0]));
        assert forall|i: int| 0 <= i < tail.len() implies passes_by(phase, #[trigger] tail[i]) by {
            assert(tail[i] == before[i + 1]);
        }
        lemma_passed_by(phase, tail, rest);
        assert((before + rest).skip(1) =~= tail + rest);
    }
}

/// The reply is the text of the agent's first message after the
/// acknowledgement, if the service neither refuses nor falls silent before.
pub proof fn law_first_agent_message_is_the_reply(
    before: Seq<EventModel>,
    ack: EventModel,
    between: Seq<EventModel>,
    reply: EventModel,
    after: Seq<EventModel>,
)
    requires
        forall|i: int| 0 <= i < before.len() ==> passes_by(ChatPhase::Ack, #[trigger] before[i]),
        is_ack(ack),
        forall|i: int|
            0 <= i < between.len() ==> passes_by(ChatPhase::Reply, #[trigger] between[i]),
        is_agent_reply(reply),
    ensures
        result_of(ChatPhase::Ack, before + seq![ack] + between + seq![reply] + after) == Some(
            Ok::<Seq<char>, Seq<char>>(reply_text(reply)),
        ),
{
    reveal_strlit("init_ack");
    reveal_strlit("admission.refused");
    let last = seq![reply] + after;
    let middle = between + last;
    let rest = seq![ack] + middle;
    assert(before + seq![ack] + between + seq![reply] + after =~= before + rest);
    lemma_passed_by(ChatPhase::Ack, before, rest);
    assert(rest[0] == ack);
    assert("init_ack"@.len() != "admission.refused"@.len());
    assert(rest.skip(1) =~= middle);
    lemma_passed_by(ChatPhase::Reply, between, last);
    assert(last[0] == reply);
    assert(result_of(ChatPhase::Ack, rest) == result_of(ChatPhase::Reply, middle));
}

/// A chat that the service refuses, or in which nothing more comes, before the
/// acknowledgement, fails with the reason.
pub proof fn law_chat_fails_without_an_ack(
    before: Seq<EventModel>,
    last: EventModel,
    after: Seq<EventModel>,
)
    requires
        forall|i: int| 0 <= i < before.len() ==> passes_by(ChatPhase::Ack, #[trigger] before[i]),
        is_refusal(last) || last is Ended,
    ensures
        result_of(ChatPhase::Ack, before + seq![last] + after) == Some(
            Err::<Seq<char>, Seq<char>>(
                if is_refusal(last) {
                    "OS3 refused the connection (stale or over-limit session)"@
                } else {
                    "OS3 did not acknowledge init in time"@
                },
            ),
        ),
{
    let rest = seq![last] + after;
    assert(before + seq![last] + after =~= before + rest);
    lemma_passed_by(ChatPhase::Ack, before, rest);
    assert(rest[0] == last);
}

/// A reply is never made up: a chat that succeeds saw an acknowledgement and,
/// after it, a message of the agent with the text that it results in.
pub proof fn law_reply_was_sent_after_an_ack(events: Seq<EventModel>, reply: Seq<char>)
    requires
        result_of(ChatPhase::Ack, events) == Some(Ok::<Seq<char>, Seq<char>>(reply)),
    ensures
        exists|i: int, j: int|
            0 <= i < j < events.len() && is_ack(#[trigger] events[i]) && is_agent_reply(
                #[trigger] events[j],
            ) && reply_text(events[j]) == reply,
    decreases events.len(),
{
    let rest = events.skip(1);
    if phase_after(ChatPhase::Ack, events[0]) == ChatPhase::Reply {
        lemma_reply_was_sent(rest, reply);
        let k = choose|k: int|
            0 <= k < rest.len() && is_agent_reply(#[trigger] rest[k]) && reply_text(rest[k])
                == reply;
        assert(is_ack(events[0]));
        assert(is_agent_reply(events[k + 1]));
    } else {
        law_reply_was_sent_after_an_ack(rest, reply);
        let (i, j) = choose|i: int, j: int|
            0 <= i < j < rest.len() && is_ack(#[trigger] rest[i]) && is_agent_reply(
                #[trigger] rest[j],
            ) && reply_text(rest[j]) == reply;
        assert(is_ack(events[i + 1]));
        assert(is_agent_reply(events[j + 1]));
    }
}

proof fn lemma_reply_was_sent(events: Seq<EventModel>, reply: Seq<char>)
    requires
        result_of(ChatPhase::Reply, events) == Some(Ok::<Seq<char>, Seq<char>>(reply)),
    ensures
        exists|k: int|
            0 <= k < events.len() && is_agent_reply(#[trigger] events[k]) && reply_text(events[k])
                == reply,
    decreases events.len(),
{
    if is_agent_reply(events[0]) {
        assert(reply_text(events[0]) == reply);
    } else {
        let rest = events.skip(1);
        lemma_reply_was_sent(rest, reply);
        let k = choose|k: int|
            0 <= k < rest.len() && is_agent_reply(#[trigger] rest[k]) && reply_text(rest[k])
                == reply;
        assert(is_agent_reply(events[k + 1]));
    }
}

/// The utterance is sent once, right after the acknowledgement, and never
/// before; a session id is saved only from an acknowledgement; the socket is
/// closed exactly when a chat that waited for its reply gets its result.
pub proof fn law_steps_follow_the_protocol(
    phase: ChatPhase,
    utterance: Seq<char>,
    event: EventModel,
    now_ms: u64,
)
    ensures
        ({
            let step = step_after(phase, utterance, event, now_ms);
            let next = phase_after(phase, event);
            &&& step.send is Some <==> phase == ChatPhase::Ack && next == ChatPhase::Reply
            &&& step.save_session is Some ==> step.send is Some
            &&& step.close <==> phase == ChatPhase::Reply && next == ChatPhase::Over
            &&& step.outcome is Some <==> phase != ChatPhase::Over && next == ChatPhase::Over
        }),
{
    reveal_strlit("init_ack");
    reveal_strlit("admission.refused");
    assert("init_ack"@.len() != "admission.refused"@.len());
}

/// A text message is read member by member.
pub proof fn law_messages_are_read_as_they_came(document: Seq<char>)
    ensures
        message_in(document).typ == json::string_member(document, "type"@),
        message_in(document).role == json::string_member(document, "role"@),
        message_in(document).text == json::string_member(document, "text"@),
        message_in(document).session_id == json::string_member(document, "sessionId"@),
{
}

/// The reply of a chat is the text of the agent's message itself, whole and
/// unchanged; a message without a text gives an empty reply.
pub proof fn law_reply_is_the_whole_text(m: MessageModel, utterance: Seq<char>, now_ms: u64)
    requires
        m.typ == Some("chat.message"@),
        m.role == Some("agent"@),
    ensures
        m.text matches Some(t) ==> outcome_of(ChatPhase::Reply, EventModel::Message(m)) == Some(
            Ok::<Seq<char>, Seq<char>>(t),
        ),
        m.text is None ==> outcome_of(ChatPhase::Reply, EventModel::Message(m)) == Some(
            Ok::<Seq<char>, Seq<char>>(Seq::<char>::empty()),
        ),
        phase_after(ChatPhase::Reply, EventModel::Message(m)) == ChatPhase::Over,
        m.text matches Some(t) ==> step_after(
            ChatPhase::Reply,
            utterance,
            EventModel::Message(m),
            now_ms,
        ) == (StepModel {
            save_session: None,
            send: None,
            close: true,
            outcome: Some(Ok::<Seq<char>, Seq<char>>(t)),
        }),
{
    reveal_strlit("");
    assert(""@ =~= Seq::<char>::empty());
}

/// The acknowledgement is answered with the utterance, whole and unchanged, and
/// its session id is the one that is saved; the chat then waits for the reply.
pub proof fn law_ack_is_answered_with_the_utterance(
    m: MessageModel,
    utterance: Seq<char>,
    now_ms: u64,
)
    requires
        m.typ == Some("init_ack"@),
    ensures
        step_after(ChatPhase::Ack, utterance, EventModel::Message(m), now_ms) == (StepModel {
            save_session: m.session_id,
            send: Some(os3::chat_frame(utterance, now_ms)),
            close: false,
            outcome: None,
        }),
        phase_after(ChatPhase::Ack, EventModel::Message(m)) == ChatPhase::Reply,
{
    reveal_strlit("init_ack");
    reveal_strlit("admission.refused");
    assert("init_ack"@.len() != "admission.refused"@.len());
}

/// A refusal and the end of the messages each end a chat, with the reason for
/// the phase that it is in.
pub proof fn law_refusal_and_silence_end_a_chat(
    m: MessageModel,
    utterance: Seq<char>,
    now_ms: u64,
)
    requires
        m.typ == Some("admission.refused"@),
    ensures
        ({
            let failed = |close: bool, reason: Seq<char>|
                StepModel {
                    save_session: None,
                    send: None,
                    close,
                    outcome: Some(Err::<Seq<char>, Seq<char>>(reason)),
                };
            let refused = EventModel::Message(m);
            &&& step_after(ChatPhase::Ack, utterance, refused, now_ms) == failed(
                false,
                "OS3 refused the connection (stale or over-limit session)"@,
            )
            &&& step_after(ChatPhase::Ack, utterance, EventModel::Ended, now_ms) == failed(
                false,
                "OS3 did not acknowledge init in time"@,
            )
            &&& step_after(ChatPhase::Reply, utterance, refused, now_ms) == failed(
                true,
                "OS3 refused the session"@,
            )
            &&& step_after(ChatPhase::Reply, utterance, EventModel::Ended, now_ms) == failed(
                true,
                "OS3 reply timed out"@,
            )
            &&& phase_after(ChatPhase::Ack, refused) == ChatPhase::Over
            &&& phase_after(ChatPhase::Ack, EventModel::Ended) == ChatPhase::Over
            &&& phase_after(ChatPhase::Reply, refused) == ChatPhase::Over
            &&& phase_after(ChatPhase::Reply, EventModel::Ended) == ChatPhase::Over
        }),
{
    reveal_strlit("init_ack");
    reveal_strlit("chat.message");
    reveal_strlit("admission.refused");
    assert("init_ack"@.len() != "admission.refused"@.len());
    assert("chat.message"@.len() != "admission.refused"@.len());
}

/// Every other message leaves a chat as it is: nothing is done, and it waits
/// for what it waited for. A chat that is over takes notice of nothing.
pub proof fn law_other_messages_pass_by(
    m: MessageModel,
    event: EventModel,
    utterance: Seq<char>,
    now_ms: u64,
)
    requires
        m.typ != Some("admission.refused"@),
    ensures
        ({
            let nothing = StepModel { save_session: None, send: None, close: false, outcome: None };
            let message = EventModel::Message(m);
            &&& m.typ != Some("init_ack"@) ==> {
                &&& step_after(ChatPhase::Ack, utterance, message, now_ms) == nothing
                &&& phase_after(ChatPhase::Ack, message) == ChatPhase::Ack
            }
            &&& m.typ != Some("chat.message"@) || m.role != Some("agent"@) ==> {
                &&& step_after(ChatPhase::Reply, utterance, message, now_ms) == nothing
                &&& phase_after(ChatPhase::Reply, message) == ChatPhase::Reply
            }
            &&& step_after(ChatPhase::Ack, utterance, EventModel::Other, now_ms) == nothing
            &&& phase_after(ChatPhase::Ack, EventModel::Other) == ChatPhase::Ack
            &&& step_after(ChatPhase::Reply, utterance, EventModel::Other, now_ms) == nothing
            &&& phase_after(ChatPhase::Reply, EventModel::Other) == ChatPhase::Reply
            &&& step_after(ChatPhase::Over, utterance, event, now_ms) == nothing
            &&& phase_after(ChatPhase::Over, event) == ChatPhase::Over
        }),
{
}

/// A chat waits 30 seconds for its connection, 20 for its acknowledgement and
/// 180 for its reply.
pub proof fn law_chat_is_patient_for_so_long()
    ensures
        patience_secs(ChatPhase::Ack) == 20,
        patience_secs(ChatPhase::Reply) == 180,
        patience_secs(ChatPhase::Over) == 0,
        CONNECT_TIMEOUT_SECS == 30,
        CONNECT_TIMED_OUT@ == "OS3 ws connect timed out"@,
{
}

/// The views of messages, events, steps and results show what they hold as it
/// is.
pub proof fn law_chats_are_shown_as_they_are(
    m: WsMessage,
    step: ChatStep,
    reply: String,
    error: String,
)
    ensures
        m@ == (MessageModel {
            typ: text::view_of(m.typ),
            role: text::view_of(m.role),
            text: text::view_of(m.text),
            session_id: text::view_of(m.session_id),
        }),
        WsEvent::Message(m)@ == EventModel::Message(m@),
        WsEvent::Other@ == EventModel::Other,
        WsEvent::Ended@ == EventModel::Ended,
        step@.save_session == text::view_of(step.save_session),
        step@.send == text::view_of(step.send),
        step@.close == step.close,
        step.outcome is None <==> step@.outcome is None,
        step.outcome matches Some(r) ==> step@.outcome == Some(view_of_result(r)),
        view_of_result(Ok(ChatResult::Text(reply))) == Ok::<_, Seq<char>>(reply@),
        view_of_result(Err(error)) == Err::<Seq<char>, _>(error@),
{
}

} // verus!
