//! The chat with Rabbit OS3.
//!
//! An utterance goes to the butler of OS3 over a WebSocket:
//!   1. `POST /session-directory/route` with the access token answers
//!      `{"kind":"route","instanceId":..}` or `{"kind":"any"}`;
//!   2. the socket is `wss://os3-<instanceId>.rabbit.tech/ws`, or
//!      `wss://os3.rabbit.tech/ws` for `any`;
//!   3. `init` (accessToken, optional sessionId) is answered by `init_ack`;
//!   4. a `chat.message` goes out, and the agent's `chat.message` comes back.

use crate::llm::config::LlmConfig;
use crate::llm::error::friendly_text;
use crate::llm::providers::ProviderError;
use crate::os3_http::{add_header, start_headers, url_of, Os3Request};
use crate::{clock, json, llm, os3_http, text};
use vstd::prelude::*;
use vstd::string::*;

verus! {

/// Where the session id is kept unless the settings name another place.
pub const SESSION_ID_PATH: &'static str = "/data/local/tmp/PenumbraOS/os3-session.txt";

/// Sets up the chat with OS3.
pub struct Os3Provider;

/// Single-shot OS3 backend: one utterance, one reply of the agent.
pub struct DumbOs3Backend {
    pub http: reqwest::Client,
    pub token: String,
    pub session_id_path: String,
}

/// The token and the place of the session id that the chat with OS3 is set up
/// with, or what is said if no token is set. The base address of the settings
/// names the place of the session id.
pub open spec fn os3_setup(llm: LlmConfig, api_key: Option<Seq<char>>) -> Result<
    (Seq<char>, Seq<char>),
    Seq<char>,
> {
    match api_key {
        Some(key) => Ok(
            (
                key,
                match llm.base_url {
                    Some(path) => path@,
                    None => SESSION_ID_PATH@,
                },
            ),
        ),
        None => Err(
            "OS3 access token not set; log in via Pin Center (Rabbit OS3) to populate llm.api_key"@,
        ),
    }
}

impl Os3Provider {
    /// The backend for the access token in the settings, if one is set.
    pub fn build(llm: &LlmConfig, api_key: Option<String>, http: reqwest::Client) -> (r: Result<
        DumbOs3Backend,
        ProviderError,
    >)
        ensures
            match r {
                Ok(backend) => {
                    &&& os3_setup(*llm, text::view_of(api_key)) == Ok::<_, Seq<char>>(
                        (backend.token@, backend.session_id_path@),
                    )
                    &&& backend.http == http
                },
                Err(ProviderError::MissingApiKey(message)) => os3_setup(
                    *llm,
                    text::view_of(api_key),
                ) == Err::<(Seq<char>, Seq<char>), _>(message@),
                Err(_) => false,
            },
    {
        match api_key {
            None => Err(
                ProviderError::MissingApiKey(
                    "OS3 access token not set; log in via Pin Center (Rabbit OS3) to populate llm.api_key".to_owned(),
                ),
            ),
            Some(token) => {
                let session_id_path = match &llm.base_url {
                    Some(path) => path.clone(),
                    None => SESSION_ID_PATH.to_owned(),
                };
                Ok(DumbOs3Backend { http, token, session_id_path })
            },
        }
    }
}

/// The access token of a finished login is the one that the chat is set up
/// with.
pub proof fn law_stored_token_is_used(before: LlmConfig, after: LlmConfig, token: Seq<char>)
    requires
        llm::config::has_os3_token(before, after, token),
    ensures
        os3_setup(after, text::view_of(after.api_key)) matches Ok((used, _)) && used == token,
{
}

/// The session id in the text of the session file: the text without white space
/// at its ends, unless nothing is left or there is no file.
pub open spec fn session_in(contents: Option<Seq<char>>) -> Option<Seq<char>> {
    match contents {
        Some(c) => if text::trimmed(c).len() > 0 {
            Some(text::trimmed(c))
        } else {
            None
        },
        None => None,
    }
}

/// The session id in the text of the session file, if the file could be read.
pub fn load_session_id(contents: Option<&str>) -> (r: Option<String>)
    ensures
        text::view_of(r) == session_in(text::view_of_str(contents)),
{
    match contents {
        Some(c) => {
            let id = text::trim(c);
            if id.as_str().is_empty() {
                None
            } else {
                Some(id)
            }
        },
        None => None,
    }
}

/// The session file holds the session id itself, so an id without white space
/// at its ends is read back as it was saved, and the next opening message names
/// it: the conversation is resumed.
pub proof fn law_saved_session_is_resumed(id: Seq<char>, token: Seq<char>, now_ms: u64)
    requires
        id.len() > 0,
        !text::white_space(id[0]),
        !text::white_space(id.last()),
    ensures
        session_in(Some(id)) == Some(id),
        text::contains_text(
            init_frame(token, session_in(Some(id)), now_ms),
            "\"sessionId\":"@ + json::quoted(id),
        ),
{
    reveal_strlit(",\"sessionId\":");
    reveal_strlit("\"sessionId\":");
    reveal_strlit("}");
    let frame = init_frame(token, Some(id), now_ms);
    let member = "\"sessionId\":"@ + json::quoted(id);
    let at = frame.len() - 1 - member.len();
    assert(",\"sessionId\":"@.skip(1) =~= "\"sessionId\":"@);
    assert(frame.subrange(at, at + member.len()) =~= member);
    assert(text::occurs_at(frame, member, at));
}

/// The part of a token between its first and its second dot, or to its end.
pub open spec fn second_segment(token: Seq<char>) -> Option<Seq<char>> {
    let dot = text::index_from(token, '.', 0);
    if dot < token.len() {
        Some(token.subrange(dot + 1, text::index_from(token, '.', dot + 1)))
    } else {
        None
    }
}

/// The bytes that a text denotes in URL-safe base64 without padding; `None` if
/// it is no such text.
pub uninterp spec fn base64url(encoded: Seq<char>) -> Option<Seq<u8>>;

/// `Engine::decode` of the base64 engine `URL_SAFE_NO_PAD`. What it decodes to
/// is only named here.
#[verifier::external_body]
fn decode_base64url(encoded: &str) -> (r: Option<Vec<u8>>)
    ensures
        match r {
            Some(bytes) => base64url(encoded@) == Some(bytes@),
            None => base64url(encoded@) is None,
        },
{
    base64::Engine::decode(&base64::engine::general_purpose::URL_SAFE_NO_PAD, encoded).ok()
}

/// The second segment of a token, where a JWT has its payload.
pub fn payload_segment(token: &str) -> (r: Option<String>)
    ensures
        text::view_of(r) == second_segment(token@),
{
    let chars = text::chars_of(token);
    let dot = text::find_from(&chars, '.', 0);
    if dot < chars.len() {
        let end = text::find_from(&chars, '.', dot + 1);
        Some(text::string_of(&chars, dot + 1, end))
    } else {
        None
    }
}

/// The JSON bytes of the payload of a JWT, if the token has one. Its signature
/// is not looked at.
pub fn jwt_payload(token: &str) -> (r: Option<Vec<u8>>)
    ensures
        match second_segment(token@) {
            Some(segment) => match r {
                Some(bytes) => base64url(segment) == Some(bytes@),
                None => base64url(segment) is None,
            },
            None => r is None,
        },
{
    match payload_segment(token) {
        Some(segment) => decode_base64url(segment.as_str()),
        None => None,
    }
}

/// Whether a token is known to be expired: its payload gives a time of expiry,
/// in seconds, and that second has come.
pub open spec fn expired(exp: Option<u64>, now_ms: u64) -> bool {
    exp matches Some(e) && now_ms as int / 1000 >= e
}

/// Whether a token with the given time of expiry is expired.
pub fn jwt_expired_at(exp: Option<u64>, now_ms: u64) -> (r: bool)
    ensures
        r == expired(exp, now_ms),
{
    match exp {
        Some(e) => now_ms / 1000 >= e,
        None => false,
    }
}

/// Whether a token with the given time of expiry is expired now.
pub fn jwt_expired(exp: Option<u64>) -> (r: bool)
    ensures
        exists|reading: Option<u128>|
            clock::clock_reads(reading) && r == expired(
                exp,
                clock::unsigned_millis(reading) as u64,
            ),
        exp is None ==> !r,
{
    let now: u64 = clock::now_ms();
    jwt_expired_at(exp, now)
}

/// Once expired, a token stays expired.
pub proof fn law_expiry_is_final(exp: Option<u64>, earlier: u64, later: u64)
    requires
        expired(exp, earlier),
        earlier <= later,
    ensures
        expired(exp, later),
{
}

/// The request that asks which instance to talk to.
pub open spec fn route_request(token: Seq<char>) -> os3_http::RequestModel {
    os3_http::RequestModel {
        post: true,
        url: os3_http::OS3_BASE@ + "/session-directory/route"@,
        headers: os3_http::common_headers().push(("Content-Type"@, "application/json"@)),
        bearer: Some(token),
        body: Some("{}"@),
        timeout_secs: Some(30),
    }
}

/// The name that a status code goes by, such as `Not Found` for 404.
pub uninterp spec fn status_reason(code: u16) -> Seq<char>;

/// The display of a `StatusCode` is its three digits, a space and the name of
/// the code. The names are ASCII; they are only named here. A number that
/// `StatusCode::from_u16` does not take is left out.
#[verifier::external_body]
fn status_text(code: u16) -> (r: String)
    requires
        100 <= code <= 999,
    ensures
        r@ == text::decimal(code as nat) + " "@ + status_reason(code),
        vstd::utf8::is_ascii_chars(r@),
{
    reqwest::StatusCode::from_u16(code).map(|status| status.to_string()).unwrap_or_default()
}

/// The first characters of a text, at most `n` of them.
pub open spec fn first_chars(text: Seq<char>, n: int) -> Seq<char> {
    if text.len() <= n {
        text
    } else {
        text.take(n)
    }
}

/// The text of a refused route: its status and the beginning of its body.
pub open spec fn refused_route(status: u16, body: Seq<char>) -> Seq<char> {
    "HTTP "@ + text::decimal(status as nat) + " "@ + status_reason(status) + ": "@ + first_chars(
        body,
        300,
    )
}

/// What is said of an answer to the route request that is no success; `None`
/// for a success.
pub fn route_refusal(status: u16, body: &str) -> (r: Option<String>)
    requires
        100 <= status <= 999,
    ensures
        200 <= status <= 299 ==> r is None,
        !(200 <= status <= 299) ==> text::view_of(r) == Some(
            llm::error::friendly(refused_route(status, body@)),
        ),
        !(200 <= status <= 299) && vstd::utf8::is_ascii_chars(first_chars(body@, 300))
            ==> text::view_of(r) == Some(
            llm::error::spoken(text::ascii_lowercase(refused_route(status, body@))),
        ),
        status == 429 && vstd::utf8::is_ascii_chars(first_chars(body@, 300)) ==> text::view_of(r)
            == Some("I'm getting too many requests right now. Please try again in a moment."@),
{
    if 200 <= status && status <= 299 {
        return None;
    }
    let chars = text::chars_of(body);
    let n: usize = if chars.len() <= 300 {
        chars.len()
    } else {
        300
    };
    let start = text::string_of(&chars, 0, n);
    let code = status_text(status);
    let mut message = "HTTP ".to_owned();
    message.append(code.as_str());
    message.append(": ");
    message.append(start.as_str());
    proof {
        assert(start@ =~= first_chars(body@, 300));
        assert(message@ =~= refused_route(status, body@));
        if vstd::utf8::is_ascii_chars(first_chars(body@, 300)) {
            reveal_strlit("HTTP ");
            reveal_strlit(": ");
            assert(vstd::utf8::is_ascii_chars(message@)) by {
                assert forall|i: int| 0 <= i < message@.len() implies #[trigger] message@[i]
                    <= '\u{7f}' by {
                    if 5 <= i < 5 + code@.len() {
                        assert(message@[i] == code@[i - 5]);
                    } else if i >= 7 + code@.len() {
                        assert(message@[i] == start@[i - 7 - code@.len()]);
                    }
                }
            }
            if status == 429 {
                lemma_rate_limit_status(status_reason(429), start@);
            }
        }
    }
    Some(friendly_text(message.as_str()))
}

proof fn lemma_rate_limit_status(reason: Seq<char>, body: Seq<char>)
    ensures
        llm::error::rate_limited(
            text::ascii_lowercase(
                "HTTP "@ + text::decimal(429) + " "@ + reason + ": "@ + body,
            ),
        ),
{
    reveal_strlit("HTTP ");
    reveal_strlit("429");
    let raw = "HTTP "@ + text::decimal(429) + " "@ + reason + ": "@ + body;
    let lower = text::ascii_lowercase(raw);
    assert(text::decimal(429) == text::decimal(42).push(text::digit(9)));
    assert(text::decimal(42) == text::decimal(4).push(text::digit(2)));
    assert(text::decimal(4) == seq![text::digit(4)]);
    assert(raw[5] == '4' && raw[6] == '2' && raw[7] == '9');
    assert(lower.subrange(5, 8) =~= "429"@);
    assert(text::occurs_at(lower, "429"@, 5));
}

/// The address of the socket for a route, or what is wrong with the route.
pub open spec fn route_target(kind: Seq<char>, instance_id: Option<Seq<char>>) -> Result<
    Seq<char>,
    Seq<char>,
> {
    match instance_id {
        Some(id) => Ok("wss://os3-"@ + id + ".rabbit.tech/ws"@),
        None => if kind == "any"@ {
            Ok("wss://os3.rabbit.tech/ws"@)
        } else {
            Err("unexpected OS3 route kind: "@ + kind)
        },
    }
}

/// The text in either side of a result.
pub open spec fn view_of_texts(r: Result<String, String>) -> Result<Seq<char>, Seq<char>> {
    match r {
        Ok(t) => Ok(t@),
        Err(e) => Err(e@),
    }
}

/// The address of the socket for a route.
pub fn ws_url(kind: &str, instance_id: Option<&str>) -> (r: Result<String, String>)
    ensures
        view_of_texts(r) == route_target(kind@, text::view_of_str(instance_id)),
{
    match instance_id {
        Some(id) => {
            let mut url = "wss://os3-".to_owned();
            url.append(id);
            url.append(".rabbit.tech/ws");
            Ok(url)
        },
        None => {
            if text::same_text(kind, "any") {
                Ok("wss://os3.rabbit.tech/ws".to_owned())
            } else {
                let mut message = "unexpected OS3 route kind: ".to_owned();
                message.append(kind);
                Err(message)
            }
        },
    }
}

/// Where a chat is to be held.
pub struct RouteResponse {
    pub kind: String,
    pub instance_id: Option<String>,
}

/// The answer to the route request.
pub struct RouteAnswer {
    pub status: u16,
    pub body: String,
    /// The route that the body denotes, or why it denotes none.
    pub route: Result<RouteResponse, String>,
}

/// The address of the socket that an answer to the route request leads to, or
/// what is said instead. A request that failed is reported first, then a status
/// that is no success, then a body that is no route, then an unknown route.
pub open spec fn socket_for(answer: Result<RouteAnswer, String>) -> Result<Seq<char>, Seq<char>> {
    match answer {
        Err(e) => Err(stage_prefix(WsStage::Route) + e@),
        Ok(a) => if !(200 <= a.status <= 299) {
            Err(llm::error::friendly(refused_route(a.status, a.body@)))
        } else {
            match a.route {
                Err(e) => Err(stage_prefix(WsStage::RouteParse) + e@),
                Ok(route) => route_target(route.kind@, text::view_of(route.instance_id)),
            }
        },
    }
}

/// The address of the socket that an answer to the route request leads to.
pub fn resolve_ws_url(answer: Result<RouteAnswer, String>) -> (r: Result<String, String>)
    requires
        answer matches Ok(a) ==> 100 <= a.status <= 999,
    ensures
        view_of_texts(r) == socket_for(answer),
        answer matches Ok(a) ==> (!(200 <= a.status <= 299) && vstd::utf8::is_ascii_chars(
            first_chars(a.body@, 300),
        ) ==> view_of_texts(r) == Err::<Seq<char>, Seq<char>>(
            llm::error::spoken(text::ascii_lowercase(refused_route(a.status, a.body@))),
        )),
{
    match answer {
        Err(e) => Err(stage_failure(WsStage::Route, e.as_str())),
        Ok(a) => {
            if let Some(message) = route_refusal(a.status, a.body.as_str()) {
                return Err(message);
            }
            match a.route {
                Err(e) => Err(stage_failure(WsStage::RouteParse, e.as_str())),
                Ok(route) => match route.instance_id {
                    Some(id) => ws_url(route.kind.as_str(), Some(id.as_str())),
                    None => ws_url(route.kind.as_str(), None),
                },
            }
        },
    }
}

/// Where the talk with the service broke down.
pub enum WsStage {
    Route,
    RouteParse,
    Handshake,
    Origin,
    UserAgent,
    Connect,
    SendInit,
    SendChat,
}

/// What an error at a stage is introduced with.
pub open spec fn stage_prefix(stage: WsStage) -> Seq<char> {
    match stage {
        WsStage::Route => "OS3 route request failed: "@,
        WsStage::RouteParse => "OS3 route parse failed: "@,
        WsStage::Handshake => "OS3 ws handshake build failed: "@,
        WsStage::Origin => "origin: "@,
        WsStage::UserAgent => "ua: "@,
        WsStage::Connect => "OS3 ws connect failed: "@,
        WsStage::SendInit => "OS3 ws send init failed: "@,
        WsStage::SendChat => "OS3 ws send chat failed: "@,
    }
}

/// The text for an error at a stage.
pub fn stage_failure(stage: WsStage, detail: &str) -> (r: String)
    ensures
        r@ == stage_prefix(stage) + detail@,
{
    let mut message = match stage {
        WsStage::Route => "OS3 route request failed: ".to_owned(),
        WsStage::RouteParse => "OS3 route parse failed: ".to_owned(),
        WsStage::Handshake => "OS3 ws handshake build failed: ".to_owned(),
        WsStage::Origin => "origin: ".to_owned(),
        WsStage::UserAgent => "ua: ".to_owned(),
        WsStage::Connect => "OS3 ws connect failed: ".to_owned(),
        WsStage::SendInit => "OS3 ws send init failed: ".to_owned(),
        WsStage::SendChat => "OS3 ws send chat failed: ".to_owned(),
    };
    message.append(detail);
    message
}

/// The JSON text that opens a conversation, or resumes the one with the given
/// session id.
pub open spec fn init_frame(token: Seq<char>, session_id: Option<Seq<char>>, now_ms: u64) -> Seq<
    char,
> {
    "{\"type\":\"init\",\"version\":1,\"timestamp\":"@ + text::decimal(now_ms as nat)
        + ",\"accessToken\":"@ + json::quoted(token) + (match session_id {
        Some(id) => ",\"sessionId\":"@ + json::quoted(id),
        None => seq![],
    }) + "}"@
}

/// The JSON text that carries an utterance.
pub open spec fn chat_frame(utterance: Seq<char>, now_ms: u64) -> Seq<char> {
    "{\"type\":\"chat.message\",\"version\":1,\"timestamp\":"@ + text::decimal(now_ms as nat)
        + ",\"text\":"@ + json::quoted(utterance) + "}"@
}

/// The JSON text that carries an utterance.
pub fn chat_message(utterance: &str, now_ms: u64) -> (r: String)
    ensures
        r@ == chat_frame(utterance@, now_ms),
{
    let mut out = "{\"type\":\"chat.message\",\"version\":1,\"timestamp\":".to_owned();
    out.append(text::render(now_ms).as_str());
    out.append(",\"text\":");
    out.append(json::quote(utterance).as_str());
    out.append("}");
    out
}

impl DumbOs3Backend {
    /// The request that asks which instance to talk to.
    pub fn route_request(&self) -> (r: Os3Request)
        ensures
            r@ == route_request(self.token@),
    {
        let mut headers = start_headers();
        add_header(&mut headers, "Content-Type", "application/json");
        Os3Request {
            post: true,
            url: url_of("/session-directory/route"),
            headers,
            bearer: Some(self.token.clone()),
            body: Some("{}".to_owned()),
            timeout_secs: Some(30),
        }
    }

    /// The JSON text that opens a conversation, or resumes the one with the
    /// given session id.
    pub fn init_message(&self, session_id: Option<&str>, now_ms: u64) -> (r: String)
        ensures
            r@ == init_frame(self.token@, text::view_of_str(session_id), now_ms),
    {
        let mut out = "{\"type\":\"init\",\"version\":1,\"timestamp\":".to_owned();
        out.append(text::render(now_ms).as_str());
        out.append(",\"accessToken\":");
        out.append(json::quote(self.token.as_str()).as_str());
        match session_id {
            Some(id) => {
                let mut member = ",\"sessionId\":".to_owned();
                member.append(json::quote(id).as_str());
                out.append(member.as_str());
            },
            None => {
                let ghost before = out@;
                proof {
                    assert(before + Seq::<char>::empty() =~= before);
                }
            },
        }
        out.append("}");
        out
    }
}

/// The chat is set up with the key as it is, and with the place of the session
/// id that the settings name, or the usual one; without a key it is not set up.
pub proof fn law_backend_is_set_up_with_the_settings(llm: LlmConfig, key: Seq<char>)
    ensures
        llm.base_url matches Some(path) ==> os3_setup(llm, Some(key)) == Ok::<_, Seq<char>>(
            (key, path@),
        ),
        llm.base_url is None ==> os3_setup(llm, Some(key)) == Ok::<_, Seq<char>>(
            (key, "/data/local/tmp/PenumbraOS/os3-session.txt"@),
        ),
        os3_setup(llm, None) == Err::<(Seq<char>, Seq<char>), _>(
            "OS3 access token not set; log in via Pin Center (Rabbit OS3) to populate llm.api_key"@,
        ),
{
}

/// A session file gives the id in it without the white space around it; a file
/// of white space alone, and no file, give none.
pub proof fn law_session_id_is_read_without_white_space(
    front: Seq<char>,
    id: Seq<char>,
    back: Seq<char>,
)
    requires
        forall|i: int| 0 <= i < front.len() ==> text::white_space(#[trigger] front[i]),
        forall|i: int| 0 <= i < back.len() ==> text::white_space(#[trigger] back[i]),
        id.len() > 0 ==> !text::white_space(id[0]) && !text::white_space(id.last()),
    ensures
        id.len() > 0 ==> session_in(Some(front + id + back)) == Some(id),
        id.len() == 0 ==> session_in(Some(front + id + back)) is None,
        session_in(None) is None,
{
    text::law_trimming_leaves_the_middle(front, id, back);
}

proof fn lemma_first_dot(a: Seq<char>, b: Seq<char>, from: int)
    requires
        0 <= from <= a.len(),
        forall|i: int| from <= i < a.len() ==> #[trigger] a[i] != '.',
        b.len() > 0 ==> b[0] == '.',
    ensures
        text::index_from(a + b, '.', from) == a.len(),
{
    let whole = a + b;
    text::lemma_index_from(whole, '.', from);
    let at = text::index_from(whole, '.', from);
    if at < a.len() {
        assert(whole[at] == a[at]);
    }
    if at > a.len() {
        assert(whole[a.len() as int] == b[0]);
    }
}

/// The payload of a token stands between its first dot and its second, or its
/// end; a token without a dot has none.
pub proof fn law_payload_stands_between_the_dots(
    head: Seq<char>,
    payload: Seq<char>,
    rest: Seq<char>,
)
    requires
        forall|i: int| 0 <= i < head.len() ==> #[trigger] head[i] != '.',
        forall|i: int| 0 <= i < payload.len() ==> #[trigger] payload[i] != '.',
        rest.len() > 0 ==> rest[0] == '.',
    ensures
        second_segment(head + seq!['.'] + payload + rest) == Some(payload),
        second_segment(head) is None,
{
    let front = head + seq!['.'] + payload;
    let token = front + rest;
    let tail = seq!['.'] + payload + rest;
    assert(token =~= head + tail);
    lemma_first_dot(head, tail, 0);
    assert forall|i: int| head.len() + 1 <= i < front.len() implies #[trigger] front[i] != '.' by {
        assert(front[i] == payload[i - head.len() - 1]);
    }
    lemma_first_dot(front, rest, head.len() as int + 1);
    assert(token.subrange(head.len() as int + 1, front.len() as int) =~= payload);
    lemma_first_dot(head, seq![], 0);
    assert(head + Seq::<char>::empty() =~= head);
}

/// A token is expired from the first millisecond of the second in which it
/// expires, and not before; one without a time of expiry never is.
pub proof fn law_token_expires_on_time(exp: u64, now_ms: u64)
    ensures
        now_ms >= 1000 * exp ==> expired(Some(exp), now_ms),
        now_ms < 1000 * exp ==> !expired(Some(exp), now_ms),
        !expired(None, now_ms),
{
}

/// The route is asked for with the token as it is.
pub proof fn law_route_is_asked_for_with_the_token(token: Seq<char>)
    ensures
        ({
            let request = route_request(token);
            &&& request.post
            &&& request.url == "https://os3.rabbit.tech"@ + "/session-directory/route"@
            &&& request.bearer == Some(token)
            &&& request.body == Some("{}"@)
            &&& request.timeout_secs == Some(30u64)
            &&& request.headers == seq![
                ("Origin"@, "https://os3.rabbit.tech"@),
                ("Referer"@, "https://os3.rabbit.tech"@ + "/"@),
                (
                    "User-Agent"@,
                    "Mozilla/5.0 (X11; Linux x86_64) AppleWebKit/537.36 Chrome/131.0 Safari/537.36"@,
                ),
                ("Content-Type"@, "application/json"@),
            ]
        }),
{
    assert(route_request(token).headers =~= seq![
        ("Origin"@, "https://os3.rabbit.tech"@),
        ("Referer"@, "https://os3.rabbit.tech"@ + "/"@),
        (
            "User-Agent"@,
            "Mozilla/5.0 (X11; Linux x86_64) AppleWebKit/537.36 Chrome/131.0 Safari/537.36"@,
        ),
        ("Content-Type"@, "application/json"@),
    ]);
}

/// Of a body, all is looked at if it is short, and its first 300 characters
/// otherwise; what comes after them makes no difference.
pub proof fn law_first_300_characters_count(status: u16, body: Seq<char>, more: Seq<char>)
    ensures
        body.len() <= 300 ==> refused_route(status, body) == "HTTP "@ + text::decimal(
            status as nat,
        ) + " "@ + status_reason(status) + ": "@ + body,
        body.len() == 300 ==> refused_route(status, body + more) == refused_route(status, body),
{
    if body.len() == 300 {
        assert(first_chars(body + more, 300) =~= body);
    }
}

/// A route with an instance leads to the socket of that instance, a route to any
/// instance leads to the common socket, and any other route is named as
/// unexpected.
pub proof fn law_route_leads_to_its_socket(kind: Seq<char>, id: Seq<char>)
    ensures
        route_target(kind, Some(id)) == Ok::<_, Seq<char>>(
            "wss://os3-"@ + id + ".rabbit.tech/ws"@,
        ),
        kind == "any"@ ==> route_target(kind, None) == Ok::<_, Seq<char>>(
            "wss://os3.rabbit.tech/ws"@,
        ),
        kind != "any"@ ==> route_target(kind, None) == Err::<Seq<char>, _>(
            "unexpected OS3 route kind: "@ + kind,
        ),
{
}

/// The answer to the route request leads to the socket of its route if it is a
/// success with a route in it. A status that is no success is answered with the
/// sentence for it, and what went wrong with the request or its body is named.
pub proof fn law_route_answers_are_judged_in_order(answer: RouteAnswer, failure: String)
    ensures
        socket_for(Err(failure)) == Err::<Seq<char>, _>(
            "OS3 route request failed: "@ + failure@,
        ),
        answer.status < 200 || answer.status > 299 ==> socket_for(Ok(answer)) == Err::<
            Seq<char>,
            _,
        >(llm::error::spoken(text::lowercase(refused_route(answer.status, answer.body@)))),
        200 <= answer.status <= 299 ==> (answer.route matches Ok(route) ==> socket_for(Ok(answer))
            == route_target(route.kind@, text::view_of(route.instance_id))),
        200 <= answer.status <= 299 ==> (answer.route matches Err(e) ==> socket_for(Ok(answer))
            == Err::<Seq<char>, _>("OS3 route parse failed: "@ + e@)),
{
}

/// A failure keeps all of what went wrong, after the words for its stage.
pub proof fn law_stages_are_named(text: String)
    ensures
        stage_prefix(WsStage::Route) == "OS3 route request failed: "@,
        stage_prefix(WsStage::RouteParse) == "OS3 route parse failed: "@,
        stage_prefix(WsStage::Handshake) == "OS3 ws handshake build failed: "@,
        stage_prefix(WsStage::Origin) == "origin: "@,
        stage_prefix(WsStage::UserAgent) == "ua: "@,
        stage_prefix(WsStage::Connect) == "OS3 ws connect failed: "@,
        stage_prefix(WsStage::SendInit) == "OS3 ws send init failed: "@,
        stage_prefix(WsStage::SendChat) == "OS3 ws send chat failed: "@,
        view_of_texts(Ok(text)) == Ok::<_, Seq<char>>(text@),
        view_of_texts(Err(text)) == Err::<Seq<char>, _>(text@),
{
}

/// The opening message carries the access token and the session id as they are,
/// and the time; the message of an utterance carries the whole utterance.
pub proof fn law_messages_carry_what_was_given(
    token: Seq<char>,
    id: Seq<char>,
    utterance: Seq<char>,
    now_ms: u64,
)
    ensures
        init_frame(token, None, now_ms) == "{\"type\":\"init\",\"version\":1,\"timestamp\":"@
            + text::decimal(now_ms as nat) + ",\"accessToken\":"@ + json::quoted(token) + "}"@,
        init_frame(token, Some(id), now_ms) == "{\"type\":\"init\",\"version\":1,\"timestamp\":"@
            + text::decimal(now_ms as nat) + ",\"accessToken\":"@ + json::quoted(token)
            + ",\"sessionId\":"@ + json::quoted(id) + "}"@,
        chat_frame(utterance, now_ms)
            == "{\"type\":\"chat.message\",\"version\":1,\"timestamp\":"@ + text::decimal(
            now_ms as nat,
        ) + ",\"text\":"@ + json::quoted(utterance) + "}"@,
{
    assert(init_frame(token, None, now_ms) =~= "{\"type\":\"init\",\"version\":1,\"timestamp\":"@
        + text::decimal(now_ms as nat) + ",\"accessToken\":"@ + json::quoted(token) + "}"@);
    assert(init_frame(token, Some(id), now_ms)
        =~= "{\"type\":\"init\",\"version\":1,\"timestamp\":"@ + text::decimal(now_ms as nat)
        + ",\"accessToken\":"@ + json::quoted(token) + ",\"sessionId\":"@ + json::quoted(id)
        + "}"@);
}

/// Different utterances never make the same message at the same time.
pub proof fn law_different_utterances_make_different_messages(
    a: Seq<char>,
    b: Seq<char>,
    now_ms: u64,
)
    requires
        chat_frame(a, now_ms) == chat_frame(b, now_ms),
    ensures
        a == b,
{
    let front = "{\"type\":\"chat.message\",\"version\":1,\"timestamp\":"@ + text::decimal(
        now_ms as nat,
    ) + ",\"text\":"@;
    let l = chat_frame(a, now_ms);
    let r = chat_frame(b, now_ms);
    let back = "}"@.len();
    assert(l.subrange(front.len() as int, l.len() - back) =~= json::quoted(a));
    assert(r.subrange(front.len() as int, r.len() - back) =~= json::quoted(b));
    json::law_quoting_loses_nothing(a, b);
}

} // verus!
