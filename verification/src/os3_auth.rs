//! The login to the OS3 service, step by step.
//!
//! The user types email and password in Pin Center. Each endpoint is a short
//! conversation with the service: it begins with a request, and every answer
//! leads to the next request or to the reply for Center. The password stands
//! in one request body only; neither the conversation nor the session keeps it.

use crate::cookies::CookieJar;
use crate::os3_http::{os3_get_json, os3_post_json, receive, Os3Answer, Os3Reply, Os3Request};
use crate::{cookies, json, os3_http, text};
use vstd::prelude::*;
use vstd::string::*;

verus! {

/// The answer of the start endpoint.
pub struct Os3StartResponse {
    pub state: String,
    pub error: Option<String>,
}

/// The answer of the other two endpoints.
pub struct Os3VerifyResponse {
    pub ok: bool,
    pub error: Option<String>,
    pub next: Option<String>,
}

/// An optional string member of a JSON object, with the comma before it.
pub open spec fn member(key: Seq<char>, value: Option<Seq<char>>) -> Seq<char> {
    match value {
        Some(v) => ",\""@ + key + "\":"@ + json::quoted(v),
        None => seq![],
    }
}

/// The JSON text of a start answer; an absent error is left out.
pub open spec fn start_body(state: Seq<char>, error: Option<Seq<char>>) -> Seq<char> {
    "{\"state\":"@ + json::quoted(state) + member("error"@, error) + "}"@
}

/// The JSON text of a verify answer; absent members are left out.
pub open spec fn verify_body(
    ok: bool,
    error: Option<Seq<char>>,
    next: Option<Seq<char>>,
) -> Seq<char> {
    (if ok {
        "{\"ok\":true"@
    } else {
        "{\"ok\":false"@
    }) + member("error"@, error) + member("next"@, next) + "}"@
}

fn append_member(out: &mut String, key: &str, value: &Option<String>)
    ensures
        final(out)@ == old(out)@ + member(key@, text::view_of(*value)),
{
    let ghost before = out@;
    if let Some(v) = value {
        out.append(",\"");
        out.append(key);
        out.append("\":");
        out.append(json::quote(v.as_str()).as_str());
        proof {
            assert(out@ =~= before + member(key@, text::view_of(*value)));
        }
    } else {
        proof {
            assert(out@ =~= before + member(key@, text::view_of(*value)));
        }
    }
}

impl Os3StartResponse {
    /// The answer as JSON.
    pub fn to_json(&self) -> (r: String)
        ensures
            r@ == start_body(self.state@, text::view_of(self.error)),
    {
        let mut out = "{\"state\":".to_owned();
        out.append(json::quote(self.state.as_str()).as_str());
        append_member(&mut out, "error", &self.error);
        out.append("}");
        out
    }
}

impl Os3VerifyResponse {
    /// The answer as JSON.
    pub fn to_json(&self) -> (r: String)
        ensures
            r@ == verify_body(self.ok, text::view_of(self.error), text::view_of(self.next)),
    {
        let mut out = if self.ok {
            "{\"ok\":true".to_owned()
        } else {
            "{\"ok\":false".to_owned()
        };
        append_member(&mut out, "error", &self.error);
        append_member(&mut out, "next", &self.next);
        out.append("}");
        out
    }
}

/// What Center is answered: a status code and a JSON text.
pub struct HttpReply {
    pub status: u16,
    pub body: String,
}

/// How a step ended: what Center is answered, and the access token to store if
/// one was obtained.
pub struct Outcome {
    pub reply: HttpReply,
    pub token: Option<String>,
}

/// What an outcome holds.
pub struct OutcomeModel {
    pub status: u16,
    pub body: Seq<char>,
    pub token: Option<Seq<char>>,
}

impl View for HttpReply {
    type V = (u16, Seq<char>);

    open spec fn view(&self) -> (u16, Seq<char>) {
        (self.status, self.body@)
    }
}

impl View for Outcome {
    type V = OutcomeModel;

    open spec fn view(&self) -> OutcomeModel {
        OutcomeModel {
            status: self.reply.status,
            body: self.reply.body@,
            token: text::view_of(self.token),
        }
    }
}

/// A start answer without a token.
pub open spec fn start_outcome(
    status: u16,
    state: Seq<char>,
    error: Option<Seq<char>>,
) -> OutcomeModel {
    OutcomeModel { status, body: start_body(state, error), token: None }
}

/// A verify answer without a token.
pub open spec fn verify_outcome(
    status: u16,
    ok: bool,
    error: Option<Seq<char>>,
    next: Option<Seq<char>>,
) -> OutcomeModel {
    OutcomeModel { status, body: verify_body(ok, error, next), token: None }
}

/// A refusal with a message.
pub open spec fn refusal(status: u16, message: Seq<char>) -> (u16, Seq<char>) {
    (status, verify_body(false, Some(message), None))
}

fn answer_start(status: u16, state: &str, error: Option<String>, token: Option<String>) -> (r:
    Outcome)
    ensures
        r@ == (OutcomeModel {
            status,
            body: start_body(state@, text::view_of(error)),
            token: text::view_of(token),
        }),
{
    let response = Os3StartResponse { state: state.to_owned(), error };
    Outcome { reply: HttpReply { status, body: response.to_json() }, token }
}

fn answer_verify(
    status: u16,
    ok: bool,
    error: Option<String>,
    next: Option<String>,
    token: Option<String>,
) -> (r: Outcome)
    ensures
        r@ == (OutcomeModel {
            status,
            body: verify_body(ok, text::view_of(error), text::view_of(next)),
            token: text::view_of(token),
        }),
{
    let response = Os3VerifyResponse { ok, error, next };
    Outcome { reply: HttpReply { status, body: response.to_json() }, token }
}

/// A refusal with a message.
pub fn error_response(code: u16, message: &str) -> (r: HttpReply)
    ensures
        r@ == refusal(code, message@),
{
    let response = Os3VerifyResponse { ok: false, error: Some(message.to_owned()), next: None };
    HttpReply { status: code, body: response.to_json() }
}

/// What is kept between the endpoints: the email of a login that waits for its
/// code or password, and its cookies.
pub struct AuthSession {
    pub email: Option<String>,
    pub cookies: CookieJar,
}

/// What a session holds.
pub struct SessionModel {
    pub email: Option<Seq<char>>,
    pub cookies: cookies::Cookies,
}

impl View for AuthSession {
    type V = SessionModel;

    open spec fn view(&self) -> SessionModel {
        SessionModel { email: text::view_of(self.email), cookies: self.cookies.cookies() }
    }
}

impl AuthSession {
    /// A session in which no login was started.
    pub fn new() -> (s: AuthSession)
        ensures
            s@.email is None,
            s@.cookies == Seq::<(Seq<char>, Seq<char>)>::empty(),
    {
        AuthSession { email: None, cookies: CookieJar::new() }
    }
}

/// What the service said of a failure: its error text, or its status.
pub open spec fn said(reply: os3_http::ReplyModel) -> Seq<char> {
    match reply.error {
        Some(e) => e,
        None => "HTTP "@ + text::decimal(reply.status as nat),
    }
}

fn what_was_said(prefix: &str, reply: &Os3Reply) -> (r: String)
    ensures
        r@ == prefix@ + said(reply@),
{
    let mut out = prefix.to_owned();
    match &reply.error {
        Some(e) => {
            out.append(e.as_str());
        },
        None => {
            let mut status = "HTTP ".to_owned();
            status.append(text::render(reply.status as u64).as_str());
            out.append(status.as_str());
        },
    }
    out
}

/// What comes after an answer: another request, or the end.
pub enum Next<F> {
    Ask(F, Os3Request),
    Done(Outcome),
}

/// What a `Next` holds.
pub enum NextModel<M> {
    Ask(M, os3_http::RequestModel),
    Done(OutcomeModel),
}

/// Which answer a start waits for.
pub enum StartStage {
    Token,
    Email,
}

/// A start that waits for an answer.
pub struct StartFlow {
    email: String,
    jar: CookieJar,
    stage: StartStage,
}

/// What a start holds.
pub struct StartModel {
    pub email: Seq<char>,
    pub jar: cookies::Cookies,
    pub stage: StartStage,
}

impl View for StartFlow {
    type V = StartModel;

    closed spec fn view(&self) -> StartModel {
        StartModel { email: self.email@, jar: self.jar.cookies(), stage: self.stage }
    }
}

/// Whether an email, trimmed and in lower case, is accepted.
pub open spec fn plausible_email(email: Seq<char>) -> bool {
    email.len() > 0 && email.contains('@')
}

/// How a start begins with an email that is trimmed and in lower case.
pub open spec fn start_begins(email: Seq<char>) -> Result<
    (StartModel, os3_http::RequestModel),
    (u16, Seq<char>),
> {
    if plausible_email(email) {
        Ok(
            (
                StartModel { email, jar: seq![], stage: StartStage::Token },
                os3_http::login_request("/api/auth/token"@, None, seq![]),
            ),
        )
    } else {
        Err(refusal(400, "enter a valid email"@))
    }
}

/// A beginning of a conversation.
pub open spec fn view_of_start(r: Result<(StartFlow, Os3Request), HttpReply>) -> Result<
    (StartModel, os3_http::RequestModel),
    (u16, Seq<char>),
> {
    match r {
        Ok((f, q)) => Ok((f@, q@)),
        Err(e) => Err(e@),
    }
}

/// What comes after an answer to a start.
pub open spec fn view_of_start_next(n: Next<StartFlow>) -> NextModel<StartModel> {
    match n {
        Next::Ask(f, q) => NextModel::Ask(f@, q@),
        Next::Done(o) => NextModel::Done(o@),
    }
}

/// The payload that names an email.
pub open spec fn email_payload(email: Seq<char>) -> Seq<char> {
    "{\"email\":"@ + json::quoted(email) + "}"@
}

/// How a start goes on after a reply, and what becomes of the session.
///
/// A token that can be had at once ends the login. Else a code is sent for, and
/// the session remembers the email and the cookies exactly if the service asks
/// for that code.
pub open spec fn start_goes_on(
    flow: StartModel,
    session: SessionModel,
    reply: Result<os3_http::ReplyModel, Seq<char>>,
) -> (NextModel<StartModel>, SessionModel) {
    match flow.stage {
        StartStage::Token => match reply {
            Ok(r) if r.status == 200 && r.access_token is Some => (
                NextModel::Done(
                    OutcomeModel {
                        status: 200,
                        body: start_body("ok"@, None),
                        token: r.access_token,
                    },
                ),
                SessionModel { email: None, ..session },
            ),
            _ => (
                NextModel::Ask(
                    StartModel { stage: StartStage::Email, ..flow },
                    os3_http::login_request(
                        "/api/auth/embedded/email"@,
                        Some(email_payload(flow.email)),
                        flow.jar,
                    ),
                ),
                session,
            ),
        },
        StartStage::Email => match reply {
            Ok(r) if r.status == 200 => if r.next == Some("verify-email"@) {
                (
                    NextModel::Done(start_outcome(200, "need_code"@, None)),
                    SessionModel { email: Some(flow.email), cookies: flow.jar },
                )
            } else {
                let next = match r.next {
                    Some(n) => n,
                    None => ""@,
                };
                (
                    NextModel::Done(
                        start_outcome(200, "error"@, Some("unexpected state: "@ + next)),
                    ),
                    session,
                )
            },
            Ok(r) => (
                NextModel::Done(start_outcome(502, "error"@, Some("OS3 said: "@ + said(r)))),
                session,
            ),
            Err(e) => (NextModel::Done(start_outcome(502, "error"@, Some(e))), session),
        },
    }
}

/// Begins the embedded login for the email that the user typed. Center calls
/// this with `POST /api/auth/os3/start {email}`.
pub fn auth_start(email: &str) -> (r: Result<(StartFlow, Os3Request), HttpReply>)
    ensures
        view_of_start(r) == start_begins(text::lowercase(text::trimmed(email@))),
        vstd::utf8::is_ascii_chars(text::trimmed(email@)) ==> view_of_start(r) == start_begins(
            text::ascii_lowercase(text::trimmed(email@)),
        ),
{
    let trimmed = text::trim(email);
    begin_start(trimmed.as_str().to_lowercase())
}

/// Begins the embedded login for an email that is trimmed and in lower case.
pub fn begin_start(email: String) -> (r: Result<(StartFlow, Os3Request), HttpReply>)
    ensures
        view_of_start(r) == start_begins(email@),
{
    let chars = text::chars_of(email.as_str());
    let at = text::find_from(&chars, '@', 0);
    proof {
        text::lemma_index_from(email@, '@', 0);
        assert(at < email@.len() <==> email@.contains('@'));
    }
    if at >= chars.len() {
        return Err(error_response(400, "enter a valid email"));
    }
    let jar = CookieJar::new();
    let request = os3_get_json("/api/auth/token", &jar);
    let flow = StartFlow { email, jar, stage: StartStage::Token };
    Ok((flow, request))
}

fn text_or_empty(s: &Option<String>) -> (r: String)
    ensures
        r@ == (match text::view_of(*s) {
            Some(t) => t,
            None => ""@,
        }),
{
    match s {
        Some(t) => t.clone(),
        None => "".to_owned(),
    }
}

impl StartFlow {
    /// Takes an answer, cookies included, and goes on.
    pub fn on_answer(self, answer: Result<Os3Answer, String>, session: &mut AuthSession) -> (r: Next<
        StartFlow,
    >)
        ensures
            (view_of_start_next(r), final(session)@) == start_goes_on(
                (StartModel { jar: os3_http::jar_after(self@.jar, answer), ..self@ }),
                old(session)@,
                os3_http::received(answer),
            ),
    {
        let StartFlow { email, jar, stage } = self;
        let mut jar = jar;
        let reply = receive(&mut jar, answer);
        let flow = StartFlow { email, jar, stage };
        flow.decide(reply, session)
    }

    /// Goes on after a reply.
    pub fn decide(self, reply: Result<Os3Reply, String>, session: &mut AuthSession) -> (r: Next<
        StartFlow,
    >)
        ensures
            (view_of_start_next(r), final(session)@) == start_goes_on(
                self@,
                old(session)@,
                os3_http::view_of_reply(reply),
            ),
    {
        let StartFlow { email, jar, stage } = self;
        match stage {
            StartStage::Token => {
                if let Ok(r) = reply {
                    if r.status == 200 && r.access_token.is_some() {
                        session.email = None;
                        return Next::Done(answer_start(200, "ok", None, r.access_token));
                    }
                }
                let mut body = "{\"email\":".to_owned();
                body.append(json::quote(email.as_str()).as_str());
                body.append("}");
                let request = os3_post_json("/api/auth/embedded/email", body, &jar);
                Next::Ask(StartFlow { email, jar, stage: StartStage::Email }, request)
            },
            StartStage::Email => match reply {
                Ok(r) => {
                    if r.status == 200 {
                        let next = text_or_empty(&r.next);
                        proof {
                            reveal_strlit("");
                            reveal_strlit("verify-email");
                        }
                        if text::same_text(next.as_str(), "verify-email") {
                            session.email = Some(email);
                            session.cookies = jar;
                            Next::Done(answer_start(200, "need_code", None, None))
                        } else {
                            let mut message = "unexpected state: ".to_owned();
                            message.append(next.as_str());
                            Next::Done(answer_start(200, "error", Some(message), None))
                        }
                    } else {
                        let message = what_was_said("OS3 said: ", &r);
                        Next::Done(answer_start(502, "error", Some(message), None))
                    }
                },
                Err(e) => Next::Done(answer_start(502, "error", Some(e), None)),
            },
        }
    }
}

/// A code check that waits for its answer.
pub struct VerifyFlow {
    jar: CookieJar,
}

impl View for VerifyFlow {
    type V = cookies::Cookies;

    closed spec fn view(&self) -> cookies::Cookies {
        self.jar.cookies()
    }
}

/// The payload that gives a code.
pub open spec fn code_payload(code: Seq<char>) -> Seq<char> {
    "{\"code\":"@ + json::quoted(code) + "}"@
}

/// How a code check begins.
pub open spec fn verify_begins(code: Option<Seq<char>>, session: SessionModel) -> Result<
    (cookies::Cookies, os3_http::RequestModel),
    (u16, Seq<char>),
> {
    match code {
        None => Err(refusal(400, "code required"@)),
        Some(c) => if session.email is None {
            Err(refusal(400, "start the login first"@))
        } else {
            Ok(
                (
                    session.cookies,
                    os3_http::login_request(
                        "/api/auth/embedded/verify-email"@,
                        Some(code_payload(c)),
                        session.cookies,
                    ),
                ),
            )
        },
    }
}

/// A beginning of a code check.
pub open spec fn view_of_verify(r: Result<(VerifyFlow, Os3Request), HttpReply>) -> Result<
    (cookies::Cookies, os3_http::RequestModel),
    (u16, Seq<char>),
> {
    match r {
        Ok((f, q)) => Ok((f@, q@)),
        Err(e) => Err(e@),
    }
}

/// How a code check ends, and what becomes of the session: an accepted code
/// says what to ask for next, and its cookies are kept.
pub open spec fn verify_ends(
    jar: cookies::Cookies,
    session: SessionModel,
    reply: Result<os3_http::ReplyModel, Seq<char>>,
) -> (OutcomeModel, SessionModel) {
    match reply {
        Ok(r) if r.status == 200 => (
            verify_outcome(
                200,
                true,
                None,
                Some(
                    match r.next {
                        Some(n) => n,
                        None => ""@,
                    },
                ),
            ),
            SessionModel { cookies: jar, ..session },
        ),
        Ok(r) => (verify_outcome(200, false, r.error, None), session),
        Err(e) => (verify_outcome(502, false, Some(e), None), session),
    }
}

/// Submits the emailed code. Center calls this with
/// `POST /api/auth/os3/verify {code}`; the `next` of the answer tells Center
/// what to ask for: `login` or `signup`.
pub fn auth_verify_code(code: Option<&str>, session: &AuthSession) -> (r: Result<
    (VerifyFlow, Os3Request),
    HttpReply,
>)
    ensures
        view_of_verify(r) == verify_begins(text::view_of_str(code), session@),
{
    match code {
        None => Err(error_response(400, "code required")),
        Some(c) => {
            if session.email.is_none() {
                return Err(error_response(400, "start the login first"));
            }
            let jar = session.cookies.copy();
            let mut body = "{\"code\":".to_owned();
            body.append(json::quote(c).as_str());
            body.append("}");
            let request = os3_post_json("/api/auth/embedded/verify-email", body, &jar);
            Ok((VerifyFlow { jar }, request))
        },
    }
}

impl VerifyFlow {
    /// Takes the answer, cookies included, and ends.
    pub fn on_answer(self, answer: Result<Os3Answer, String>, session: &mut AuthSession) -> (r:
        Outcome)
        ensures
            (r@, final(session)@) == verify_ends(
                os3_http::jar_after(self@, answer),
                old(session)@,
                os3_http::received(answer),
            ),
    {
        let VerifyFlow { jar } = self;
        let mut jar = jar;
        let reply = receive(&mut jar, answer);
        VerifyFlow { jar }.decide(reply, session)
    }

    /// Ends with a reply.
    pub fn decide(self, reply: Result<Os3Reply, String>, session: &mut AuthSession) -> (r: Outcome)
        ensures
            (r@, final(session)@) == verify_ends(
                self@,
                old(session)@,
                os3_http::view_of_reply(reply),
            ),
    {
        let VerifyFlow { jar } = self;
        match reply {
            Ok(r) => {
                if r.status == 200 {
                    session.cookies = jar;
                    answer_verify(200, true, None, Some(text_or_empty(&r.next)), None)
                } else {
                    answer_verify(200, false, r.error, None, None)
                }
            },
            Err(e) => answer_verify(502, false, Some(e), None, None),
        }
    }
}

/// Which answer a password submission waits for.
pub enum PasswordStage {
    Submit,
    Token,
}

/// A password submission that waits for an answer. The password is not part of
/// it.
pub struct PasswordFlow {
    jar: CookieJar,
    stage: PasswordStage,
}

/// What a password submission holds.
pub struct PasswordModel {
    pub jar: cookies::Cookies,
    pub stage: PasswordStage,
}

impl View for PasswordFlow {
    type V = PasswordModel;

    closed spec fn view(&self) -> PasswordModel {
        PasswordModel { jar: self.jar.cookies(), stage: self.stage }
    }
}

/// The payload for a new account.
pub open spec fn signup_payload(password: Seq<char>) -> Seq<char> {
    "{\"password\":"@ + json::quoted(password) + "}"@
}

/// The payload for an existing account.
pub open spec fn login_payload(email: Seq<char>, password: Seq<char>) -> Seq<char> {
    "{\"email\":"@ + json::quoted(email) + ",\"password\":"@ + json::quoted(password) + "}"@
}

/// Whether Center asks for a new account: by the flag, or by the word in the
/// place of the code.
pub open spec fn wants_signup(code: Option<Seq<char>>, signup: bool) -> bool {
    signup || code == Some("signup"@)
}

/// How a password submission begins.
pub open spec fn password_begins(
    password: Option<Seq<char>>,
    code: Option<Seq<char>>,
    signup: bool,
    session: SessionModel,
) -> Result<(PasswordModel, os3_http::RequestModel), (u16, Seq<char>)> {
    match password {
        None => Err(refusal(400, "password required"@)),
        Some(p) => match session.email {
            None => Err(refusal(400, "start the login first"@)),
            Some(email) => Ok(
                (
                    PasswordModel { jar: session.cookies, stage: PasswordStage::Submit },
                    if wants_signup(code, signup) {
                        os3_http::login_request(
                            "/api/auth/embedded/signup"@,
                            Some(signup_payload(p)),
                            session.cookies,
                        )
                    } else {
                        os3_http::login_request(
                            "/api/auth/embedded/login"@,
                            Some(login_payload(email, p)),
                            session.cookies,
                        )
                    },
                ),
            ),
        },
    }
}

/// A beginning of a password submission.
pub open spec fn view_of_password(r: Result<(PasswordFlow, Os3Request), HttpReply>) -> Result<
    (PasswordModel, os3_http::RequestModel),
    (u16, Seq<char>),
> {
    match r {
        Ok((f, q)) => Ok((f@, q@)),
        Err(e) => Err(e@),
    }
}

/// What comes after an answer to a password submission.
pub open spec fn view_of_password_next(n: Next<PasswordFlow>) -> NextModel<PasswordModel> {
    match n {
        Next::Ask(f, q) => NextModel::Ask(f@, q@),
        Next::Done(o) => NextModel::Done(o@),
    }
}

/// A refusal as an outcome.
pub open spec fn refused(status: u16, message: Seq<char>) -> OutcomeModel {
    verify_outcome(status, false, Some(message), None)
}

/// How a password submission goes on after a reply, and what becomes of the
/// session: an accepted password is followed by a request for the token, and
/// the token ends the login.
pub open spec fn password_goes_on(
    flow: PasswordModel,
    session: SessionModel,
    reply: Result<os3_http::ReplyModel, Seq<char>>,
) -> (NextModel<PasswordModel>, SessionModel) {
    match flow.stage {
        PasswordStage::Submit => match reply {
            Ok(r) if r.status == 200 => (
                NextModel::Ask(
                    PasswordModel { stage: PasswordStage::Token, ..flow },
                    os3_http::login_request("/api/auth/token"@, None, flow.jar),
                ),
                session,
            ),
            Ok(r) => (NextModel::Done(verify_outcome(200, false, r.error, None)), session),
            Err(e) => (NextModel::Done(refused(502, e)), session),
        },
        PasswordStage::Token => match reply {
            Ok(r) if r.status == 200 => if r.access_token is Some {
                (
                    NextModel::Done(
                        OutcomeModel {
                            status: 200,
                            body: verify_body(true, None, Some("complete"@)),
                            token: r.access_token,
                        },
                    ),
                    SessionModel { email: None, ..session },
                )
            } else {
                (
                    NextModel::Done(refused(502, "login succeeded but token mint failed"@)),
                    session,
                )
            },
            Ok(r) => (
                NextModel::Done(refused(502, "token mint failed: "@ + said(r))),
                session,
            ),
            Err(e) => (NextModel::Done(refused(502, e)), session),
        },
    }
}

/// Submits the password of a login or of a new account. Center calls this with
/// `POST /api/auth/os3/password {password, signup}`; `signup` in the place of a
/// code asks for a new account too.
pub fn auth_submit_password(
    password: Option<&str>,
    code: Option<&str>,
    signup: bool,
    session: &AuthSession,
) -> (r: Result<(PasswordFlow, Os3Request), HttpReply>)
    ensures
        view_of_password(r) == password_begins(
            text::view_of_str(password),
            text::view_of_str(code),
            signup,
            session@,
        ),
{
    let p = match password {
        None => {
            return Err(error_response(400, "password required"));
        },
        Some(p) => p,
    };
    let email = match &session.email {
        None => {
            return Err(error_response(400, "start the login first"));
        },
        Some(email) => email.as_str(),
    };
    let jar = session.cookies.copy();
    let is_signup = signup || match code {
        Some(c) => text::same_text(c, "signup"),
        None => false,
    };
    let request = if is_signup {
        let mut body = "{\"password\":".to_owned();
        body.append(json::quote(p).as_str());
        body.append("}");
        os3_post_json("/api/auth/embedded/signup", body, &jar)
    } else {
        let mut body = "{\"email\":".to_owned();
        body.append(json::quote(email).as_str());
        body.append(",\"password\":");
        body.append(json::quote(p).as_str());
        body.append("}");
        os3_post_json("/api/auth/embedded/login", body, &jar)
    };
    Ok((PasswordFlow { jar, stage: PasswordStage::Submit }, request))
}

impl PasswordFlow {
    /// Takes an answer, cookies included, and goes on.
    pub fn on_answer(self, answer: Result<Os3Answer, String>, session: &mut AuthSession) -> (r: Next<
        PasswordFlow,
    >)
        ensures
            (view_of_password_next(r), final(session)@) == password_goes_on(
                (PasswordModel { jar: os3_http::jar_after(self@.jar, answer), ..self@ }),
                old(session)@,
                os3_http::received(answer),
            ),
    {
        let PasswordFlow { jar, stage } = self;
        let mut jar = jar;
        let reply = receive(&mut jar, answer);
        PasswordFlow { jar, stage }.decide(reply, session)
    }

    /// Goes on after a reply.
    pub fn decide(self, reply: Result<Os3Reply, String>, session: &mut AuthSession) -> (r: Next<
        PasswordFlow,
    >)
        ensures
            (view_of_password_next(r), final(session)@) == password_goes_on(
                self@,
                old(session)@,
                os3_http::view_of_reply(reply),
            ),
    {
        let PasswordFlow { jar, stage } = self;
        match stage {
            PasswordStage::Submit => match reply {
                Ok(r) => {
                    if r.status == 200 {
                        let request = os3_get_json("/api/auth/token", &jar);
                        Next::Ask(PasswordFlow { jar, stage: PasswordStage::Token }, request)
                    } else {
                        Next::Done(answer_verify(200, false, r.error, None, None))
                    }
                },
                Err(e) => Next::Done(answer_verify(502, false, Some(e), None, None)),
            },
            PasswordStage::Token => match reply {
                Ok(r) => {
                    if r.status == 200 {
                        if r.access_token.is_some() {
                            session.email = None;
                            Next::Done(
                                answer_verify(
                                    200,
                                    true,
                                    None,
                                    Some("complete".to_owned()),
                                    r.access_token,
                                ),
                            )
                        } else {
                            let message = "login succeeded but token mint failed".to_owned();
                            Next::Done(answer_verify(502, false, Some(message), None, None))
                        }
                    } else {
                        let message = what_was_said("token mint failed: ", &r);
                        Next::Done(answer_verify(502, false, Some(message), None, None))
                    }
                },
                Err(e) => Next::Done(answer_verify(502, false, Some(e), None, None)),
            },
        }
    }
}

/// A login that has not been started takes neither a code nor a password: both
/// are refused with a bad request that says so.
pub proof fn law_code_and_password_need_a_started_login(
    code: Seq<char>,
    password: Seq<char>,
    word: Option<Seq<char>>,
    signup: bool,
    session: SessionModel,
)
    requires
        session.email is None,
    ensures
        verify_begins(Some(code), session) == Err::<
            (cookies::Cookies, os3_http::RequestModel),
            (u16, Seq<char>),
        >(refusal(400, "start the login first"@)),
        password_begins(Some(password), word, signup, session) == Err::<
            (PasswordModel, os3_http::RequestModel),
            (u16, Seq<char>),
        >(refusal(400, "start the login first"@)),
{
}

/// The password stands in the body of one request only: two submissions that
/// differ in nothing but the password wait in the same state and ask the same
/// of the service but for that body.
pub proof fn law_password_is_not_kept(
    a: Seq<char>,
    b: Seq<char>,
    code: Option<Seq<char>>,
    signup: bool,
    session: SessionModel,
)
    requires
        session.email is Some,
    ensures
        password_begins(Some(a), code, signup, session) matches Ok((flow_a, request_a))
            && password_begins(Some(b), code, signup, session) matches Ok((flow_b, request_b))
            && flow_a == flow_b && request_b == (os3_http::RequestModel {
            body: request_b.body,
            ..request_a
        }),
{
}

/// A token is handed out exactly when the login is answered as complete, and
/// the session then forgets whose login it was; without a token a password
/// submission leaves the session as it was.
pub proof fn law_token_ends_the_login(
    flow: PasswordModel,
    session: SessionModel,
    reply: Result<os3_http::ReplyModel, Seq<char>>,
)
    ensures
        ({
            let (next, after) = password_goes_on(flow, session, reply);
            match next {
                NextModel::Done(o) => if o.token is Some {
                    &&& flow.stage is Token
                    &&& o.status == 200
                    &&& after.email is None
                    &&& after.cookies == session.cookies
                    &&& reply matches Ok(r) && r.access_token == o.token
                } else {
                    after == session
                },
                NextModel::Ask(_, _) => after == session,
            }
        }),
{
}

/// A start remembers an email exactly when the service asks for the code that
/// it sent; a token that was there already makes it forget one; in every other
/// case the session stays as it was.
pub proof fn law_start_remembers_only_a_pending_login(
    flow: StartModel,
    session: SessionModel,
    reply: Result<os3_http::ReplyModel, Seq<char>>,
)
    ensures
        ({
            let (next, after) = start_goes_on(flow, session, reply);
            match next {
                NextModel::Done(o) => if o.token is Some {
                    after == (SessionModel { email: None, ..session })
                } else if flow.stage is Email && (reply matches Ok(r) && r.status == 200 && r.next
                    == Some("verify-email"@)) {
                    &&& o == start_outcome(200, "need_code"@, None)
                    &&& after == (SessionModel { email: Some(flow.email), cookies: flow.jar })
                } else {
                    after == session
                },
                NextModel::Ask(_, _) => after == session,
            }
        }),
{
}

/// No step of a login puts a name into the cookies of the session twice.
pub proof fn law_session_cookies_stay_distinct(
    start: StartModel,
    verify: cookies::Cookies,
    password: PasswordModel,
    session: SessionModel,
    reply: Result<os3_http::ReplyModel, Seq<char>>,
)
    requires
        cookies::distinct_names(start.jar),
        cookies::distinct_names(verify),
        cookies::distinct_names(password.jar),
        cookies::distinct_names(session.cookies),
    ensures
        cookies::distinct_names(start_goes_on(start, session, reply).1.cookies),
        cookies::distinct_names(verify_ends(verify, session, reply).1.cookies),
        cookies::distinct_names(password_goes_on(password, session, reply).1.cookies),
{
}

/// A login in which the service accepts every step reaches the token: the start
/// asks for the code, the code is accepted, the password is accepted, the token
/// comes out, and no login is pending any more.
pub proof fn law_accepted_login_reaches_the_token(
    email: Seq<char>,
    code: Seq<char>,
    password: Seq<char>,
    session: SessionModel,
    no_token: Result<os3_http::ReplyModel, Seq<char>>,
    sent: os3_http::ReplyModel,
    checked: os3_http::ReplyModel,
    accepted: os3_http::ReplyModel,
    minted: os3_http::ReplyModel,
)
    requires
        plausible_email(email),
        !(no_token matches Ok(r) && r.status == 200 && r.access_token is Some),
        sent.status == 200,
        sent.next == Some("verify-email"@),
        checked.status == 200,
        accepted.status == 200,
        minted.status == 200,
        minted.access_token is Some,
    ensures
        start_begins(email) matches Ok((first, _)) && ({
            let (second, s1) = start_goes_on(first, session, no_token);
            second matches NextModel::Ask(waiting, _) && ({
                let (_, s2) = start_goes_on(waiting, s1, Ok(sent));
                verify_begins(Some(code), s2) matches Ok((jar, _)) && ({
                    let (_, s3) = verify_ends(jar, s2, Ok(checked));
                    password_begins(Some(password), None, false, s3) matches Ok((submitted, _))
                        && ({
                        let (third, s4) = password_goes_on(submitted, s3, Ok(accepted));
                        third matches NextModel::Ask(minting, _) && ({
                            let (last, s5) = password_goes_on(minting, s4, Ok(minted));
                            last matches NextModel::Done(o) && o.token == minted.access_token
                                && s5.email is None
                        })
                    })
                })
            })
        }),
{
}

/// The JSON of an answer to Center has the members that are there, each quoted
/// as it is, and leaves out the others.
pub proof fn law_answers_have_the_members_that_are_there(
    state: Seq<char>,
    error: Seq<char>,
    next: Seq<char>,
)
    ensures
        start_body(state, None) == "{\"state\":"@ + json::quoted(state) + "}"@,
        start_body(state, Some(error)) == "{\"state\":"@ + json::quoted(state) + ",\"error\":"@
            + json::quoted(error) + "}"@,
        verify_body(true, None, None) == "{\"ok\":true"@ + "}"@,
        verify_body(false, None, None) == "{\"ok\":false"@ + "}"@,
        verify_body(true, Some(error), None) == "{\"ok\":true"@ + ",\"error\":"@ + json::quoted(
            error,
        ) + "}"@,
        verify_body(false, Some(error), None) == "{\"ok\":false"@ + ",\"error\":"@ + json::quoted(
            error,
        ) + "}"@,
        verify_body(true, None, Some(next)) == "{\"ok\":true"@ + ",\"next\":"@ + json::quoted(next)
            + "}"@,
        verify_body(false, None, Some(next)) == "{\"ok\":false"@ + ",\"next\":"@ + json::quoted(
            next,
        ) + "}"@,
        verify_body(true, Some(error), Some(next)) == "{\"ok\":true"@ + ",\"error\":"@
            + json::quoted(error) + ",\"next\":"@ + json::quoted(next) + "}"@,
        verify_body(false, Some(error), Some(next)) == "{\"ok\":false"@ + ",\"error\":"@
            + json::quoted(error) + ",\"next\":"@ + json::quoted(next) + "}"@,
{
    reveal_strlit(",\"");
    reveal_strlit("\":");
    reveal_strlit("error");
    reveal_strlit("next");
    reveal_strlit(",\"error\":");
    reveal_strlit(",\"next\":");
    assert(",\""@ + "error"@ + "\":"@ =~= ",\"error\":"@);
    assert(",\""@ + "next"@ + "\":"@ =~= ",\"next\":"@);
    let e = member("error"@, Some(error));
    let n = member("next"@, Some(next));
    assert(e =~= ",\"error\":"@ + json::quoted(error));
    assert(n =~= ",\"next\":"@ + json::quoted(next));
    assert(start_body(state, None) =~= "{\"state\":"@ + json::quoted(state) + "}"@);
    assert(start_body(state, Some(error)) =~= "{\"state\":"@ + json::quoted(state)
        + ",\"error\":"@ + json::quoted(error) + "}"@);
    assert(verify_body(true, None, None) =~= "{\"ok\":true"@ + "}"@);
    assert(verify_body(false, None, None) =~= "{\"ok\":false"@ + "}"@);
    assert(verify_body(true, Some(error), None) =~= "{\"ok\":true"@ + ",\"error\":"@
        + json::quoted(error) + "}"@);
    assert(verify_body(false, Some(error), None) =~= "{\"ok\":false"@ + ",\"error\":"@
        + json::quoted(error) + "}"@);
    assert(verify_body(true, None, Some(next)) =~= "{\"ok\":true"@ + ",\"next\":"@ + json::quoted(
        next,
    ) + "}"@);
    assert(verify_body(false, None, Some(next)) =~= "{\"ok\":false"@ + ",\"next\":"@
        + json::quoted(next) + "}"@);
    assert(verify_body(true, Some(error), Some(next)) =~= "{\"ok\":true"@ + ",\"error\":"@
        + json::quoted(error) + ",\"next\":"@ + json::quoted(next) + "}"@);
    assert(verify_body(false, Some(error), Some(next)) =~= "{\"ok\":false"@ + ",\"error\":"@
        + json::quoted(error) + ",\"next\":"@ + json::quoted(next) + "}"@);
}

/// What the user typed reaches the service unchanged: the email, the code and
/// the password each stand in their payload as they are.
pub proof fn law_payloads_carry_what_was_typed(
    email: Seq<char>,
    code: Seq<char>,
    password: Seq<char>,
)
    ensures
        email_payload(email) == "{\"email\":"@ + json::quoted(email) + "}"@,
        code_payload(code) == "{\"code\":"@ + json::quoted(code) + "}"@,
        signup_payload(password) == "{\"password\":"@ + json::quoted(password) + "}"@,
        login_payload(email, password) == "{\"email\":"@ + json::quoted(email)
            + ",\"password\":"@ + json::quoted(password) + "}"@,
        text::contains_text(
            login_payload(email, password),
            "\"email\":"@ + json::quoted(email),
        ),
        text::contains_text(
            login_payload(email, password),
            "\"password\":"@ + json::quoted(password),
        ),
{
    reveal_strlit("{\"email\":");
    reveal_strlit("\"email\":");
    reveal_strlit(",\"password\":");
    reveal_strlit("\"password\":");
    let body = login_payload(email, password);
    let first = "\"email\":"@ + json::quoted(email);
    let second = "\"password\":"@ + json::quoted(password);
    assert("{\"email\":"@ =~= "{"@ + "\"email\":"@) by {
        reveal_strlit("{");
    }
    assert(",\"password\":"@ =~= ","@ + "\"password\":"@) by {
        reveal_strlit(",");
    }
    assert(body =~= "{"@ + first + (","@ + second + "}"@));
    text::law_containing_is_having_around(body, first);
    assert(body =~= ("{"@ + first + ","@) + second + "}"@);
    text::law_containing_is_having_around(body, second);
}

proof fn lemma_framed_quotes(front: Seq<char>, a: Seq<char>, b: Seq<char>, back: Seq<char>)
    requires
        front + json::quoted(a) + back == front + json::quoted(b) + back,
    ensures
        a == b,
{
    let l = front + json::quoted(a) + back;
    let r = front + json::quoted(b) + back;
    let from = front.len() as int;
    assert(l.subrange(from, l.len() - back.len()) =~= json::quoted(a));
    assert(r.subrange(from, r.len() - back.len()) =~= json::quoted(b));
    json::law_quoting_loses_nothing(a, b);
}

/// Different passwords, codes or emails never give the same request body.
pub proof fn law_different_inputs_give_different_payloads(
    email: Seq<char>,
    a: Seq<char>,
    b: Seq<char>,
)
    ensures
        email_payload(a) == email_payload(b) ==> a == b,
        code_payload(a) == code_payload(b) ==> a == b,
        signup_payload(a) == signup_payload(b) ==> a == b,
        login_payload(email, a) == login_payload(email, b) ==> a == b,
{
    if email_payload(a) == email_payload(b) {
        lemma_framed_quotes("{\"email\":"@, a, b, "}"@);
    }
    if code_payload(a) == code_payload(b) {
        lemma_framed_quotes("{\"code\":"@, a, b, "}"@);
    }
    if signup_payload(a) == signup_payload(b) {
        lemma_framed_quotes("{\"password\":"@, a, b, "}"@);
    }
    if login_payload(email, a) == login_payload(email, b) {
        lemma_framed_quotes(
            "{\"email\":"@ + json::quoted(email) + ",\"password\":"@,
            a,
            b,
            "}"@,
        );
    }
}

/// An email with something in it and an at sign somewhere begins a login, with
/// no cookies, by asking for a token; any other is refused as a bad request.
pub proof fn law_login_begins_with_a_plausible_email(email: Seq<char>)
    ensures
        email.len() > 0 && (exists|i: int| 0 <= i < email.len() && #[trigger] email[i] == '@')
            ==> start_begins(email) == Ok::<_, (u16, Seq<char>)>(
            (
                StartModel { email, jar: seq![], stage: StartStage::Token },
                os3_http::login_request("/api/auth/token"@, None, seq![]),
            ),
        ),
        (forall|i: int| 0 <= i < email.len() ==> #[trigger] email[i] != '@') ==> start_begins(email)
            == Err::<(StartModel, os3_http::RequestModel), _>(
            (400u16, verify_body(false, Some("enter a valid email"@), None)),
        ),
{
    if exists|i: int| 0 <= i < email.len() && #[trigger] email[i] == '@' {
        let i = choose|i: int| 0 <= i < email.len() && #[trigger] email[i] == '@';
        assert(email.contains('@'));
    }
}

/// The first answer of a start that carries a token with status 200 completes
/// the login with that token; after any other first answer, and after a failure,
/// the email is sent to the service.
pub proof fn law_start_takes_a_token_or_sends_the_email(
    flow: StartModel,
    session: SessionModel,
    reply: os3_http::ReplyModel,
    failure: Seq<char>,
)
    requires
        flow.stage is Token,
    ensures
        ({
            let sent = (
                NextModel::<StartModel>::Ask(
                    StartModel { email: flow.email, jar: flow.jar, stage: StartStage::Email },
                    os3_http::login_request(
                        "/api/auth/embedded/email"@,
                        Some("{\"email\":"@ + json::quoted(flow.email) + "}"@),
                        flow.jar,
                    ),
                ),
                session,
            );
            &&& start_goes_on(flow, session, Err(failure)) == sent
            &&& reply.status != 200 || reply.access_token is None ==> start_goes_on(
                flow,
                session,
                Ok(reply),
            ) == sent
            &&& reply.status == 200 ==> (reply.access_token matches Some(token) ==> start_goes_on(
                flow,
                session,
                Ok(reply),
            ) == (
                NextModel::<StartModel>::Done(
                    OutcomeModel {
                        status: 200,
                        body: start_body("ok"@, None),
                        token: Some(token),
                    },
                ),
                SessionModel { email: None, cookies: session.cookies },
            ))
        }),
{
}

/// After the email was sent, Center is told to ask for the code if the service
/// says so, and the session then holds that email and those cookies; any other
/// next step is named in the answer, a refusal is handed on in the service's own
/// words or with its status, and a failure as it is.
pub proof fn law_answer_to_the_email_is_handed_on(
    flow: StartModel,
    session: SessionModel,
    reply: os3_http::ReplyModel,
    failure: Seq<char>,
)
    requires
        flow.stage is Email,
    ensures
        ({
            let (next, after) = start_goes_on(flow, session, Ok(reply));
            &&& reply.status == 200 && reply.next == Some("verify-email"@) ==> {
                &&& next == NextModel::<StartModel>::Done(
                    OutcomeModel { status: 200, body: start_body("need_code"@, None), token: None },
                )
                &&& after == SessionModel { email: Some(flow.email), cookies: flow.jar }
            }
            &&& reply.status == 200 ==> (reply.next matches Some(n) ==> n != "verify-email"@ ==> {
                &&& next == NextModel::<StartModel>::Done(
                    OutcomeModel {
                        status: 200,
                        body: start_body("error"@, Some("unexpected state: "@ + n)),
                        token: None,
                    },
                )
                &&& after == session
            })
            &&& reply.status == 200 && reply.next is None ==> {
                &&& next == NextModel::<StartModel>::Done(
                    OutcomeModel {
                        status: 200,
                        body: start_body("error"@, Some("unexpected state: "@)),
                        token: None,
                    },
                )
                &&& after == session
            }
            &&& reply.status != 200 ==> (reply.error matches Some(e) ==> {
                &&& next == NextModel::<StartModel>::Done(
                    OutcomeModel {
                        status: 502,
                        body: start_body("error"@, Some("OS3 said: "@ + e)),
                        token: None,
                    },
                )
                &&& after == session
            })
            &&& reply.status != 200 && reply.error is None ==> {
                &&& next == NextModel::<StartModel>::Done(
                    OutcomeModel {
                        status: 502,
                        body: start_body(
                            "error"@,
                            Some(
                                "OS3 said: "@ + ("HTTP "@ + text::decimal(reply.status as nat)),
                            ),
                        ),
                        token: None,
                    },
                )
                &&& after == session
            }
            &&& start_goes_on(flow, session, Err(failure)) == (
                NextModel::<StartModel>::Done(
                    OutcomeModel {
                        status: 502,
                        body: start_body("error"@, Some(failure)),
                        token: None,
                    },
                ),
                session,
            )
        }),
{
    reveal_strlit("");
    assert("unexpected state: "@ + ""@ =~= "unexpected state: "@);
}

/// A code is sent as it was typed, with the cookies of the login; without a
/// code, or without a login that was started, the request is a bad one.
pub proof fn law_code_is_sent_as_typed(code: Seq<char>, session: SessionModel)
    ensures
        session.email is Some ==> verify_begins(Some(code), session) == Ok::<_, (u16, Seq<char>)>(
            (
                session.cookies,
                os3_http::login_request(
                    "/api/auth/embedded/verify-email"@,
                    Some("{\"code\":"@ + json::quoted(code) + "}"@),
                    session.cookies,
                ),
            ),
        ),
        session.email is None ==> verify_begins(Some(code), session) == Err::<
            (cookies::Cookies, os3_http::RequestModel),
            _,
        >((400u16, verify_body(false, Some("start the login first"@), None))),
        verify_begins(None, session) == Err::<(cookies::Cookies, os3_http::RequestModel), _>(
            (400u16, verify_body(false, Some("code required"@), None)),
        ),
{
}

/// The next step that the service names for an accepted code is handed on to
/// Center unchanged, whatever it is, and the cookies are kept; a code that is
/// not accepted is answered with the service's own error, a failure with what
/// went wrong, and both leave the session as it is.
pub proof fn law_next_step_is_handed_on(
    jar: cookies::Cookies,
    session: SessionModel,
    reply: os3_http::ReplyModel,
    failure: Seq<char>,
)
    ensures
        ({
            let (outcome, after) = verify_ends(jar, session, Ok(reply));
            &&& outcome.status == 200
            &&& outcome.token is None
            &&& reply.status == 200 ==> after == SessionModel {
                email: session.email,
                cookies: jar,
            }
            &&& reply.status == 200 ==> (reply.next matches Some(n) ==> outcome.body == verify_body(
                true,
                None,
                Some(n),
            ))
            &&& reply.status == 200 && reply.next is None ==> outcome.body == verify_body(
                true,
                None,
                Some(Seq::<char>::empty()),
            )
            &&& reply.status != 200 ==> after == session && outcome.body == verify_body(
                false,
                reply.error,
                None,
            )
        }),
        verify_ends(jar, session, Err(failure)) == (
            OutcomeModel {
                status: 502,
                body: verify_body(false, Some(failure), None),
                token: None,
            },
            session,
        ),
{
    reveal_strlit("");
    assert(""@ =~= Seq::<char>::empty());
}

/// A password is sent as it was typed: to the signup endpoint alone if a new
/// account is asked for, by the flag or by the word in the place of the code,
/// else to the login endpoint with the email of the login; with the cookies of
/// the login either way.
pub proof fn law_password_is_sent_as_typed(
    password: Seq<char>,
    code: Option<Seq<char>>,
    signup: bool,
    session: SessionModel,
)
    ensures
        ({
            let begun = password_begins(Some(password), code, signup, session);
            let flow = PasswordModel { jar: session.cookies, stage: PasswordStage::Submit };
            &&& session.email is Some && (signup || code == Some("signup"@)) ==> begun == Ok::<
                _,
                (u16, Seq<char>),
            >(
                (
                    flow,
                    os3_http::login_request(
                        "/api/auth/embedded/signup"@,
                        Some("{\"password\":"@ + json::quoted(password) + "}"@),
                        session.cookies,
                    ),
                ),
            )
            &&& !signup && code != Some("signup"@) ==> (session.email matches Some(email) ==> begun
                == Ok::<_, (u16, Seq<char>)>(
                (
                    flow,
                    os3_http::login_request(
                        "/api/auth/embedded/login"@,
                        Some(
                            "{\"email\":"@ + json::quoted(email) + ",\"password\":"@
                                + json::quoted(password) + "}"@,
                        ),
                        session.cookies,
                    ),
                ),
            ))
            &&& session.email is None ==> begun == Err::<
                (PasswordModel, os3_http::RequestModel),
                _,
            >((400u16, verify_body(false, Some("start the login first"@), None)))
            &&& password_begins(None, code, signup, session) == Err::<
                (PasswordModel, os3_http::RequestModel),
                _,
            >((400u16, verify_body(false, Some("password required"@), None)))
        }),
{
}

/// An accepted password is followed by the request for the token, with the
/// cookies of the login; one that is not accepted is answered with the
/// service's own error, and a failure with what went wrong.
pub proof fn law_accepted_password_asks_for_the_token(
    flow: PasswordModel,
    session: SessionModel,
    reply: os3_http::ReplyModel,
    failure: Seq<char>,
)
    requires
        flow.stage is Submit,
    ensures
        reply.status == 200 ==> password_goes_on(flow, session, Ok(reply)) == (
            NextModel::<PasswordModel>::Ask(
                PasswordModel { jar: flow.jar, stage: PasswordStage::Token },
                os3_http::login_request("/api/auth/token"@, None, flow.jar),
            ),
            session,
        ),
        reply.status != 200 ==> password_goes_on(flow, session, Ok(reply)) == (
            NextModel::<PasswordModel>::Done(
                OutcomeModel {
                    status: 200,
                    body: verify_body(false, reply.error, None),
                    token: None,
                },
            ),
            session,
        ),
        password_goes_on(flow, session, Err(failure)) == (
            NextModel::<PasswordModel>::Done(
                OutcomeModel {
                    status: 502,
                    body: verify_body(false, Some(failure), None),
                    token: None,
                },
            ),
            session,
        ),
{
}

/// The token that the service mints is handed out as it is, Center is told that
/// the login is complete, and no login is pending any more; an answer without a
/// token, a refusal and a failure are each reported, and the login stays
/// pending.
pub proof fn law_minted_token_is_handed_out(
    flow: PasswordModel,
    session: SessionModel,
    reply: os3_http::ReplyModel,
    failure: Seq<char>,
)
    requires
        flow.stage is Token,
    ensures
        ({
            let (next, after) = password_goes_on(flow, session, Ok(reply));
            let failed = |message: Seq<char>|
                NextModel::<PasswordModel>::Done(
                    OutcomeModel {
                        status: 502,
                        body: verify_body(false, Some(message), None),
                        token: None,
                    },
                );
            &&& reply.status == 200 ==> (reply.access_token matches Some(token) ==> {
                &&& next == NextModel::<PasswordModel>::Done(
                    OutcomeModel {
                        status: 200,
                        body: verify_body(true, None, Some("complete"@)),
                        token: Some(token),
                    },
                )
                &&& after == SessionModel { email: None, cookies: session.cookies }
            })
            &&& reply.status == 200 && reply.access_token is None ==> next == failed(
                "login succeeded but token mint failed"@,
            ) && after == session
            &&& reply.status != 200 ==> (reply.error matches Some(e) ==> next == failed(
                "token mint failed: "@ + e,
            ) && after == session)
            &&& reply.status != 200 && reply.error is None ==> next == failed(
                "token mint failed: "@ + ("HTTP "@ + text::decimal(reply.status as nat)),
            ) && after == session
            &&& password_goes_on(flow, session, Err(failure)) == (failed(failure), session)
        }),
{
}

/// The views of answers, sessions and steps show what they hold as it is.
pub proof fn law_outcomes_are_shown_as_they_are(
    reply: HttpReply,
    outcome: Outcome,
    session: AuthSession,
    start: StartFlow,
    verify: VerifyFlow,
    password: PasswordFlow,
    request: Os3Request,
)
    ensures
        reply@ == (reply.status, reply.body@),
        outcome@ == (OutcomeModel {
            status: outcome.reply.status,
            body: outcome.reply.body@,
            token: text::view_of(outcome.token),
        }),
        session@ == (SessionModel {
            email: text::view_of(session.email),
            cookies: session.cookies.cookies(),
        }),
        refusal(reply.status, reply.body@) == (
            reply.status,
            verify_body(false, Some(reply.body@), None),
        ),
        view_of_start(Ok((start, request))) == Ok::<_, (u16, Seq<char>)>((start@, request@)),
        view_of_start(Err(reply)) == Err::<(StartModel, os3_http::RequestModel), _>(reply@),
        view_of_start_next(Next::Ask(start, request)) == NextModel::Ask(start@, request@),
        view_of_start_next(Next::Done(outcome)) == NextModel::<StartModel>::Done(outcome@),
        view_of_verify(Ok((verify, request))) == Ok::<_, (u16, Seq<char>)>((verify@, request@)),
        view_of_verify(Err(reply)) == Err::<(cookies::Cookies, os3_http::RequestModel), _>(reply@),
        view_of_password(Ok((password, request))) == Ok::<_, (u16, Seq<char>)>(
            (password@, request@),
        ),
        view_of_password(Err(reply)) == Err::<(PasswordModel, os3_http::RequestModel), _>(reply@),
        view_of_password_next(Next::Ask(password, request)) == NextModel::Ask(password@, request@),
        view_of_password_next(Next::Done(outcome)) == NextModel::<PasswordModel>::Done(outcome@),
{
}

} // verus!
