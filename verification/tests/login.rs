use os3_bridge::cookies::cookie_header;
use os3_bridge::llm::config::{LlmConfig, LlmProvider};
use os3_bridge::os3_auth::{
    auth_start, auth_submit_password, auth_verify_code, begin_start, error_response, AuthSession,
    HttpReply, Next, Os3StartResponse, Os3VerifyResponse, Outcome, PasswordFlow, StartFlow,
};
use os3_bridge::os3_http::{Os3Answer, Os3Reply, Os3Request};

fn header<'a>(request: &'a Os3Request, name: &str) -> Option<&'a str> {
    request.headers.iter().find(|h| h.name == name).map(|h| h.value.as_str())
}

fn answer(status: u16, body: &str) -> Result<Os3Answer, String> {
    Ok(Os3Answer { status, set_cookies: vec![], body: body.to_string() })
}

fn reply(status: u16, next: Option<&str>, error: Option<&str>, token: Option<&str>) -> Result<Os3Reply, String> {
    Ok(Os3Reply {
        status,
        next: next.map(String::from),
        error: error.map(String::from),
        access_token: token.map(String::from),
    })
}

fn started() -> (StartFlow, Os3Request) {
    match auth_start("a@b.c") {
        Ok(x) => x,
        Err(_) => panic!("refused"),
    }
}

fn waiting_for_email() -> StartFlow {
    let mut session = AuthSession::new();
    let (flow, _) = started();
    match flow.decide(Err("x".to_string()), &mut session) {
        Next::Ask(flow, _) => flow,
        Next::Done(_) => panic!("done"),
    }
}

fn done<F>(next: Next<F>) -> Outcome {
    match next {
        Next::Done(outcome) => outcome,
        Next::Ask(_, _) => panic!("asked again"),
    }
}

fn pending(email: &str) -> AuthSession {
    let mut session = AuthSession::new();
    session.email = Some(email.to_string());
    session.cookies.insert("s".to_string(), "1".to_string());
    session
}

fn submitted(session: &AuthSession) -> (PasswordFlow, Os3Request) {
    match auth_submit_password(Some("pw"), None, false, session) {
        Ok(x) => x,
        Err(_) => panic!("refused"),
    }
}

fn minting(session: &mut AuthSession) -> PasswordFlow {
    let (flow, _) = submitted(session);
    match flow.decide(reply(200, None, None, None), session) {
        Next::Ask(flow, request) => {
            assert!(!request.post);
            assert_eq!(request.url, "https://os3.rabbit.tech/api/auth/token");
            assert!(request.body.is_none());
            flow
        }
        Next::Done(_) => panic!("done"),
    }
}

fn assert_reply(reply: &HttpReply, status: u16, body: &str) {
    assert_eq!(reply.status, status);
    assert_eq!(reply.body, body);
}

#[test]
fn an_implausible_email_is_refused() {
    for email in ["", "   ", "nobody", "\u{a0}"] {
        match auth_start(email) {
            Err(r) => assert_reply(&r, 400, "{\"ok\":false,\"error\":\"enter a valid email\"}"),
            Ok(_) => panic!("accepted {email}"),
        }
    }
    assert!(begin_start("@".to_string()).is_ok());
    assert!(begin_start(String::new()).is_err());
}

#[test]
fn a_start_first_asks_for_a_token() {
    let (_, request) = started();
    assert!(!request.post);
    assert_eq!(request.url, "https://os3.rabbit.tech/api/auth/token");
    assert_eq!(header(&request, "Origin"), Some("https://os3.rabbit.tech"));
    assert_eq!(header(&request, "Referer"), Some("https://os3.rabbit.tech/"));
    assert_eq!(
        header(&request, "User-Agent"),
        Some("Mozilla/5.0 (X11; Linux x86_64) AppleWebKit/537.36 Chrome/131.0 Safari/537.36")
    );
    assert_eq!(header(&request, "Cookie"), None);
    assert_eq!(header(&request, "Content-Type"), None);
    assert!(request.body.is_none() && request.bearer.is_none() && request.timeout_secs.is_none());
}

#[test]
fn a_token_at_once_completes_the_start() {
    let mut session = pending("old@x");
    let (flow, _) = started();
    let outcome = done(flow.on_answer(answer(200, "{\"accessToken\":\"tok\"}"), &mut session));
    assert_reply(&outcome.reply, 200, "{\"state\":\"ok\"}");
    assert_eq!(outcome.token.as_deref(), Some("tok"));
    assert!(session.email.is_none());
    assert_eq!(cookie_header(&session.cookies), "s=1");
}

#[test]
fn without_a_token_the_email_is_sent_trimmed_and_in_lower_case() {
    let mut session = AuthSession::new();
    for first in [
        answer(401, "{\"accessToken\":\"tok\"}"),
        answer(200, "{\"accessToken\":5}"),
        answer(200, "not json"),
        Err("refused".to_string()),
    ] {
        let (flow, _) = auth_start("  Me\"@Example.COM\n").ok().unwrap();
        match flow.on_answer(first, &mut session) {
            Next::Ask(_, request) => {
                assert!(request.post);
                assert_eq!(request.url, "https://os3.rabbit.tech/api/auth/embedded/email");
                assert_eq!(request.body.as_deref(), Some("{\"email\":\"me\\\"@example.com\"}"));
                assert_eq!(header(&request, "Content-Type"), Some("application/json"));
            }
            Next::Done(_) => panic!("done"),
        }
    }
}

#[test]
fn a_code_is_waited_for_with_the_cookies_of_both_answers() {
    let mut session = pending("old@x");
    let (flow, _) = started();
    let first = Ok(Os3Answer {
        status: 401,
        set_cookies: vec![b"a=1; Path=/".to_vec()],
        body: String::new(),
    });
    let (flow, request) = match flow.on_answer(first, &mut session) {
        Next::Ask(flow, request) => (flow, request),
        Next::Done(_) => panic!("done"),
    };
    assert_eq!(header(&request, "Cookie"), Some("a=1"));
    let second = Ok(Os3Answer {
        status: 200,
        set_cookies: vec![b"b=2".to_vec()],
        body: "{\"next\":\"verify-email\"}".to_string(),
    });
    let outcome = done(flow.on_answer(second, &mut session));
    assert_reply(&outcome.reply, 200, "{\"state\":\"need_code\"}");
    assert!(outcome.token.is_none());
    assert_eq!(session.email.as_deref(), Some("a@b.c"));
    assert_eq!(cookie_header(&session.cookies), "a=1; b=2");
}

#[test]
fn an_unexpected_state_is_reported() {
    let mut session = AuthSession::new();
    let outcome = done(waiting_for_email().decide(reply(200, Some("x"), None, None), &mut session));
    assert_reply(&outcome.reply, 200, "{\"state\":\"error\",\"error\":\"unexpected state: x\"}");
    let outcome = done(waiting_for_email().decide(reply(200, None, None, None), &mut session));
    assert_reply(&outcome.reply, 200, "{\"state\":\"error\",\"error\":\"unexpected state: \"}");
    assert!(session.email.is_none());
}

#[test]
fn a_failed_start_says_what_the_service_said() {
    let mut session = AuthSession::new();
    let outcome = done(waiting_for_email().decide(reply(429, None, Some("slow"), None), &mut session));
    assert_reply(&outcome.reply, 502, "{\"state\":\"error\",\"error\":\"OS3 said: slow\"}");
    let outcome = done(waiting_for_email().decide(reply(500, None, None, None), &mut session));
    assert_reply(&outcome.reply, 502, "{\"state\":\"error\",\"error\":\"OS3 said: HTTP 500\"}");
    let outcome = done(waiting_for_email().on_answer(Err("no route".to_string()), &mut session));
    assert_reply(&outcome.reply, 502, "{\"state\":\"error\",\"error\":\"request failed: no route\"}");
}

#[test]
fn code_and_password_need_a_started_login() {
    let session = AuthSession::new();
    match auth_verify_code(Some("123456"), &session) {
        Err(r) => assert_reply(&r, 400, "{\"ok\":false,\"error\":\"start the login first\"}"),
        Ok(_) => panic!("accepted"),
    }
    match auth_submit_password(Some("pw"), None, false, &session) {
        Err(r) => assert_reply(&r, 400, "{\"ok\":false,\"error\":\"start the login first\"}"),
        Ok(_) => panic!("accepted"),
    }
}

#[test]
fn code_and_password_are_required() {
    for session in [AuthSession::new(), pending("a@b.c")] {
        match auth_verify_code(None, &session) {
            Err(r) => assert_reply(&r, 400, "{\"ok\":false,\"error\":\"code required\"}"),
            Ok(_) => panic!("accepted"),
        }
        match auth_submit_password(None, Some("signup"), false, &session) {
            Err(r) => assert_reply(&r, 400, "{\"ok\":false,\"error\":\"password required\"}"),
            Ok(_) => panic!("accepted"),
        }
    }
}

#[test]
fn an_accepted_code_says_what_comes_next() {
    let mut session = pending("a@b.c");
    let (flow, request) = auth_verify_code(Some("123456"), &session).ok().unwrap();
    assert_eq!(request.url, "https://os3.rabbit.tech/api/auth/embedded/verify-email");
    assert_eq!(request.body.as_deref(), Some("{\"code\":\"123456\"}"));
    assert_eq!(header(&request, "Cookie"), Some("s=1"));
    let outcome = flow.on_answer(
        Ok(Os3Answer {
            status: 200,
            set_cookies: vec![b"t=2".to_vec()],
            body: "{\"next\":\"login\"}".to_string(),
        }),
        &mut session,
    );
    assert_reply(&outcome.reply, 200, "{\"ok\":true,\"next\":\"login\"}");
    assert_eq!(session.email.as_deref(), Some("a@b.c"));
    assert_eq!(cookie_header(&session.cookies), "s=1; t=2");
    let (flow, _) = auth_verify_code(Some("1"), &session).ok().unwrap();
    let outcome = flow.decide(reply(200, None, None, None), &mut session);
    assert_reply(&outcome.reply, 200, "{\"ok\":true,\"next\":\"\"}");
}

#[test]
fn a_rejected_code_keeps_the_session() {
    let mut session = pending("a@b.c");
    let (flow, _) = auth_verify_code(Some("1"), &session).ok().unwrap();
    let outcome = flow.on_answer(
        Ok(Os3Answer {
            status: 400,
            set_cookies: vec![b"t=2".to_vec()],
            body: "{\"error\":\"bad\\ncode\"}".to_string(),
        }),
        &mut session,
    );
    assert_reply(&outcome.reply, 200, "{\"ok\":false,\"error\":\"bad\\ncode\"}");
    assert_eq!(cookie_header(&session.cookies), "s=1");
    let (flow, _) = auth_verify_code(Some("1"), &session).ok().unwrap();
    assert_reply(&flow.decide(reply(400, None, None, None), &mut session).reply, 200, "{\"ok\":false}");
    let (flow, _) = auth_verify_code(Some("1"), &session).ok().unwrap();
    let outcome = flow.on_answer(Err("down".to_string()), &mut session);
    assert_reply(&outcome.reply, 502, "{\"ok\":false,\"error\":\"request failed: down\"}");
}

#[test]
fn login_and_signup_ask_different_endpoints() {
    let session = pending("a@b.c");
    let (_, request) = submitted(&session);
    assert_eq!(request.url, "https://os3.rabbit.tech/api/auth/embedded/login");
    assert_eq!(request.body.as_deref(), Some("{\"email\":\"a@b.c\",\"password\":\"pw\"}"));
    for (code, signup) in [(Some("signup"), false), (None, true), (Some("x"), true)] {
        let (_, request) = auth_submit_password(Some("p\\w"), code, signup, &session).ok().unwrap();
        assert_eq!(request.url, "https://os3.rabbit.tech/api/auth/embedded/signup");
        assert_eq!(request.body.as_deref(), Some("{\"password\":\"p\\\\w\"}"));
    }
    let (_, request) = auth_submit_password(Some("pw"), Some("login"), false, &session).ok().unwrap();
    assert_eq!(request.url, "https://os3.rabbit.tech/api/auth/embedded/login");
}

#[test]
fn an_accepted_password_mints_the_token_and_ends_the_login() {
    let mut session = pending("a@b.c");
    let outcome = done(minting(&mut session).on_answer(answer(200, "{\"accessToken\":\"tok\"}"), &mut session));
    assert_reply(&outcome.reply, 200, "{\"ok\":true,\"next\":\"complete\"}");
    assert_eq!(outcome.token.as_deref(), Some("tok"));
    assert!(session.email.is_none());
    assert!(auth_submit_password(Some("pw"), None, false, &session).is_err());
}

#[test]
fn a_rejected_password_keeps_the_login_pending() {
    let mut session = pending("a@b.c");
    let (flow, _) = submitted(&session);
    let outcome = done(flow.decide(reply(401, None, Some("wrong"), Some("tok")), &mut session));
    assert_reply(&outcome.reply, 200, "{\"ok\":false,\"error\":\"wrong\"}");
    assert!(outcome.token.is_none());
    let (flow, _) = submitted(&session);
    assert_reply(&done(flow.decide(reply(401, None, None, None), &mut session)).reply, 200, "{\"ok\":false}");
    let (flow, _) = submitted(&session);
    let outcome = done(flow.on_answer(Err("down".to_string()), &mut session));
    assert_reply(&outcome.reply, 502, "{\"ok\":false,\"error\":\"request failed: down\"}");
    assert_eq!(session.email.as_deref(), Some("a@b.c"));
}

#[test]
fn a_token_that_cannot_be_minted_is_reported() {
    let mut session = pending("a@b.c");
    let outcome = done(minting(&mut session).decide(reply(200, None, None, None), &mut session));
    assert_reply(
        &outcome.reply,
        502,
        "{\"ok\":false,\"error\":\"login succeeded but token mint failed\"}",
    );
    let outcome = done(minting(&mut session).decide(reply(403, None, None, Some("t")), &mut session));
    assert_reply(&outcome.reply, 502, "{\"ok\":false,\"error\":\"token mint failed: HTTP 403\"}");
    let outcome = done(minting(&mut session).decide(reply(403, None, Some("no"), None), &mut session));
    assert_reply(&outcome.reply, 502, "{\"ok\":false,\"error\":\"token mint failed: no\"}");
    let outcome = done(minting(&mut session).decide(Err("gone".to_string()), &mut session));
    assert_reply(&outcome.reply, 502, "{\"ok\":false,\"error\":\"gone\"}");
    assert_eq!(session.email.as_deref(), Some("a@b.c"));
}

#[test]
fn responses_are_the_json_that_they_stand_for() {
    let start = Os3StartResponse { state: "error".to_string(), error: Some("\u{1}\"é".to_string()) };
    assert_eq!(start.to_json(), "{\"state\":\"error\",\"error\":\"\\u0001\\\"é\"}");
    let verify = Os3VerifyResponse {
        ok: true,
        error: Some("e".to_string()),
        next: Some("n".to_string()),
    };
    assert_eq!(verify.to_json(), "{\"ok\":true,\"error\":\"e\",\"next\":\"n\"}");
    assert_reply(&error_response(418, "tea"), 418, "{\"ok\":false,\"error\":\"tea\"}");
}

#[test]
fn storing_a_token_changes_nothing_else() {
    let mut config = LlmConfig {
        provider: LlmProvider::OpenAi,
        model: "m".to_string(),
        api_key: Some("old".to_string()),
        base_url: Some("u".to_string()),
        web_search: true,
        tools_enabled: true,
    };
    config.store_os3_token("tok");
    assert_eq!(config.provider, LlmProvider::Os3);
    assert_eq!(config.api_key.as_deref(), Some("tok"));
    assert_eq!(config.model, "m");
    assert_eq!(config.base_url.as_deref(), Some("u"));
    assert!(config.web_search && config.tools_enabled);
}
