use os3_bridge::llm::config::{LlmConfig, LlmProvider};
use os3_bridge::llm::providers::openai::{OpenAiBackend, OpenAiProvider, WEB_SEARCH_PARAMS};
use os3_bridge::llm::providers::os3::{
    chat_message, jwt_expired, jwt_expired_at, jwt_payload, load_session_id, payload_segment,
    resolve_ws_url, route_refusal, stage_failure, ws_url, DumbOs3Backend, Os3Provider,
    RouteAnswer, RouteResponse, WsStage,
};
use os3_bridge::llm::providers::ProviderError;

fn config(provider: LlmProvider, base_url: Option<&str>, web_search: bool, tools: bool) -> LlmConfig {
    LlmConfig {
        provider,
        model: "m".to_string(),
        api_key: None,
        base_url: base_url.map(String::from),
        web_search,
        tools_enabled: tools,
    }
}

fn backend(token: &str) -> DumbOs3Backend {
    let llm = config(LlmProvider::Os3, None, false, false);
    Os3Provider::build(&llm, Some(token.to_string()), reqwest::Client::new()).ok().unwrap()
}

#[test]
fn the_os3_backend_needs_a_token() {
    let llm = config(LlmProvider::Os3, None, false, false);
    match Os3Provider::build(&llm, None, reqwest::Client::new()) {
        Err(ProviderError::MissingApiKey(m)) => assert_eq!(
            m,
            "OS3 access token not set; log in via Pin Center (Rabbit OS3) to populate llm.api_key"
        ),
        _ => panic!("built"),
    }
    let b = backend("tok");
    assert_eq!(b.token, "tok");
    assert_eq!(b.session_id_path, "/data/local/tmp/PenumbraOS/os3-session.txt");
    let llm = config(LlmProvider::Os3, Some("/tmp/s"), false, false);
    let b = Os3Provider::build(&llm, Some("t".to_string()), reqwest::Client::new()).ok().unwrap();
    assert_eq!(b.session_id_path, "/tmp/s");
}

#[test]
fn a_stored_token_is_the_one_that_is_used() {
    let mut llm = config(LlmProvider::OpenAi, None, false, false);
    llm.store_os3_token("fresh");
    let key = llm.api_key.clone();
    let b = Os3Provider::build(&llm, key, reqwest::Client::new()).ok().unwrap();
    assert_eq!(b.token, "fresh");
}

#[test]
fn the_session_file_is_trimmed() {
    assert_eq!(load_session_id(Some(" abc\n")).as_deref(), Some("abc"));
    assert_eq!(load_session_id(Some("a b")).as_deref(), Some("a b"));
    assert_eq!(load_session_id(Some(" \n\t")), None);
    assert_eq!(load_session_id(Some("")), None);
    assert_eq!(load_session_id(None), None);
}

#[test]
fn the_payload_of_a_token_is_its_second_segment() {
    assert_eq!(payload_segment("a.b.c").as_deref(), Some("b"));
    assert_eq!(payload_segment("a.b").as_deref(), Some("b"));
    assert_eq!(payload_segment("a.").as_deref(), Some(""));
    assert_eq!(payload_segment("..x").as_deref(), Some(""));
    assert_eq!(payload_segment("abc"), None);
}

#[test]
fn payloads_are_url_safe_base64_without_padding() {
    assert_eq!(jwt_payload("h.eyJleHAiOjF9.s"), Some(b"{\"exp\":1}".to_vec()));
    assert_eq!(jwt_payload("h.-_8.s"), Some(vec![0xfb, 0xff]));
    assert_eq!(jwt_payload("h..s"), Some(vec![]));
    assert_eq!(jwt_payload("h.+/8.s"), None);
    assert_eq!(jwt_payload("h.AA==.s"), None);
    assert_eq!(jwt_payload("nodots"), None);
}

#[test]
fn a_token_expires_at_its_second() {
    assert!(!jwt_expired_at(None, u64::MAX));
    assert!(jwt_expired_at(Some(10), 10_000));
    assert!(!jwt_expired_at(Some(10), 9_999));
    assert!(jwt_expired_at(Some(10), 11_000));
    assert!(jwt_expired_at(Some(0), 0));
}

#[test]
fn the_route_request_carries_the_token() {
    let r = backend("tok").route_request();
    assert!(r.post);
    assert_eq!(r.url, "https://os3.rabbit.tech/session-directory/route");
    assert_eq!(r.bearer.as_deref(), Some("tok"));
    assert_eq!(r.body.as_deref(), Some("{}"));
    assert_eq!(r.timeout_secs, Some(30));
    let headers: Vec<(&str, &str)> =
        r.headers.iter().map(|h| (h.name.as_str(), h.value.as_str())).collect();
    assert_eq!(headers[0], ("Origin", "https://os3.rabbit.tech"));
    assert_eq!(headers[1], ("Referer", "https://os3.rabbit.tech/"));
    assert_eq!(headers[3], ("Content-Type", "application/json"));
    assert_eq!(headers.len(), 4);
}

#[test]
fn a_refused_route_is_answered_with_a_sentence() {
    assert_eq!(route_refusal(200, "429"), None);
    assert_eq!(route_refusal(299, ""), None);
    let sentence = |status: u16, body: &str| route_refusal(status, body).unwrap();
    let busy = "I'm getting too many requests right now. Please try again in a moment.";
    assert_eq!(sentence(429, ""), busy);
    assert_eq!(sentence(429, "timeout"), busy);
    assert_eq!(sentence(500, "rate limit"), busy);
    // The name of the status counts too.
    assert_eq!(
        sentence(504, ""),
        "The request to the AI service timed out. Please try again."
    );
    assert_eq!(
        sentence(404, ""),
        "The configured AI model wasn't found. Please check the server settings."
    );
    assert_eq!(
        sentence(599, ""),
        "Something went wrong while contacting the AI service. Please try again."
    );
}

#[test]
fn only_the_beginning_of_the_body_counts() {
    let mut body = "é".repeat(297);
    body.push_str("429");
    assert_eq!(
        route_refusal(418, &body).unwrap(),
        "I'm getting too many requests right now. Please try again in a moment."
    );
    let mut body = "é".repeat(298);
    body.push_str("429");
    assert_eq!(
        route_refusal(418, &body).unwrap(),
        "Something went wrong while contacting the AI service. Please try again."
    );
}

#[test]
fn a_route_leads_to_a_socket() {
    assert_eq!(ws_url("route", Some("i7")), Ok("wss://os3-i7.rabbit.tech/ws".to_string()));
    assert_eq!(ws_url("any", None), Ok("wss://os3.rabbit.tech/ws".to_string()));
    assert_eq!(ws_url("route", None), Err("unexpected OS3 route kind: route".to_string()));
    assert_eq!(ws_url("", None), Err("unexpected OS3 route kind: ".to_string()));
}

#[test]
fn failures_name_their_stage() {
    assert_eq!(stage_failure(WsStage::Route, "x"), "OS3 route request failed: x");
    assert_eq!(stage_failure(WsStage::RouteParse, "x"), "OS3 route parse failed: x");
    assert_eq!(stage_failure(WsStage::Handshake, "x"), "OS3 ws handshake build failed: x");
    assert_eq!(stage_failure(WsStage::Origin, "x"), "origin: x");
    assert_eq!(stage_failure(WsStage::UserAgent, "x"), "ua: x");
    assert_eq!(stage_failure(WsStage::Connect, "x"), "OS3 ws connect failed: x");
    assert_eq!(stage_failure(WsStage::SendInit, "x"), "OS3 ws send init failed: x");
    assert_eq!(stage_failure(WsStage::SendChat, "x"), "OS3 ws send chat failed: x");
}

#[test]
fn the_opening_message_names_the_session() {
    assert_eq!(
        backend("t\"k").init_message(Some("s1"), 1700000000123),
        "{\"type\":\"init\",\"version\":1,\"timestamp\":1700000000123,\"accessToken\":\"t\\\"k\",\"sessionId\":\"s1\"}"
    );
    assert_eq!(
        backend("t").init_message(None, 0),
        "{\"type\":\"init\",\"version\":1,\"timestamp\":0,\"accessToken\":\"t\"}"
    );
}

#[test]
fn every_utterance_is_quoted_as_serde_json_quotes_it() {
    let mut all = String::new();
    for code in 0..0x3000u32 {
        if let Some(c) = char::from_u32(code) {
            all.push(c);
        }
    }
    for text in ["", "hi", "a\"b\\c\n\t\r\u{8}\u{c}\u{1f}\u{7f}😀", all.as_str()] {
        let frame = chat_message(text, 18446744073709551615);
        assert_eq!(
            frame,
            format!(
                "{{\"type\":\"chat.message\",\"version\":1,\"timestamp\":18446744073709551615,\"text\":{}}}",
                serde_json::to_string(text).unwrap()
            )
        );
        let value: serde_json::Value = serde_json::from_str(&frame).unwrap();
        assert_eq!(value.get("text").and_then(|t| t.as_str()), Some(text));
    }
}

#[test]
fn without_tools_the_single_shot_backend_is_chosen() {
    let llm = config(LlmProvider::OpenAi, None, true, false);
    assert!(matches!(
        OpenAiProvider::build(&llm, None, reqwest::Client::new()),
        Ok(OpenAiBackend::SingleShot { .. })
    ));
}

#[test]
fn the_agent_needs_a_key() {
    let llm = config(LlmProvider::OpenAi, None, true, true);
    match OpenAiProvider::build(&llm, None, reqwest::Client::new()) {
        Err(ProviderError::MissingApiKey(m)) => assert_eq!(
            m,
            "OpenAI api_key not set; configure OPENAI_API_KEY in the environment or .env, or set llm.api_key in config.toml"
        ),
        _ => panic!("built"),
    }
}

#[test]
fn a_key_that_no_header_can_hold_is_refused() {
    for (web_search, key) in [(true, "a\nb"), (false, "a\u{7f}"), (false, "\u{0}")] {
        let llm = config(LlmProvider::OpenAi, None, web_search, true);
        assert!(matches!(
            OpenAiProvider::build(&llm, Some(key.to_string()), reqwest::Client::new()),
            Err(ProviderError::Client(_))
        ));
    }
    let llm = config(LlmProvider::OpenAi, None, false, true);
    for key in ["", "a\tb", "schlüssel"] {
        match OpenAiProvider::build(&llm, Some(key.to_string()), reqwest::Client::new()) {
            Ok(OpenAiBackend::Completions { endpoint, .. }) => {
                assert_eq!(endpoint.authorization, format!("Bearer {key}").into_bytes());
            }
            _ => panic!("refused"),
        }
    }
}

#[test]
fn only_openai_itself_searches_the_web() {
    let key = || Some("sk-1".to_string());
    let http = reqwest::Client::new;
    match OpenAiProvider::build(&config(LlmProvider::OpenAi, None, true, true), key(), http()) {
        Ok(OpenAiBackend::Responses { client, endpoint, params }) => {
            assert_eq!(params, "{\"tools\":[{\"type\":\"web_search\"}]}");
            assert_eq!(endpoint.base_url, "https://api.openai.com/v1");
            assert_eq!(client.base_url(), "https://api.openai.com/v1");
            assert_eq!(endpoint.authorization, b"Bearer sk-1".to_vec());
        }
        _ => panic!("no web search"),
    }
    for (provider, web_search) in
        [(LlmProvider::OpenAi, false), (LlmProvider::OpenAiCompatible, true), (LlmProvider::Os3, true)]
    {
        let llm = config(provider, Some("http://local/v1"), web_search, true);
        match OpenAiProvider::build(&llm, key(), http()) {
            Ok(OpenAiBackend::Completions { client, endpoint }) => {
                assert_eq!(endpoint.base_url, "http://local/v1");
                assert_eq!(client.base_url(), "http://local/v1");
            }
            _ => panic!("web search"),
        }
    }
}

#[test]
fn the_search_parameters_are_json() {
    let value: serde_json::Value = serde_json::from_str(WEB_SEARCH_PARAMS).unwrap();
    let tool = value.get("tools").and_then(|t| t.get(0)).and_then(|t| t.get("type"));
    assert_eq!(tool.and_then(|t| t.as_str()), Some("web_search"));
}

#[test]
fn expiry_is_judged_by_the_clock() {
    assert!(jwt_expired(Some(1)));
    assert!(!jwt_expired(Some(u64::MAX)));
    assert!(!jwt_expired(None));
}

#[test]
fn an_answer_to_the_route_request_is_judged_in_order() {
    let answer = |status: u16, body: &str, route: Result<(&str, Option<&str>), &str>| {
        resolve_ws_url(Ok(RouteAnswer {
            status,
            body: body.to_string(),
            route: match route {
                Ok((kind, id)) => Ok(RouteResponse {
                    kind: kind.to_string(),
                    instance_id: id.map(String::from),
                }),
                Err(e) => Err(e.to_string()),
            },
        }))
    };
    assert_eq!(
        resolve_ws_url(Err("no net".to_string())),
        Err("OS3 route request failed: no net".to_string())
    );
    assert_eq!(
        answer(503, "{\"kind\":\"any\"}", Ok(("any", None))),
        Err("The AI service is temporarily unavailable. Please try again shortly.".to_string())
    );
    assert_eq!(
        answer(200, "x", Err("expected value")),
        Err("OS3 route parse failed: expected value".to_string())
    );
    assert_eq!(answer(200, "", Ok(("any", None))), Ok("wss://os3.rabbit.tech/ws".to_string()));
    assert_eq!(
        answer(204, "", Ok(("any", Some("q")))),
        Ok("wss://os3-q.rabbit.tech/ws".to_string())
    );
    assert_eq!(
        answer(200, "", Ok(("none", None))),
        Err("unexpected OS3 route kind: none".to_string())
    );
}
