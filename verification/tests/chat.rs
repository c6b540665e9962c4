use os3_bridge::llm::providers::os3_chat::{
    log_entry, ChatExchange, ChatPhase, ChatResult, ChatStep, WsEvent, WsMessage,
};

fn message(text: &str) -> WsEvent {
    WsEvent::Message(WsMessage::read(text))
}

fn outcome(step: &ChatStep) -> Option<Result<&str, &str>> {
    match &step.outcome {
        None => None,
        Some(Ok(ChatResult::Text(t))) => Some(Ok(t.as_str())),
        Some(Err(e)) => Some(Err(e.as_str())),
    }
}

fn quiet(step: &ChatStep) -> bool {
    step.save_session.is_none() && step.send.is_none() && !step.close && step.outcome.is_none()
}

fn acknowledged() -> ChatExchange {
    let mut chat = ChatExchange::new("hello");
    let step = chat.step(message("{\"type\":\"init_ack\"}"), 5);
    assert!(step.save_session.is_none());
    assert_eq!(
        step.send.as_deref(),
        Some("{\"type\":\"chat.message\",\"version\":1,\"timestamp\":5,\"text\":\"hello\"}")
    );
    assert!(!step.close && step.outcome.is_none());
    assert_eq!(chat.phase(), ChatPhase::Reply);
    chat
}

#[test]
fn messages_are_read_member_by_member() {
    let m = WsMessage::read("{\"type\":\"t\",\"role\":\"r\",\"text\":\"x\\u00e9\",\"sessionId\":\"s\"}");
    assert_eq!(m.typ.as_deref(), Some("t"));
    assert_eq!(m.role.as_deref(), Some("r"));
    assert_eq!(m.text.as_deref(), Some("xé"));
    assert_eq!(m.session_id.as_deref(), Some("s"));
    for text in ["", "null", "[]", "\"type\"", "{", "{\"type\":1,\"text\":null}"] {
        let m = WsMessage::read(text);
        assert!(m.typ.is_none() && m.role.is_none() && m.text.is_none() && m.session_id.is_none());
    }
}

#[test]
fn a_chat_runs_from_ack_to_reply() {
    let mut chat = ChatExchange::new("hello");
    assert_eq!(chat.phase(), ChatPhase::Ack);
    assert!(quiet(&chat.step(WsEvent::Other, 1)));
    assert!(quiet(&chat.step(message("noise"), 2)));
    assert!(quiet(&chat.step(
        message("{\"type\":\"chat.message\",\"role\":\"agent\",\"text\":\"early\"}"),
        3
    )));
    let step = chat.step(message("{\"type\":\"init_ack\",\"sessionId\":\"s9\"}"), 4);
    assert_eq!(step.save_session.as_deref(), Some("s9"));
    assert!(step.send.is_some());
    assert!(quiet(&chat.step(message("{\"type\":\"init_ack\",\"sessionId\":\"again\"}"), 5)));
    assert!(quiet(&chat.step(message("{\"type\":\"chat.message\",\"role\":\"user\",\"text\":\"hello\"}"), 6)));
    assert!(quiet(&chat.step(WsEvent::Other, 7)));
    let step = chat.step(message("{\"type\":\"chat.message\",\"role\":\"agent\",\"text\":\"hi\"}"), 8);
    assert_eq!(outcome(&step), Some(Ok("hi")));
    assert!(step.close);
    assert_eq!(chat.phase(), ChatPhase::Over);
    assert!(quiet(&chat.step(WsEvent::Ended, 9)));
}

#[test]
fn a_reply_without_text_is_empty() {
    let mut chat = acknowledged();
    let step = chat.step(message("{\"type\":\"chat.message\",\"role\":\"agent\"}"), 0);
    assert_eq!(outcome(&step), Some(Ok("")));
}

#[test]
fn a_refusal_before_the_ack_fails_the_chat() {
    let mut chat = ChatExchange::new("x");
    let step = chat.step(message("{\"type\":\"admission.refused\"}"), 0);
    assert_eq!(
        outcome(&step),
        Some(Err("OS3 refused the connection (stale or over-limit session)"))
    );
    assert!(!step.close && step.send.is_none());
    assert_eq!(chat.phase(), ChatPhase::Over);
}

#[test]
fn silence_before_the_ack_fails_the_chat() {
    let mut chat = ChatExchange::new("x");
    let step = chat.step(WsEvent::Ended, 0);
    assert_eq!(outcome(&step), Some(Err("OS3 did not acknowledge init in time")));
    assert!(!step.close);
}

#[test]
fn a_refusal_after_the_ack_fails_the_chat() {
    let step = acknowledged().step(message("{\"type\":\"admission.refused\"}"), 0);
    assert_eq!(outcome(&step), Some(Err("OS3 refused the session")));
    assert!(step.close);
}

#[test]
fn silence_after_the_ack_fails_the_chat() {
    let step = acknowledged().step(WsEvent::Ended, 0);
    assert_eq!(outcome(&step), Some(Err("OS3 reply timed out")));
    assert!(step.close);
}

#[test]
fn the_log_is_told_the_reply_or_the_error() {
    assert_eq!(log_entry(&Ok(ChatResult::Text("hi".to_string()))), (Some("hi"), None));
    assert_eq!(log_entry(&Err("bad".to_string())), (None, Some("bad")));
}

#[test]
fn each_phase_has_its_patience() {
    let chat = ChatExchange::new("x");
    assert!(!chat.time_is_up(19_999));
    assert!(chat.time_is_up(20_000));
    let mut chat = acknowledged();
    assert!(!chat.time_is_up(179_999));
    assert!(chat.time_is_up(180_000));
    chat.step(WsEvent::Ended, 0);
    assert!(chat.time_is_up(0));
}
