use os3_bridge::llm::error::{
    friendly_error_message, friendly_text, spoken_for, strip_query_strings,
};

const OTHER: &str = "Something went wrong while contacting the AI service. Please try again.";

#[test]
fn strips_query_from_reqwest_style_url() {
    let msg = "CompletionError: HttpError: Http client error: error sending request for url (https://generativelanguage.googleapis.com/v1beta/models/gemini-2.5-flash:generateContent?alt=sse&key=AIzaSECRET)";
    let stripped = strip_query_strings(msg);
    assert!(!stripped.contains("AIzaSECRET"));
    assert!(!stripped.contains("alt=sse"));
    assert_eq!(
        stripped,
        "CompletionError: HttpError: Http client error: error sending request for url (https://generativelanguage.googleapis.com/v1beta/models/gemini-2.5-flash:generateContent)"
    );
}

#[test]
fn passes_through_without_query() {
    let msg = "error sending request for url (https://example.com/path)";
    assert_eq!(strip_query_strings(msg), msg);
}

#[test]
fn resumes_after_whitespace() {
    let msg = "failed https://a.example/x?key=SECRET then retried";
    assert_eq!(
        strip_query_strings(msg),
        "failed https://a.example/x then retried"
    );
}

#[test]
fn question_mark_at_end() {
    assert_eq!(strip_query_strings("did it fail?"), "did it fail");
    assert_eq!(strip_query_strings(""), "");
}

#[test]
fn a_question_mark_inside_a_query_belongs_to_it() {
    assert_eq!(strip_query_strings("a?b?c)d?e\u{a0}f"), "a)d\u{a0}f");
    let once = strip_query_strings("x?y z?w");
    assert_eq!(once, "x z");
    assert_eq!(strip_query_strings(&once), once);
}

#[test]
fn each_cause_has_its_sentence() {
    let cases = [
        ("HTTP 429", "I'm getting too many requests right now. Please try again in a moment."),
        ("Rate Limit reached", "I'm getting too many requests right now. Please try again in a moment."),
        ("RESOURCE_EXHAUSTED", "I'm getting too many requests right now. Please try again in a moment."),
        ("Too Many Requests", "I'm getting too many requests right now. Please try again in a moment."),
        ("401", "There's a problem with the API key configuration. Please check the server settings."),
        ("Permission denied", "There's a problem with the API key configuration. Please check the server settings."),
        ("invalid API key", "There's a problem with the API key configuration. Please check the server settings."),
        ("404", "The configured AI model wasn't found. Please check the server settings."),
        ("it does not exist", "The configured AI model wasn't found. Please check the server settings."),
        ("Bad Gateway", "The AI service is temporarily unavailable. Please try again shortly."),
        ("503", "The AI service is temporarily unavailable. Please try again shortly."),
        ("operation timed out", "The request to the AI service timed out. Please try again."),
        ("DNS error", "I couldn't reach the AI service. Please check the server's internet connection."),
        ("HARM_CATEGORY", "The AI service declined to answer that. Try rephrasing your question."),
        ("max tokens", "That conversation got too long for the AI service to handle. Try starting a new one."),
        ("something else", OTHER),
        ("", OTHER),
    ];
    for (raw, sentence) in cases {
        assert_eq!(friendly_text(raw), sentence);
        assert_eq!(friendly_error_message(&raw), sentence);
        assert_eq!(friendly_error_message(&raw.to_string()), sentence);
    }
}

#[test]
fn the_first_cause_decides() {
    assert_eq!(
        spoken_for("500: timeout, 429"),
        "I'm getting too many requests right now. Please try again in a moment."
    );
    assert_eq!(
        spoken_for("connection timeout"),
        "The request to the AI service timed out. Please try again."
    );
}

#[test]
fn only_a_lower_case_text_is_matched_directly() {
    assert_eq!(spoken_for("FORBIDDEN"), OTHER);
    assert_ne!(friendly_text("FORBIDDEN"), OTHER);
    // The Kelvin sign becomes an ASCII k in lower case.
    assert_eq!(
        friendly_text("BLOC\u{212a}ED"),
        "The AI service declined to answer that. Try rephrasing your question."
    );
}

#[test]
fn numbers_are_displayed_before_they_are_judged() {
    assert_eq!(
        friendly_error_message(&502),
        "The AI service is temporarily unavailable. Please try again shortly."
    );
}

#[test]
fn a_bracket_or_white_space_parts_the_stripping() {
    for (before, after) in [("a?b", ")c?d"), ("x", " y?z"), ("?", "\n"), ("p?q", "")] {
        let whole = format!("{before}{after}");
        let parts = format!("{}{}", strip_query_strings(before), strip_query_strings(after));
        assert_eq!(strip_query_strings(&whole), parts);
    }
}
