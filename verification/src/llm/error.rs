//! Making provider errors safe to log and fit to speak.

use crate::text;
use std::fmt::Display;
use vstd::prelude::*;
use vstd::string::*;

verus! {

/// What ends a query string: a closing bracket or white space.
pub open spec fn ends_query(c: char) -> bool {
    c == ')' || text::white_space(c)
}

/// Whether position `i` belongs to a query string: some question mark stands
/// at or before it, and nothing after that mark, up to and with `i`, ends the
/// query.
pub open spec fn in_query(text: Seq<char>, i: int) -> bool {
    exists|j: int|
        0 <= j <= i < text.len() && #[trigger] text[j] == '?' && (forall|k: int|
            j < k <= i ==> !ends_query(#[trigger] text[k]))
}

/// The first `n` characters of `text` without those in a query string.
pub open spec fn outside_queries(text: Seq<char>, n: int) -> Seq<char>
    decreases n,
{
    if n <= 0 {
        seq![]
    } else if in_query(text, n - 1) {
        outside_queries(text, n - 1)
    } else {
        outside_queries(text, n - 1).push(text[n - 1])
    }
}

/// `text` without its query strings.
pub open spec fn stripped(text: Seq<char>) -> Seq<char> {
    outside_queries(text, text.len() as int)
}

/// Strips the query string from any URL in a text, so that no API key in it
/// leaks through an error message.
pub fn strip_query_strings(string: &str) -> (out: String)
    ensures
        out@ == stripped(string@),
{
    let mut out = String::new();
    let mut in_query_params = false;
    let ghost mut n: int = 0;
    for c in it: string.chars()
        invariant
            it.seq() == string@,
            n == it.index(),
            0 <= n <= string@.len(),
            out@ == outside_queries(string@, n),
            in_query_params == (n > 0 && in_query(string@, n - 1)),
    {
        proof {
            lemma_in_query_step(string@, n);
            n = n + 1;
        }
        if in_query_params {
            if c == ')' || text::is_white_space(c) {
                in_query_params = false;
                out.push(c);
            }
        } else if c == '?' {
            in_query_params = true;
        } else {
            out.push(c);
        }
    }
    out
}

/// A position is in a query string exactly if it holds a question mark, or the
/// position before it is in one and it does not end it.
proof fn lemma_in_query_step(text: Seq<char>, i: int)
    requires
        0 <= i < text.len(),
    ensures
        in_query(text, i) == (text[i] == '?' || (i > 0 && in_query(text, i - 1) && !ends_query(
            text[i],
        ))),
{
    if text[i] == '?' {
        assert(in_query(text, i));
    } else if i > 0 && in_query(text, i - 1) && !ends_query(text[i]) {
        let j = choose|j: int|
            0 <= j <= i - 1 < text.len() && #[trigger] text[j] == '?' && (forall|k: int|
                j < k <= i - 1 ==> !ends_query(#[trigger] text[k]));
        assert(text[j] == '?');
        assert(in_query(text, i));
    } else if in_query(text, i) {
        let j = choose|j: int|
            0 <= j <= i < text.len() && #[trigger] text[j] == '?' && (forall|k: int|
                j < k <= i ==> !ends_query(#[trigger] text[k]));
        assert(j < i);
        assert(text[j] == '?');
        assert(in_query(text, i - 1));
        assert(!ends_query(text[i]));
    }
}

/// Whether a lower-case error text says that too many requests were made.
pub open spec fn rate_limited(raw: Seq<char>) -> bool {
    ||| text::contains_text(raw, "429"@)
    ||| text::contains_text(raw, "rate limit"@)
    ||| text::contains_text(raw, "resource_exhausted"@)
    ||| text::contains_text(raw, "too many requests"@)
}

/// Whether a lower-case error text says that the API key was not accepted.
pub open spec fn key_refused(raw: Seq<char>) -> bool {
    ||| text::contains_text(raw, "401"@)
    ||| text::contains_text(raw, "403"@)
    ||| text::contains_text(raw, "unauthorized"@)
    ||| text::contains_text(raw, "forbidden"@)
    ||| text::contains_text(raw, "invalid api key"@)
    ||| text::contains_text(raw, "permission denied"@)
}

/// Whether a lower-case error text says that the model does not exist.
pub open spec fn model_missing(raw: Seq<char>) -> bool {
    ||| text::contains_text(raw, "404"@)
    ||| text::contains_text(raw, "model not found"@)
    ||| text::contains_text(raw, "not_found"@)
    ||| text::contains_text(raw, "does not exist"@)
}

/// Whether a lower-case error text says that the service is failing.
pub open spec fn service_down(raw: Seq<char>) -> bool {
    ||| text::contains_text(raw, "500"@)
    ||| text::contains_text(raw, "502"@)
    ||| text::contains_text(raw, "503"@)
    ||| text::contains_text(raw, "internal server error"@)
    ||| text::contains_text(raw, "service unavailable"@)
    ||| text::contains_text(raw, "bad gateway"@)
}

/// Whether a lower-case error text says that the request took too long.
pub open spec fn timed_out(raw: Seq<char>) -> bool {
    ||| text::contains_text(raw, "timeout"@)
    ||| text::contains_text(raw, "timed out"@)
    ||| text::contains_text(raw, "deadline exceeded"@)
}

/// Whether a lower-case error text says that the service could not be reached.
pub open spec fn unreachable(raw: Seq<char>) -> bool {
    ||| text::contains_text(raw, "connection"@)
    ||| text::contains_text(raw, "dns"@)
    ||| text::contains_text(raw, "resolve"@)
    ||| text::contains_text(raw, "unreachable"@)
}

/// Whether a lower-case error text says that the service declined to answer.
pub open spec fn declined(raw: Seq<char>) -> bool {
    ||| text::contains_text(raw, "content filter"@)
    ||| text::contains_text(raw, "safety"@)
    ||| text::contains_text(raw, "blocked"@)
    ||| text::contains_text(raw, "harm_category"@)
}

/// Whether a lower-case error text says that the conversation is too long.
pub open spec fn too_long(raw: Seq<char>) -> bool {
    ||| text::contains_text(raw, "context length"@)
    ||| text::contains_text(raw, "too long"@)
    ||| text::contains_text(raw, "max tokens"@)
    ||| text::contains_text(raw, "token limit"@)
}

/// The sentence that is spoken for an error whose lower-case text is `raw`. The
/// first fitting cause decides.
pub open spec fn spoken(raw: Seq<char>) -> Seq<char> {
    if rate_limited(raw) {
        "I'm getting too many requests right now. Please try again in a moment."@
    } else if key_refused(raw) {
        "There's a problem with the API key configuration. Please check the server settings."@
    } else if model_missing(raw) {
        "The configured AI model wasn't found. Please check the server settings."@
    } else if service_down(raw) {
        "The AI service is temporarily unavailable. Please try again shortly."@
    } else if timed_out(raw) {
        "The request to the AI service timed out. Please try again."@
    } else if unreachable(raw) {
        "I couldn't reach the AI service. Please check the server's internet connection."@
    } else if declined(raw) {
        "The AI service declined to answer that. Try rephrasing your question."@
    } else if too_long(raw) {
        "That conversation got too long for the AI service to handle. Try starting a new one."@
    } else {
        "Something went wrong while contacting the AI service. Please try again."@
    }
}

/// The sentence that is spoken for an error with the given text, whatever its
/// case.
pub open spec fn friendly(text: Seq<char>) -> Seq<char> {
    spoken(text::lowercase(text))
}

/// The sentence for an error whose lower-case text is given.
pub fn spoken_for(raw: &str) -> (r: String)
    ensures
        r@ == spoken(raw@),
{
    let raw = text::chars_of(raw);
    if text::contains(&raw, "429")
        || text::contains(&raw, "rate limit")
        || text::contains(&raw, "resource_exhausted")
        || text::contains(&raw, "too many requests") {
        "I'm getting too many requests right now. Please try again in a moment.".to_owned()
    } else if text::contains(&raw, "401")
        || text::contains(&raw, "403")
        || text::contains(&raw, "unauthorized")
        || text::contains(&raw, "forbidden")
        || text::contains(&raw, "invalid api key")
        || text::contains(&raw, "permission denied") {
        "There's a problem with the API key configuration. Please check the server settings.".to_owned()
    } else if text::contains(&raw, "404")
        || text::contains(&raw, "model not found")
        || text::contains(&raw, "not_found")
        || text::contains(&raw, "does not exist") {
        "The configured AI model wasn't found. Please check the server settings.".to_owned()
    } else if text::contains(&raw, "500")
        || text::contains(&raw, "502")
        || text::contains(&raw, "503")
        || text::contains(&raw, "internal server error")
        || text::contains(&raw, "service unavailable")
        || text::contains(&raw, "bad gateway") {
        "The AI service is temporarily unavailable. Please try again shortly.".to_owned()
    } else if text::contains(&raw, "timeout")
        || text::contains(&raw, "timed out")
        || text::contains(&raw, "deadline exceeded") {
        "The request to the AI service timed out. Please try again.".to_owned()
    } else if text::contains(&raw, "connection")
        || text::contains(&raw, "dns")
        || text::contains(&raw, "resolve")
        || text::contains(&raw, "unreachable") {
        "I couldn't reach the AI service. Please check the server's internet connection.".to_owned()
    } else if text::contains(&raw, "content filter")
        || text::contains(&raw, "safety")
        || text::contains(&raw, "blocked")
        || text::contains(&raw, "harm_category") {
        "The AI service declined to answer that. Try rephrasing your question.".to_owned()
    } else if text::contains(&raw, "context length")
        || text::contains(&raw, "too long")
        || text::contains(&raw, "max tokens")
        || text::contains(&raw, "token limit") {
        "That conversation got too long for the AI service to handle. Try starting a new one.".to_owned()
    } else {
        "Something went wrong while contacting the AI service. Please try again.".to_owned()
    }
}

/// Converts the text of a provider error into a friendly, speakable sentence.
pub fn friendly_text(text: &str) -> (r: String)
    ensures
        r@ == friendly(text@),
        r@ == spoken(text::lowercase(text@)),
        vstd::utf8::is_ascii_chars(text@) ==> r@ == spoken(text::ascii_lowercase(text@)),
{
    let raw = text.to_lowercase();
    spoken_for(raw.as_str())
}

/// Converts a raw provider error into a friendly, speakable sentence.
pub fn friendly_error_message(e: &impl Display) -> (r: String)
    ensures
        exists|shown: String| #[trigger]
            to_string_from_display_ensures(e, shown) && r@ == friendly(shown@) && r@ == spoken(
            text::lowercase(shown@),
        ) && (vstd::utf8::is_ascii_chars(shown@) ==> r@ == spoken(text::ascii_lowercase(shown@))),
{
    let shown = e.to_string();
    friendly_text(shown.as_str())
}

proof fn lemma_kept_are_not_question_marks(text: Seq<char>, n: int)
    requires
        n <= text.len(),
    ensures
        !outside_queries(text, n).contains('?'),
    decreases n,
{
    if n > 0 {
        lemma_kept_are_not_question_marks(text, n - 1);
        lemma_in_query_step(text, n - 1);
        let before = outside_queries(text, n - 1);
        let after = outside_queries(text, n);
        if after.contains('?') {
            let i = choose|i: int| 0 <= i < after.len() && after[i] == '?';
            if i < before.len() {
                assert(before[i] == '?');
            }
        }
    }
}

/// A stripped text holds no question mark, so no query string can start in it.
pub proof fn law_stripped_text_has_no_question_mark(text: Seq<char>)
    ensures
        !stripped(text).contains('?'),
{
    lemma_kept_are_not_question_marks(text, text.len() as int);
}

proof fn lemma_all_kept(text: Seq<char>, n: int)
    requires
        0 <= n <= text.len(),
        !text.contains('?'),
    ensures
        outside_queries(text, n) == text.take(n),
    decreases n,
{
    if n > 0 {
        lemma_all_kept(text, n - 1);
        assert(!in_query(text, n - 1)) by {
            if in_query(text, n - 1) {
                let j = choose|j: int|
                    0 <= j <= n - 1 < text.len() && #[trigger] text[j] == '?' && (forall|k: int|
                        j < k <= n - 1 ==> !ends_query(#[trigger] text[k]));
                assert(text.contains(text[j]));
            }
        }
        assert(text.take(n) =~= text.take(n - 1).push(text[n - 1]));
    } else {
        assert(outside_queries(text, n) =~= text.take(n));
    }
}

/// A text without a question mark passes through unchanged.
pub proof fn law_text_without_a_query_is_kept(text: Seq<char>)
    requires
        !text.contains('?'),
    ensures
        stripped(text) == text,
{
    lemma_all_kept(text, text.len() as int);
    assert(text.take(text.len() as int) =~= text);
}

/// Stripping a second time changes nothing.
pub proof fn law_stripping_twice_is_stripping_once(text: Seq<char>)
    ensures
        stripped(stripped(text)) == stripped(text),
{
    law_stripped_text_has_no_question_mark(text);
    law_text_without_a_query_is_kept(stripped(text));
}

proof fn lemma_front_alone_decides(a: Seq<char>, rest: Seq<char>, n: int)
    requires
        0 <= n <= a.len(),
    ensures
        outside_queries(a + rest, n) == outside_queries(a, n),
        n > 0 ==> in_query(a + rest, n - 1) == in_query(a, n - 1),
    decreases n,
{
    if n > 0 {
        lemma_front_alone_decides(a, rest, n - 1);
        lemma_in_query_step(a, n - 1);
        lemma_in_query_step(a + rest, n - 1);
    }
}

proof fn lemma_query_is_skipped(a: Seq<char>, query: Seq<char>, b: Seq<char>, n: int)
    requires
        query.len() > 0,
        query[0] == '?',
        forall|k: int| 0 < k < query.len() ==> !ends_query(#[trigger] query[k]),
        0 <= n <= query.len(),
    ensures
        outside_queries(a + query + b, a.len() + n) == stripped(a),
        n > 0 ==> in_query(a + query + b, a.len() + n - 1),
    decreases n,
{
    let whole = a + query + b;
    if n == 0 {
        lemma_front_alone_decides(a, query + b, a.len() as int);
        assert(whole =~= a + (query + b));
    } else {
        lemma_query_is_skipped(a, query, b, n - 1);
        let i = a.len() + n - 1;
        assert(whole[i] == query[n - 1]);
        lemma_in_query_step(whole, i);
    }
}

proof fn lemma_after_the_query(front: Seq<char>, b: Seq<char>, n: int)
    requires
        b.len() > 0 ==> ends_query(b[0]),
        0 <= n <= b.len(),
    ensures
        outside_queries(front + b, front.len() + n) == stripped_prefix(front, b) + outside_queries(
            b,
            n,
        ),
        n > 0 ==> in_query(front + b, front.len() + n - 1) == in_query(b, n - 1),
    decreases n,
{
    let whole = front + b;
    if n == 0 {
        assert(outside_queries(b, 0) =~= seq![]);
        assert(stripped_prefix(front, b) + outside_queries(b, 0) =~= stripped_prefix(front, b));
    } else {
        lemma_after_the_query(front, b, n - 1);
        let i = front.len() + n - 1;
        assert(whole[i] == b[n - 1]);
        lemma_in_query_step(whole, i);
        lemma_in_query_step(b, n - 1);
        assert(outside_queries(whole, front.len() + n) =~= stripped_prefix(front, b)
            + outside_queries(b, n));
    }
}

spec fn stripped_prefix(front: Seq<char>, b: Seq<char>) -> Seq<char> {
    outside_queries(front + b, front.len() as int)
}

/// A query string ends at a closing bracket or white space, and at nothing else.
pub proof fn law_only_brackets_and_white_space_end_a_query(c: char)
    ensures
        ends_query(c) <==> c == ')' || text::white_space(c),
{
}

/// A query string is erased wherever it stands: what is left is what is left
/// of the text before it and of the text after it, and nothing of the query.
/// A query string is a question mark and all that follows it up to a closing
/// bracket or white space.
pub proof fn law_query_string_is_erased(before: Seq<char>, query: Seq<char>, after: Seq<char>)
    requires
        query.len() > 0,
        query[0] == '?',
        forall|k: int|
            0 < k < query.len() ==> #[trigger] query[k] != ')' && !text::white_space(query[k]),
        after.len() > 0 ==> after[0] == ')' || text::white_space(after[0]),
    ensures
        stripped(before + query + after) == stripped(before) + stripped(after),
{
    lemma_query_is_skipped(before, query, after, query.len() as int);
    lemma_after_the_query(before + query, after, after.len() as int);
}

/// A closing bracket or white space parts the stripping: what comes from there
/// on is stripped as if it stood alone, whatever stands before it.
pub proof fn law_query_end_parts_the_text(before: Seq<char>, after: Seq<char>)
    requires
        after.len() > 0 ==> after[0] == ')' || text::white_space(after[0]),
    ensures
        stripped(before + after) == stripped(before) + stripped(after),
{
    lemma_front_alone_decides(before, after, before.len() as int);
    lemma_after_the_query(before, after, after.len() as int);
}

/// Two texts that differ only in what their query strings say are the same once
/// stripped, so nothing of a query can be learned from the rest.
pub proof fn law_queries_leave_no_trace(
    before: Seq<char>,
    one: Seq<char>,
    other: Seq<char>,
    after: Seq<char>,
)
    requires
        forall|k: int|
            0 <= k < one.len() ==> #[trigger] one[k] != ')' && !text::white_space(one[k]),
        forall|k: int|
            0 <= k < other.len() ==> #[trigger] other[k] != ')' && !text::white_space(other[k]),
        after.len() > 0 ==> after[0] == ')' || text::white_space(after[0]),
    ensures
        stripped(before + (seq!['?'] + one) + after) == stripped(
            before + (seq!['?'] + other) + after,
        ),
{
    law_query_string_is_erased(before, seq!['?'] + one, after);
    law_query_string_is_erased(before, seq!['?'] + other, after);
}

/// The sentences that can be spoken.
pub open spec fn is_sentence(text: Seq<char>) -> bool {
    ||| text == "I'm getting too many requests right now. Please try again in a moment."@
    ||| text == "There's a problem with the API key configuration. Please check the server settings."@
    ||| text == "The configured AI model wasn't found. Please check the server settings."@
    ||| text == "The AI service is temporarily unavailable. Please try again shortly."@
    ||| text == "The request to the AI service timed out. Please try again."@
    ||| text == "I couldn't reach the AI service. Please check the server's internet connection."@
    ||| text == "The AI service declined to answer that. Try rephrasing your question."@
    ||| text == "That conversation got too long for the AI service to handle. Try starting a new one."@
    ||| text == "Something went wrong while contacting the AI service. Please try again."@
}

/// Whatever the error says, one of the fixed sentences is spoken, so nothing
/// of the error itself is read out.
pub proof fn law_only_fixed_sentences_are_spoken(text: Seq<char>)
    ensures
        is_sentence(friendly(text)),
{
}

/// What a part of a text mentions, the whole text mentions.
pub(crate) proof fn lemma_context_keeps_mentions(
    before: Seq<char>,
    part: Seq<char>,
    after: Seq<char>,
    pattern: Seq<char>,
)
    requires
        text::contains_text(part, pattern),
    ensures
        text::contains_text(before + part + after, pattern),
{
    let i = choose|i: int| text::occurs_at(part, pattern, i);
    let whole = before + part + after;
    let at = before.len() + i;
    assert(whole.subrange(at, at + pattern.len()) =~= part.subrange(i, i + pattern.len()));
    assert(text::occurs_at(whole, pattern, at));
}

/// The causes are tried in order: an error text that mentions a rate limit is
/// answered for that, whatever else stands around the mention.
pub proof fn law_rate_limit_outweighs_other_causes(
    before: Seq<char>,
    mention: Seq<char>,
    after: Seq<char>,
)
    requires
        rate_limited(mention),
    ensures
        spoken(before + mention + after)
            == "I'm getting too many requests right now. Please try again in a moment."@,
{
    if text::contains_text(mention, "429"@) {
        lemma_context_keeps_mentions(before, mention, after, "429"@);
    } else if text::contains_text(mention, "rate limit"@) {
        lemma_context_keeps_mentions(before, mention, after, "rate limit"@);
    } else if text::contains_text(mention, "resource_exhausted"@) {
        lemma_context_keeps_mentions(before, mention, after, "resource_exhausted"@);
    } else {
        lemma_context_keeps_mentions(before, mention, after, "too many requests"@);
    }
}

/// Whether a text has one of the given words somewhere.
pub open spec fn mentions_one(raw: Seq<char>, wanted: Seq<Seq<char>>) -> bool {
    exists|i: int, a: Seq<char>, b: Seq<char>|
        0 <= i < wanted.len() && raw == #[trigger] (a + wanted[i] + b)
}

proof fn lemma_mentions(raw: Seq<char>, wanted: Seq<Seq<char>>)
    ensures
        mentions_one(raw, wanted) <==> exists|i: int|
            0 <= i < wanted.len() && text::contains_text(raw, #[trigger] wanted[i]),
{
    if mentions_one(raw, wanted) {
        let (i, a, b) = choose|i: int, a: Seq<char>, b: Seq<char>|
            0 <= i < wanted.len() && raw == #[trigger] (a + wanted[i] + b);
        text::law_containing_is_having_around(raw, wanted[i]);
        assert(text::contains_text(raw, wanted[i]));
    }
    if exists|i: int| 0 <= i < wanted.len() && text::contains_text(raw, #[trigger] wanted[i]) {
        let i = choose|i: int|
            0 <= i < wanted.len() && text::contains_text(raw, #[trigger] wanted[i]);
        text::law_containing_is_having_around(raw, wanted[i]);
        let (a, b) = choose|a: Seq<char>, b: Seq<char>| raw == #[trigger] (a + wanted[i] + b);
        assert(raw == a + wanted[i] + b);
    }
}

/// Each cause is known by its words, and the causes are tried in order: the
/// first one that a text mentions decides what is spoken, and a text that
/// mentions none gets the general sentence.
pub proof fn law_causes_are_tried_in_order(raw: Seq<char>)
    ensures
        ({
            let c0 = mentions_one(
                raw,
                seq!["429"@, "rate limit"@, "resource_exhausted"@, "too many requests"@],
            );
            let c1 = mentions_one(
                raw,
                seq!["401"@, "403"@, "unauthorized"@, "forbidden"@, "invalid api key"@, "permission denied"@],
            );
            let c2 = mentions_one(
                raw,
                seq!["404"@, "model not found"@, "not_found"@, "does not exist"@],
            );
            let c3 = mentions_one(
                raw,
                seq!["500"@, "502"@, "503"@, "internal server error"@, "service unavailable"@, "bad gateway"@],
            );
            let c4 = mentions_one(
                raw,
                seq!["timeout"@, "timed out"@, "deadline exceeded"@],
            );
            let c5 = mentions_one(
                raw,
                seq!["connection"@, "dns"@, "resolve"@, "unreachable"@],
            );
            let c6 = mentions_one(
                raw,
                seq!["content filter"@, "safety"@, "blocked"@, "harm_category"@],
            );
            let c7 = mentions_one(
                raw,
                seq!["context length"@, "too long"@, "max tokens"@, "token limit"@],
            );
            &&& c0 ==> spoken(raw)
                == "I'm getting too many requests right now. Please try again in a moment."@
            &&& !c0 && c1 ==> spoken(raw)
                == "There's a problem with the API key configuration. Please check the server settings."@
            &&& !c0 && !c1 && c2 ==> spoken(raw)
                == "The configured AI model wasn't found. Please check the server settings."@
            &&& !c0 && !c1 && !c2 && c3 ==> spoken(raw)
                == "The AI service is temporarily unavailable. Please try again shortly."@
            &&& !c0 && !c1 && !c2 && !c3 && c4 ==> spoken(raw)
                == "The request to the AI service timed out. Please try again."@
            &&& !c0 && !c1 && !c2 && !c3 && !c4 && c5 ==> spoken(raw)
                == "I couldn't reach the AI service. Please check the server's internet connection."@
            &&& !c0 && !c1 && !c2 && !c3 && !c4 && !c5 && c6 ==> spoken(raw)
                == "The AI service declined to answer that. Try rephrasing your question."@
            &&& !c0 && !c1 && !c2 && !c3 && !c4 && !c5 && !c6 && c7 ==> spoken(raw)
                == "That conversation got too long for the AI service to handle. Try starting a new one."@
            &&& !c0 && !c1 && !c2 && !c3 && !c4 && !c5 && !c6 && !c7 ==> spoken(raw)
                == "Something went wrong while contacting the AI service. Please try again."@
        }),
{
    let w0: Seq<Seq<char>> = seq!["429"@, "rate limit"@, "resource_exhausted"@, "too many requests"@];
    lemma_mentions(raw, w0);
    assert(rate_limited(raw) <==> mentions_one(raw, w0)) by {
        assert(w0[0] == "429"@);
        assert(w0[1] == "rate limit"@);
        assert(w0[2] == "resource_exhausted"@);
        assert(w0[3] == "too many requests"@);
    }
    let w1: Seq<Seq<char>> = seq!["401"@, "403"@, "unauthorized"@, "forbidden"@, "invalid api key"@, "permission denied"@];
    lemma_mentions(raw, w1);
    assert(key_refused(raw) <==> mentions_one(raw, w1)) by {
        assert(w1[0] == "401"@);
        assert(w1[1] == "403"@);
        assert(w1[2] == "unauthorized"@);
        assert(w1[3] == "forbidden"@);
        assert(w1[4] == "invalid api key"@);
        assert(w1[5] == "permission denied"@);
    }
    let w2: Seq<Seq<char>> = seq!["404"@, "model not found"@, "not_found"@, "does not exist"@];
    lemma_mentions(raw, w2);
    assert(model_missing(raw) <==> mentions_one(raw, w2)) by {
        assert(w2[0] == "404"@);
        assert(w2[1] == "model not found"@);
        assert(w2[2] == "not_found"@);
        assert(w2[3] == "does not exist"@);
    }
    let w3: Seq<Seq<char>> = seq!["500"@, "502"@, "503"@, "internal server error"@, "service unavailable"@, "bad gateway"@];
    lemma_mentions(raw, w3);
    assert(service_down(raw) <==> mentions_one(raw, w3)) by {
        assert(w3[0] == "500"@);
        assert(w3[1] == "502"@);
        assert(w3[2] == "503"@);
        assert(w3[3] == "internal server error"@);
        assert(w3[4] == "service unavailable"@);
        assert(w3[5] == "bad gateway"@);
    }
    let w4: Seq<Seq<char>> = seq!["timeout"@, "timed out"@, "deadline exceeded"@];
    lemma_mentions(raw, w4);
    assert(timed_out(raw) <==> mentions_one(raw, w4)) by {
        assert(w4[0] == "timeout"@);
        assert(w4[1] == "timed out"@);
        assert(w4[2] == "deadline exceeded"@);
    }
    let w5: Seq<Seq<char>> = seq!["connection"@, "dns"@, "resolve"@, "unreachable"@];
    lemma_mentions(raw, w5);
    assert(unreachable(raw) <==> mentions_one(raw, w5)) by {
        assert(w5[0] == "connection"@);
        assert(w5[1] == "dns"@);
        assert(w5[2] == "resolve"@);
        assert(w5[3] == "unreachable"@);
    }
    let w6: Seq<Seq<char>> = seq!["content filter"@, "safety"@, "blocked"@, "harm_category"@];
    lemma_mentions(raw, w6);
    assert(declined(raw) <==> mentions_one(raw, w6)) by {
        assert(w6[0] == "content filter"@);
        assert(w6[1] == "safety"@);
        assert(w6[2] == "blocked"@);
        assert(w6[3] == "harm_category"@);
    }
    let w7: Seq<Seq<char>> = seq!["context length"@, "too long"@, "max tokens"@, "token limit"@];
    lemma_mentions(raw, w7);
    assert(too_long(raw) <==> mentions_one(raw, w7)) by {
        assert(w7[0] == "context length"@);
        assert(w7[1] == "too long"@);
        assert(w7[2] == "max tokens"@);
        assert(w7[3] == "token limit"@);
    }
}

/// What is spoken depends on the lower case of an error alone.
pub proof fn law_case_does_not_matter(a: Seq<char>, b: Seq<char>)
    requires
        text::lowercase(a) == text::lowercase(b),
    ensures
        friendly(a) == friendly(b),
        friendly(a) == spoken(text::lowercase(a)),
{
}

} // verus!
