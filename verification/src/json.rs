//! JSON texts: writing strings, and reading the string members of an object.

use crate::text;
use vstd::prelude::*;

verus! {

/// A lower-case hexadecimal digit.
pub open spec fn hex_digit(d: int) -> char {
    if d < 10 {
        (48 + d) as char
    } else {
        (87 + d) as char
    }
}

/// How a character is written inside a JSON string: quotation marks,
/// backslashes and control characters are escaped, all others stand for
/// themselves.
pub open spec fn escape(c: char) -> Seq<char> {
    if c == '"' {
        seq!['\\', '"']
    } else if c == '\\' {
        seq!['\\', '\\']
    } else if c == '\u{8}' {
        seq!['\\', 'b']
    } else if c == '\t' {
        seq!['\\', 't']
    } else if c == '\n' {
        seq!['\\', 'n']
    } else if c == '\u{c}' {
        seq!['\\', 'f']
    } else if c == '\r' {
        seq!['\\', 'r']
    } else if (c as int) <= 31 {
        seq!['\\', 'u', '0', '0', hex_digit(c as int / 16), hex_digit(c as int % 16)]
    } else {
        seq![c]
    }
}

/// The inside of the JSON string for `text`.
pub open spec fn escaped(text: Seq<char>) -> Seq<char>
    decreases text.len(),
{
    if text.len() == 0 {
        seq![]
    } else {
        escape(text[0]) + escaped(text.skip(1))
    }
}

/// The JSON string for `text`.
pub open spec fn quoted(text: Seq<char>) -> Seq<char> {
    seq!['"'] + escaped(text) + seq!['"']
}

/// The compact display of a `serde_json::Value` that holds a string is the
/// JSON string for it.
#[verifier::external_body]
pub(crate) fn quote(s: &str) -> (r: String)
    ensures
        r@ == quoted(s@),
{
    serde_json::Value::from(s).to_string()
}

/// The string that stands under a key in the JSON object that a text denotes,
/// as `serde_json` reads it: `None` if the text is not JSON, is no object, or
/// has no string under that key.
pub uninterp spec fn string_member(document: Seq<char>, key: Seq<char>) -> Option<Seq<char>>;

/// `serde_json::from_str` parses the document into a `Value`, a text that does
/// not parse counting as null; `Value::get` looks up the key in it and
/// `Value::as_str` reads the member if it is a string. The outcome of the three
/// is only named here.
#[verifier::external_body]
pub(crate) fn read_string(document: &str, key: &str) -> (r: Option<String>)
    ensures
        text::view_of(r) == string_member(document@, key@),
{
    let value: serde_json::Value = serde_json::from_str(document).unwrap_or(
        serde_json::Value::Null,
    );
    value.get(key).and_then(|member| member.as_str()).map(String::from)
}

proof fn lemma_escape_is_a_prefix_code(a: char, x: Seq<char>, b: char, y: Seq<char>)
    requires
        escape(a) + x == escape(b) + y,
    ensures
        a == b,
        x == y,
{
    let l = escape(a) + x;
    let r = escape(b) + y;
    assert(l[0] == r[0]);
    assert(l[0] == escape(a)[0]);
    assert(r[0] == escape(b)[0]);
    if escape(a)[0] == '\\' {
        assert(escape(a).len() >= 2 && escape(b).len() >= 2);
        assert(l[1] == escape(a)[1]);
        assert(r[1] == escape(b)[1]);
        if escape(a)[1] == 'u' {
            assert(l[4] == escape(a)[4] && l[5] == escape(a)[5]);
            assert(r[4] == escape(b)[4] && r[5] == escape(b)[5]);
        }
    }
    assert(a == b);
    let n = escape(a).len() as int;
    assert(x =~= l.skip(n));
    assert(y =~= r.skip(n));
}

proof fn lemma_escaping_loses_nothing(a: Seq<char>, b: Seq<char>)
    requires
        escaped(a) == escaped(b),
    ensures
        a == b,
    decreases a.len(),
{
    if a.len() == 0 || b.len() == 0 {
        assert(a.len() > 0 ==> escape(a[0]).len() > 0 && escaped(a).len() > 0);
        assert(b.len() > 0 ==> escape(b[0]).len() > 0 && escaped(b).len() > 0);
        assert(a.len() == 0 ==> escaped(a).len() == 0);
        assert(b.len() == 0 ==> escaped(b).len() == 0);
        assert(a =~= b);
    } else {
        lemma_escape_is_a_prefix_code(a[0], escaped(a.skip(1)), b[0], escaped(b.skip(1)));
        lemma_escaping_loses_nothing(a.skip(1), b.skip(1));
        assert(a =~= seq![a[0]] + a.skip(1));
        assert(b =~= seq![b[0]] + b.skip(1));
    }
}

/// Two texts with the same JSON string are the same text.
pub proof fn law_quoting_loses_nothing(a: Seq<char>, b: Seq<char>)
    requires
        quoted(a) == quoted(b),
    ensures
        a == b,
{
    let l = quoted(a);
    let r = quoted(b);
    assert(l.subrange(1, l.len() - 1) =~= escaped(a));
    assert(r.subrange(1, r.len() - 1) =~= escaped(b));
    lemma_escaping_loses_nothing(a, b);
}

proof fn lemma_escape_stays_inside(c: char)
    ensures
        forall|i: int|
            0 <= i < escape(c).len() ==> {
                &&& (#[trigger] escape(c)[i] as int) >= 32
                &&& escape(c)[i] == '"' ==> i > 0 && escape(c)[i - 1] == '\\'
            },
{
    let n = c as int;
    if n <= 31 {
        assert(hex_digit(n / 16) == '0' || hex_digit(n / 16) == '1');
        let d = n % 16;
        assert(hex_digit(d) as int >= 48 && hex_digit(d) as int <= 102);
    }
}

/// Nothing inside a JSON string breaks out of it: every quotation mark there
/// follows a backslash, and no control character stands there.
pub proof fn law_quoted_text_stays_inside(text: Seq<char>)
    ensures
        forall|i: int|
            0 <= i < escaped(text).len() ==> {
                &&& (#[trigger] escaped(text)[i] as int) >= 32
                &&& escaped(text)[i] == '"' ==> i > 0 && escaped(text)[i - 1] == '\\'
            },
    decreases text.len(),
{
    if text.len() > 0 {
        let rest = escaped(text.skip(1));
        let head = escape(text[0]);
        law_quoted_text_stays_inside(text.skip(1));
        lemma_escape_stays_inside(text[0]);
        assert(escaped(text) == head + rest);
        assert forall|i: int| 0 <= i < escaped(text).len() implies {
            &&& (#[trigger] escaped(text)[i] as int) >= 32
            &&& escaped(text)[i] == '"' ==> i > 0 && escaped(text)[i - 1] == '\\'
        } by {
            if i >= head.len() {
                assert(escaped(text)[i] == rest[i - head.len()]);
                if escaped(text)[i] == '"' {
                    assert(escaped(text)[i - 1] == rest[i - 1 - head.len()]);
                }
            } else {
                assert(escaped(text)[i] == head[i]);
                if i > 0 {
                    assert(escaped(text)[i - 1] == head[i - 1]);
                }
            }
        }
    }
}

} // verus!
