//! The cookies that the OS3 service sets during a login.

use crate::text;
use vstd::prelude::*;
use vstd::string::*;

verus! {

/// One cookie.
pub struct Cookie {
    /// The name, without white space around it.
    pub name: String,
    /// The value, without white space around it.
    pub value: String,
}

/// The cookies of one login, at most one of each name.
pub struct CookieJar {
    entries: Vec<Cookie>,
}

/// Names and values, in the order in which the names first came.
pub type Cookies = Seq<(Seq<char>, Seq<char>)>;

/// The first position at or after `from` that holds `name`, or the length.
pub open spec fn position_of(jar: Cookies, name: Seq<char>, from: int) -> int
    decreases jar.len() - from,
{
    if from >= jar.len() {
        jar.len() as int
    } else if jar[from].0 == name {
        from
    } else {
        position_of(jar, name, from + 1)
    }
}

/// The jar with `value` under `name`: in the place of the old value if there
/// is one, else at the end.
pub open spec fn put(jar: Cookies, name: Seq<char>, value: Seq<char>) -> Cookies {
    let at = position_of(jar, name, 0);
    if at < jar.len() {
        jar.update(at, (name, value))
    } else {
        jar.push((name, value))
    }
}

/// No name stands in the jar twice.
pub open spec fn distinct_names(jar: Cookies) -> bool {
    forall|i: int, j: int| 0 <= i < j < jar.len() ==> #[trigger] jar[i].0 != #[trigger] jar[j].0
}

/// The names and values as a map.
pub open spec fn as_map(jar: Cookies) -> Map<Seq<char>, Seq<char>>
    decreases jar.len(),
{
    if jar.len() == 0 {
        Map::empty()
    } else {
        as_map(jar.drop_last()).insert(jar.last().0, jar.last().1)
    }
}

/// The name and value in the text of a `Set-Cookie` header: what stands before
/// the first semicolon, parted at its first equals sign. `None` if there is no
/// equals sign there.
pub open spec fn cookie_in(header: Seq<char>) -> Option<(Seq<char>, Seq<char>)> {
    let pair = header.take(text::index_from(header, ';', 0));
    let eq = text::index_from(pair, '=', 0);
    if eq < pair.len() {
        Some((text::trimmed(pair.take(eq)), text::trimmed(pair.skip(eq + 1))))
    } else {
        None
    }
}

/// Whether a header value is text: visible ASCII characters, spaces and tabs.
pub open spec fn is_header_text(value: Seq<u8>) -> bool {
    forall|i: int|
        0 <= i < value.len() ==> 32 <= #[trigger] value[i] <= 126 || value[i] == 9
}

/// The text of a header value.
pub open spec fn header_text(value: Seq<u8>) -> Seq<char> {
    value.map_values(|b: u8| b as char)
}

/// `HeaderValue::from_bytes` takes the bytes that a header may hold, and
/// `HeaderValue::to_str` reads them as text if each is a visible ASCII
/// character, a space or a tab; other values are refused by one or the other.
#[verifier::external_body]
fn read_header(value: &[u8]) -> (r: Option<String>)
    ensures
        r is Some <==> is_header_text(value@),
        r matches Some(t) ==> t@ == header_text(value@),
{
    let value = reqwest::header::HeaderValue::from_bytes(value).ok()?;
    value.to_str().ok().map(String::from)
}

/// The jar after one `Set-Cookie` header.
pub open spec fn absorbed(jar: Cookies, value: Seq<u8>) -> Cookies {
    if is_header_text(value) {
        match cookie_in(header_text(value)) {
            Some((name, v)) => put(jar, name, v),
            None => jar,
        }
    } else {
        jar
    }
}

/// The jar after several `Set-Cookie` headers, in order.
pub open spec fn absorbed_all(jar: Cookies, values: Seq<Vec<u8>>) -> Cookies
    decreases values.len(),
{
    if values.len() == 0 {
        jar
    } else {
        absorbed(absorbed_all(jar, values.drop_last()), values.last()@)
    }
}

/// One cookie as a request names it.
pub open spec fn as_pair(cookie: (Seq<char>, Seq<char>)) -> Seq<char> {
    cookie.0 + "="@ + cookie.1
}

/// The value of the `Cookie` header for a jar.
pub open spec fn header_for(jar: Cookies) -> Seq<char> {
    text::joined(jar.map_values(|c: (Seq<char>, Seq<char>)| as_pair(c)), "; "@)
}

impl CookieJar {
    /// The names and values, in order.
    pub closed spec fn cookies(&self) -> Cookies {
        self.entries@.map_values(|c: Cookie| (c.name@, c.value@))
    }

    /// No name stands in the jar twice.
    pub open spec fn wf(&self) -> bool {
        distinct_names(self.cookies())
    }

    /// A jar without cookies.
    pub fn new() -> (jar: CookieJar)
        ensures
            jar.cookies() == Seq::<(Seq<char>, Seq<char>)>::empty(),
            jar.wf(),
    {
        let jar = CookieJar { entries: Vec::new() };
        proof {
            assert(jar.cookies() =~= Seq::<(Seq<char>, Seq<char>)>::empty());
        }
        jar
    }

    /// A jar with the same cookies.
    pub fn copy(&self) -> (jar: CookieJar)
        ensures
            jar.cookies() == self.cookies(),
    {
        let mut entries: Vec<Cookie> = Vec::new();
        let mut i: usize = 0;
        while i < self.entries.len()
            invariant
                i <= self.entries@.len(),
                entries@.len() == i,
                forall|j: int|
                    0 <= j < i ==> (#[trigger] entries@[j]).name@ == self.entries@[j].name@
                        && entries@[j].value@ == self.entries@[j].value@,
            decreases self.entries@.len() - i,
        {
            let cookie = Cookie {
                name: self.entries[i].name.clone(),
                value: self.entries[i].value.clone(),
            };
            entries.push(cookie);
            i = i + 1;
        }
        let jar = CookieJar { entries };
        proof {
            assert(jar.cookies() =~= self.cookies());
        }
        jar
    }

    /// The position of `name`, or the number of cookies.
    fn position(&self, name: &str) -> (at: usize)
        ensures
            at == position_of(self.cookies(), name@, 0),
            at <= self.entries@.len() == self.cookies().len(),
    {
        let mut i: usize = 0;
        while i < self.entries.len()
            invariant
                i <= self.entries@.len(),
                position_of(self.cookies(), name@, 0) == position_of(
                    self.cookies(),
                    name@,
                    i as int,
                ),
            decreases self.entries@.len() - i,
        {
            if text::same_text(self.entries[i].name.as_str(), name) {
                return i;
            }
            i = i + 1;
        }
        i
    }

    /// Puts `value` under `name`.
    pub fn insert(&mut self, name: String, value: String)
        ensures
            final(self).cookies() == put(old(self).cookies(), name@, value@),
            old(self).wf() ==> final(self).wf(),
    {
        let ghost before = self.cookies();
        proof {
            if self.wf() {
                law_put_replaces_one_name(before, name@, value@);
            }
        }
        let at = self.position(name.as_str());
        let cookie = Cookie { name, value };
        if at < self.entries.len() {
            self.entries.set(at, cookie);
            proof {
                assert(self.cookies() =~= before.update(at as int, (cookie.name@, cookie.value@)));
            }
        } else {
            self.entries.push(cookie);
            proof {
                assert(self.cookies() =~= before.push((cookie.name@, cookie.value@)));
            }
        }
    }

    /// Takes over the cookie of one `Set-Cookie` header, if it holds one.
    fn absorb(&mut self, value: &[u8])
        ensures
            final(self).cookies() == absorbed(old(self).cookies(), value@),
            old(self).wf() ==> final(self).wf(),
    {
        if let Some(header) = read_header(value) {
            let chars = text::chars_of(header.as_str());
            let end = text::find_from(&chars, ';', 0);
            let pair = text::chars_of(text::string_of(&chars, 0, end).as_str());
            let eq = text::find_from(&pair, '=', 0);
            proof {
                assert(pair@ == header@.take(end as int));
            }
            if eq < pair.len() {
                let name = text::trim_range(&pair, 0, eq);
                let v = text::trim_range(&pair, eq + 1, pair.len());
                proof {
                    assert(pair@.subrange(0, eq as int) =~= pair@.take(eq as int));
                    assert(pair@.subrange(eq + 1, pair@.len() as int) =~= pair@.skip(eq + 1));
                }
                self.insert(name, v);
            }
        }
    }
}

/// Takes over the cookies of all `Set-Cookie` headers of a response.
pub fn absorb_cookies(jar: &mut CookieJar, values: &Vec<Vec<u8>>)
    ensures
        final(jar).cookies() == absorbed_all(old(jar).cookies(), values@),
        old(jar).wf() ==> final(jar).wf(),
{
    let mut i: usize = 0;
    proof {
        assert(values@.take(0).len() == 0);
    }
    while i < values.len()
        invariant
            i <= values@.len(),
            jar.cookies() == absorbed_all(old(jar).cookies(), values@.take(i as int)),
            old(jar).wf() ==> jar.wf(),
        decreases values@.len() - i,
    {
        jar.absorb(values[i].as_slice());
        proof {
            assert(values@.take(i + 1).drop_last() =~= values@.take(i as int));
        }
        i = i + 1;
    }
    proof {
        assert(values@.take(i as int) =~= values@);
    }
}

/// The value of the `Cookie` header for a jar; empty if the jar is.
pub fn cookie_header(jar: &CookieJar) -> (r: String)
    ensures
        r@ == header_for(jar.cookies()),
{
    let ghost pairs = jar.cookies().map_values(|c: (Seq<char>, Seq<char>)| as_pair(c));
    let mut parts: Vec<String> = Vec::new();
    let mut i: usize = 0;
    while i < jar.entries.len()
        invariant
            i <= jar.entries@.len(),
            parts@.len() == i,
            pairs == jar.cookies().map_values(|c: (Seq<char>, Seq<char>)| as_pair(c)),
            forall|j: int| 0 <= j < i ==> (#[trigger] parts@[j])@ == pairs[j],
        decreases jar.entries@.len() - i,
    {
        let mut pair = jar.entries[i].name.clone();
        pair.append("=");
        pair.append(jar.entries[i].value.as_str());
        parts.push(pair);
        i = i + 1;
    }
    proof {
        assert(text::texts(parts@) =~= pairs);
    }
    text::join(&parts, "; ")
}

proof fn lemma_position_of(jar: Cookies, name: Seq<char>, from: int)
    requires
        0 <= from <= jar.len(),
    ensures
        from <= position_of(jar, name, from) <= jar.len(),
        forall|j: int| from <= j < position_of(jar, name, from) ==> (#[trigger] jar[j]).0 != name,
        position_of(jar, name, from) < jar.len() ==> jar[position_of(jar, name, from)].0 == name,
    decreases jar.len() - from,
{
    if from < jar.len() && jar[from].0 != name {
        lemma_position_of(jar, name, from + 1);
    }
}

proof fn lemma_as_map(jar: Cookies)
    requires
        distinct_names(jar),
    ensures
        forall|i: int|
            0 <= i < jar.len() ==> #[trigger] as_map(jar).dom().contains(jar[i].0) && as_map(
                jar,
            )[jar[i].0] == jar[i].1,
        forall|name: Seq<char>| #[trigger]
            as_map(jar).dom().contains(name) ==> exists|i: int|
                0 <= i < jar.len() && (#[trigger] jar[i]).0 == name,
    decreases jar.len(),
{
    if jar.len() > 0 {
        let front = jar.drop_last();
        assert forall|i: int, j: int| 0 <= i < j < front.len() implies #[trigger] front[i].0
            != #[trigger] front[j].0 by {
            assert(front[i] == jar[i] && front[j] == jar[j]);
        }
        lemma_as_map(front);
        assert forall|i: int| 0 <= i < jar.len() implies #[trigger] as_map(jar).dom().contains(
            jar[i].0,
        ) && as_map(jar)[jar[i].0] == jar[i].1 by {
            if i < front.len() {
                assert(front[i] == jar[i]);
                assert(jar[i].0 != jar[jar.len() - 1].0);
                assert(as_map(front).dom().contains(front[i].0));
            }
        }
        assert forall|name: Seq<char>| #[trigger]
            as_map(jar).dom().contains(name) implies exists|i: int|
            0 <= i < jar.len() && (#[trigger] jar[i]).0 == name by {
            if name == jar.last().0 {
                assert(jar[jar.len() - 1].0 == name);
            } else {
                assert(as_map(front).dom().contains(name));
                let i = choose|i: int| 0 <= i < front.len() && (#[trigger] front[i]).0 == name;
                assert(jar[i].0 == name);
            }
        }
    }
}

/// A cookie replaces the one of the same name and leaves all others alone: the
/// names stay distinct, and the jar as a map gains exactly the new entry.
pub proof fn law_put_replaces_one_name(jar: Cookies, name: Seq<char>, value: Seq<char>)
    requires
        distinct_names(jar),
    ensures
        distinct_names(put(jar, name, value)),
        as_map(put(jar, name, value)) == as_map(jar).insert(name, value),
        exists|i: int|
            0 <= i < put(jar, name, value).len() && #[trigger] put(jar, name, value)[i] == (
                name,
                value,
            ),
        forall|i: int|
            0 <= i < jar.len() && (#[trigger] jar[i]).0 != name ==> i < put(jar, name, value).len()
                && put(jar, name, value)[i] == jar[i],
        forall|i: int|
            0 <= i < put(jar, name, value).len() && (#[trigger] put(jar, name, value)[i]).0 != name
                ==> i < jar.len() && jar[i] == put(jar, name, value)[i],
{
    lemma_position_of(jar, name, 0);
    let at = position_of(jar, name, 0);
    let after = put(jar, name, value);
    assert(after[at] == (name, value));
    assert forall|i: int, j: int| 0 <= i < j < after.len() implies #[trigger] after[i].0
        != #[trigger] after[j].0 by {
        if j < jar.len() {
            assert(jar[i].0 != jar[j].0);
        } else {
            assert(jar[i].0 != name);
        }
    }
    lemma_as_map(jar);
    lemma_as_map(after);
    let m = as_map(after);
    let n = as_map(jar).insert(name, value);
    assert forall|k: Seq<char>| m.dom().contains(k) <==> n.dom().contains(k) by {
        if m.dom().contains(k) && k != name {
            let i = choose|i: int| 0 <= i < after.len() && (#[trigger] after[i]).0 == k;
            assert(jar[i] == after[i]);
            assert(as_map(jar).dom().contains(jar[i].0));
        }
        if n.dom().contains(k) {
            if k == name {
                assert(after[at].0 == name);
                assert(m.dom().contains(after[at].0));
            } else {
                let i = choose|i: int| 0 <= i < jar.len() && (#[trigger] jar[i]).0 == k;
                assert(after[i] == jar[i]);
                assert(m.dom().contains(after[i].0));
            }
        }
    }
    assert forall|k: Seq<char>| m.dom().contains(k) implies m[k] == n[k] by {
        let i = choose|i: int| 0 <= i < after.len() && (#[trigger] after[i]).0 == k;
        assert(m.dom().contains(after[i].0));
        if k == name {
            assert(after[at].0 == name);
            assert(m.dom().contains(after[at].0));
        } else {
            assert(jar[i] == after[i]);
            assert(as_map(jar).dom().contains(jar[i].0));
        }
    }
    assert(m =~= n);
}

/// Taking over any `Set-Cookie` headers leaves each name in the jar once.
pub proof fn law_names_stay_distinct(jar: Cookies, values: Seq<Vec<u8>>)
    requires
        distinct_names(jar),
    ensures
        distinct_names(absorbed_all(jar, values)),
    decreases values.len(),
{
    if values.len() > 0 {
        law_names_stay_distinct(jar, values.drop_last());
        let before = absorbed_all(jar, values.drop_last());
        if let Some((name, value)) = cookie_in(header_text(values.last()@)) {
            law_put_replaces_one_name(before, name, value);
        }
    }
}

proof fn lemma_joined_contains_each(parts: Seq<Seq<char>>, sep: Seq<char>, i: int)
    requires
        0 <= i < parts.len(),
    ensures
        text::contains_text(text::joined(parts, sep), parts[i]),
    decreases parts.len(),
{
    let whole = text::joined(parts, sep);
    if parts.len() == 1 {
        assert(whole.subrange(0, parts[0].len() as int) =~= parts[0]);
        assert(text::occurs_at(whole, parts[0], 0));
    } else if i == parts.len() - 1 {
        let at = whole.len() - parts[i].len();
        assert(whole.subrange(at, at + parts[i].len()) =~= parts[i]);
        assert(text::occurs_at(whole, parts[i], at));
    } else {
        let front = parts.drop_last();
        lemma_joined_contains_each(front, sep, i);
        let head = text::joined(front, sep);
        let at = choose|at: int| text::occurs_at(head, front[i], at);
        assert(whole.subrange(at, at + parts[i].len()) =~= head.subrange(at, at + parts[i].len()));
        assert(text::occurs_at(whole, parts[i], at));
    }
}

/// A cookie that was set is sent back: the next `Cookie` header names it with
/// its value.
pub proof fn law_cookie_is_sent_back(jar: Cookies, name: Seq<char>, value: Seq<char>)
    ensures
        text::contains_text(header_for(put(jar, name, value)), name + "="@ + value),
{
    lemma_position_of(jar, name, 0);
    let after = put(jar, name, value);
    let at = position_of(jar, name, 0);
    let pairs = after.map_values(|c: (Seq<char>, Seq<char>)| as_pair(c));
    assert(after[at] == (name, value));
    assert(pairs[at] == name + "="@ + value);
    lemma_joined_contains_each(pairs, "; "@, at);
}

proof fn lemma_first_sign(a: Seq<char>, c: char, b: Seq<char>)
    requires
        forall|i: int| 0 <= i < a.len() ==> #[trigger] a[i] != c,
        b.len() > 0 ==> b[0] == c,
    ensures
        text::index_from(a + b, c, 0) == a.len(),
{
    let whole = a + b;
    text::lemma_index_from(whole, c, 0);
    let at = text::index_from(whole, c, 0);
    if at < a.len() {
        assert(whole[at] == a[at]);
    }
    if at > a.len() {
        assert(whole[a.len() as int] == b[0]);
    }
}

/// A `Set-Cookie` text is parted at its first equals sign, up to its first
/// semicolon: the name stands before the sign, the value after it, both without
/// the white space around them; the attributes after the semicolon are left out.
pub proof fn law_cookie_is_parted_at_the_first_signs(
    name: Seq<char>,
    value: Seq<char>,
    attributes: Seq<char>,
)
    requires
        forall|i: int| 0 <= i < name.len() ==> #[trigger] name[i] != '=' && name[i] != ';',
        forall|i: int| 0 <= i < value.len() ==> #[trigger] value[i] != ';',
        attributes.len() > 0 ==> attributes[0] == ';',
    ensures
        cookie_in(name + seq!['='] + value + attributes) == Some(
            (text::trimmed(name), text::trimmed(value)),
        ),
{
    let pair = name + seq!['='] + value;
    let header = pair + attributes;
    assert forall|i: int| 0 <= i < pair.len() implies #[trigger] pair[i] != ';' by {
        if i < name.len() {
            assert(pair[i] == name[i]);
        } else if i > name.len() {
            assert(pair[i] == value[i - name.len() - 1]);
        }
    }
    lemma_first_sign(pair, ';', attributes);
    assert(header.take(pair.len() as int) =~= pair);
    let tail = seq!['='] + value;
    assert(pair =~= name + tail);
    lemma_first_sign(name, '=', tail);
    assert(pair.take(name.len() as int) =~= name);
    assert(pair.skip(name.len() as int + 1) =~= value);
}

/// A `Set-Cookie` text without an equals sign before its first semicolon sets no
/// cookie.
pub proof fn law_no_cookie_without_an_equals_sign(pair: Seq<char>, attributes: Seq<char>)
    requires
        forall|i: int| 0 <= i < pair.len() ==> #[trigger] pair[i] != '=' && pair[i] != ';',
        attributes.len() > 0 ==> attributes[0] == ';',
    ensures
        cookie_in(pair + attributes) is None,
{
    lemma_first_sign(pair, ';', attributes);
    assert((pair + attributes).take(pair.len() as int) =~= pair);
    lemma_first_sign(pair, '=', seq![]);
    assert(pair + Seq::<char>::empty() =~= pair);
}

/// A header of visible ASCII characters, spaces and tabs that sets a cookie puts
/// it into the jar; a header that sets none, or holds any other byte, leaves the
/// jar as it is.
pub proof fn law_readable_header_sets_its_cookie(
    jar: Cookies,
    bytes: Seq<u8>,
    header: Seq<char>,
    name: Seq<char>,
    value: Seq<char>,
)
    requires
        bytes.len() == header.len(),
        forall|i: int| 0 <= i < bytes.len() ==> #[trigger] header[i] == bytes[i] as char,
    ensures
        (exists|i: int|
            0 <= i < bytes.len() && !(32 <= #[trigger] bytes[i] <= 126) && bytes[i] != 9)
            ==> absorbed(jar, bytes) == jar,
        (forall|i: int| 0 <= i < bytes.len() ==> 32 <= #[trigger] bytes[i] <= 126 || bytes[i] == 9)
            && cookie_in(header) == Some((name, value)) ==> absorbed(jar, bytes) == put(
            jar,
            name,
            value,
        ),
        cookie_in(header) is None ==> absorbed(jar, bytes) == jar,
{
    assert(header_text(bytes) =~= header);
}

/// Headers are taken over one after the other, the later ones on top of what
/// the earlier ones left.
pub proof fn law_headers_are_taken_in_order(
    jar: Cookies,
    header: Vec<u8>,
    first: Seq<Vec<u8>>,
    second: Seq<Vec<u8>>,
)
    ensures
        absorbed_all(jar, seq![]) == jar,
        absorbed_all(jar, seq![header]) == absorbed(jar, header@),
        absorbed_all(jar, first + second) == absorbed_all(absorbed_all(jar, first), second),
    decreases second.len(),
{
    assert(seq![header].drop_last() =~= seq![]);
    assert(absorbed_all(jar, seq![header].drop_last()) == jar);
    if second.len() == 0 {
        assert(first + second =~= first);
    } else {
        law_headers_are_taken_in_order(jar, header, first, second.drop_last());
        assert((first + second).drop_last() =~= first + second.drop_last());
        assert((first + second).last() == second.last());
    }
}

/// The `Cookie` header names every cookie with its value, in order, with a
/// semicolon and a space between two.
pub proof fn law_cookie_header_lists_the_jar(
    cookie: (Seq<char>, Seq<char>),
    a: Cookies,
    b: Cookies,
)
    ensures
        header_for(seq![]) == Seq::<char>::empty(),
        header_for(seq![cookie]) == cookie.0 + seq!['='] + cookie.1,
        a.len() > 0 && b.len() > 0 ==> header_for(a + b) == header_for(a) + seq![';', ' ']
            + header_for(b),
{
    reveal_strlit("=");
    reveal_strlit("; ");
    assert("="@ =~= seq!['=']);
    assert("; "@ =~= seq![';', ' ']);
    let pairs = |jar: Cookies| jar.map_values(|c: (Seq<char>, Seq<char>)| as_pair(c));
    assert(pairs(seq![]) =~= seq![]);
    assert(pairs(seq![cookie]) =~= seq![as_pair(cookie)]);
    assert(pairs(a + b) =~= pairs(a) + pairs(b));
    text::law_joining_puts_the_separator_between(as_pair(cookie), pairs(a), pairs(b), "; "@);
}

} // verus!
