//! Small helpers on text and time.

use crate::{clock, text};
use vstd::prelude::*;
use vstd::string::*;
use vstd::utf8::*;

verus! {

/// The current time in milliseconds since the Unix epoch.
pub fn now_unix_millis() -> (r: i64)
    ensures
        exists|reading: Option<u128>|
            clock::clock_reads(reading) && r == clock::signed_millis(reading),
{
    clock::to_signed(clock::read_clock())
}

/// `String::truncate` keeps the first `new_len` bytes. It panics where a
/// shorter length would split a character, so such a length is left out.
pub assume_specification[ String::truncate ](s: &mut String, new_len: usize)
    requires
        new_len <= encode_utf8(old(s)@).len() ==> is_char_boundary(
            encode_utf8(old(s)@),
            new_len as int,
        ),
    ensures
        new_len <= encode_utf8(old(s)@).len() ==> encode_utf8(final(s)@) == encode_utf8(
            old(s)@,
        ).subrange(0, new_len as int),
        new_len > encode_utf8(old(s)@).len() ==> final(s)@ == old(s)@,
;

/// The first position at or after `from` that holds white space, or the length.
pub open spec fn word_end(text: Seq<char>, from: int) -> int
    decreases text.len() - from,
{
    if from >= text.len() {
        text.len() as int
    } else if text::white_space(text[from]) {
        from
    } else {
        word_end(text, from + 1)
    }
}

/// The longest runs of characters without white space, in order.
pub open spec fn words(text: Seq<char>) -> Seq<Seq<char>>
    decreases text.len(),
    via words_decreases
{
    if text.len() == 0 {
        seq![]
    } else if text::white_space(text[0]) {
        words(text.skip(1))
    } else {
        seq![text.take(word_end(text, 0))] + words(text.skip(word_end(text, 0)))
    }
}

#[via_fn]
proof fn words_decreases(text: Seq<char>) {
    if text.len() > 0 {
        lemma_word_end(text, 0);
    }
}

proof fn lemma_word_end(text: Seq<char>, from: int)
    requires
        0 <= from <= text.len(),
    ensures
        from <= word_end(text, from) <= text.len(),
        from < text.len() && !text::white_space(text[from]) ==> from < word_end(text, from),
        forall|j: int| from <= j < word_end(text, from) ==> !text::white_space(#[trigger] text[j]),
        word_end(text, from) < text.len() ==> text::white_space(text[word_end(text, from)]),
    decreases text.len() - from,
{
    if from < text.len() && !text::white_space(text[from]) {
        lemma_word_end(text, from + 1);
    }
}

/// The words of `text` with one space between neighbours.
pub open spec fn compacted(text: Seq<char>) -> Seq<char> {
    text::joined(words(text), " "@)
}

/// `text` with every run of white space made one space, and none at the ends.
pub fn compact_whitespace(text: &str) -> (r: String)
    ensures
        r@ == compacted(text@),
{
    let chars = text::chars_of(text);
    let mut parts: Vec<String> = Vec::new();
    let mut i: usize = 0;
    proof {
        assert(chars@.skip(0) =~= text@);
        assert(text::texts(parts@) + words(chars@.skip(0)) =~= words(text@));
    }
    while i < chars.len()
        invariant
            i <= chars@.len(),
            text::texts(parts@) + words(chars@.skip(i as int)) == words(text@),
        decreases chars@.len() - i,
    {
        let ghost rest = chars@.skip(i as int);
        if text::is_white_space(chars[i]) {
            proof {
                assert(rest.skip(1) =~= chars@.skip(i + 1));
            }
            i = i + 1;
        } else {
            let end = end_of_word(&chars, i);
            let ghost before = text::texts(parts@);
            let word = text::string_of(&chars, i, end);
            proof {
                lemma_word_end_skip(chars@, i as int, 0);
                lemma_word_end(rest, 0);
                assert(rest.take(end - i) =~= word@);
                assert(rest.skip(end - i) =~= chars@.skip(end as int));
            }
            parts.push(word);
            proof {
                assert(text::texts(parts@) =~= before.push(word@));
                assert(text::texts(parts@) + words(chars@.skip(end as int)) =~= before + words(
                    rest,
                ));
            }
            i = end;
        }
    }
    proof {
        assert(text::texts(parts@) + words(chars@.skip(i as int)) =~= text::texts(parts@));
    }
    text::join(&parts, " ")
}

proof fn lemma_word_end_skip(text: Seq<char>, i: int, from: int)
    requires
        0 <= i,
        0 <= from,
        i + from <= text.len(),
    ensures
        word_end(text, i + from) == i + word_end(text.skip(i), from),
    decreases text.len() - i - from,
{
    if i + from < text.len() && !text::white_space(text[i + from]) {
        lemma_word_end_skip(text, i, from + 1);
    }
}

/// The first position at or after `from` that holds white space, or the length.
fn end_of_word(chars: &Vec<char>, from: usize) -> (end: usize)
    requires
        from <= chars@.len(),
    ensures
        end == word_end(chars@, from as int),
        from <= end <= chars@.len(),
        from < chars@.len() && !text::white_space(chars@[from as int]) ==> from < end,
{
    let mut i: usize = from;
    while i < chars.len() && !text::is_white_space(chars[i])
        invariant
            from <= i <= chars@.len(),
            word_end(chars@, from as int) == word_end(chars@, i as int),
        decreases chars@.len() - i,
    {
        i = i + 1;
    }
    i
}

/// The first character boundary at or after the byte position `from`.
pub open spec fn next_boundary(bytes: Seq<u8>, from: int) -> int
    decreases bytes.len() - from,
{
    if from >= bytes.len() {
        bytes.len() as int
    } else if is_char_boundary(bytes, from) {
        from
    } else {
        next_boundary(bytes, from + 1)
    }
}

/// The bytes that a cut near `target` leaves of `bytes`: all of them if they
/// are few enough, else those before the first character boundary at or after
/// `target`.
pub open spec fn truncated_bytes(bytes: Seq<u8>, target: int) -> Seq<u8> {
    if bytes.len() <= target {
        bytes
    } else {
        bytes.subrange(0, next_boundary(bytes, target))
    }
}

/// The text that a cut near the byte position `target` leaves of `text`.
pub open spec fn truncated(text: Seq<char>, target: int) -> Seq<char> {
    decode_utf8(truncated_bytes(encode_utf8(text), target))
}

proof fn lemma_next_boundary(bytes: Seq<u8>, from: int)
    requires
        valid_utf8(bytes),
        0 <= from <= bytes.len(),
    ensures
        from <= next_boundary(bytes, from) <= bytes.len(),
        is_char_boundary(bytes, next_boundary(bytes, from)),
        forall|j: int| from <= j < next_boundary(bytes, from) ==> !is_char_boundary(bytes, j),
    decreases bytes.len() - from,
{
    if from >= bytes.len() {
        is_char_boundary_start_end_of_seq(bytes);
    } else if !is_char_boundary(bytes, from) {
        lemma_next_boundary(bytes, from + 1);
    }
}

/// Cuts `text` at the first character boundary at or after `target_bytes`, so
/// that no character is split. A text of at most `target_bytes` bytes stays as
/// it is.
pub fn truncate_on_char_boundary(text: &mut String, target_bytes: usize)
    ensures
        final(text)@ == truncated(old(text)@, target_bytes as int),
        encode_utf8(final(text)@) == truncated_bytes(
            encode_utf8(old(text)@),
            target_bytes as int,
        ),
{
    let ghost bytes = encode_utf8(text@);
    proof {
        encode_utf8_valid_utf8(text@);
        encode_utf8_decode_utf8(text@);
    }
    let len: usize = text.as_str().as_bytes().len();
    if len <= target_bytes {
        return ;
    }
    let mut boundary: usize = target_bytes;
    while boundary < len && !text.as_str().is_char_boundary(boundary)
        invariant
            bytes == encode_utf8(text@),
            text@ == old(text)@,
            len == bytes.len(),
            target_bytes <= boundary <= len,
            next_boundary(bytes, target_bytes as int) == next_boundary(bytes, boundary as int),
        decreases len - boundary,
    {
        boundary = boundary + 1;
    }
    proof {
        lemma_next_boundary(bytes, target_bytes as int);
    }
    text.truncate(boundary);
    proof {
        encode_utf8_decode_utf8(text@);
    }
}

/// A word: at least one character, none of them white space.
pub open spec fn is_word(w: Seq<char>) -> bool {
    &&& w.len() > 0
    &&& forall|i: int| 0 <= i < w.len() ==> !text::white_space(#[trigger] w[i])
}

proof fn lemma_words_are_words(text: Seq<char>)
    ensures
        forall|i: int| 0 <= i < words(text).len() ==> is_word(#[trigger] words(text)[i]),
    decreases text.len(),
{
    if text.len() == 0 {
        assert(words(text).len() == 0);
    } else if text::white_space(text[0]) {
        lemma_words_are_words(text.skip(1));
        assert(words(text) == words(text.skip(1)));
    } else {
        let n = word_end(text, 0);
        lemma_word_end(text, 0);
        lemma_words_are_words(text.skip(n));
        assert(is_word(text.take(n)));
        let tail = words(text.skip(n));
        assert forall|i: int| 0 <= i < words(text).len() implies is_word(
            #[trigger] words(text)[i],
        ) by {
            if i > 0 {
                assert(words(text)[i] == tail[i - 1]);
            }
        }
    }
}

/// White space between two texts parts their words.
proof fn lemma_words_split(a: Seq<char>, c: char, b: Seq<char>)
    requires
        text::white_space(c),
    ensures
        words(a + seq![c] + b) == words(a) + words(b),
    decreases a.len(),
{
    let whole = a + seq![c] + b;
    if a.len() == 0 {
        assert(whole.skip(1) =~= b);
        assert(words(a) + words(b) =~= words(b));
    } else if text::white_space(a[0]) {
        lemma_words_split(a.skip(1), c, b);
        assert(whole.skip(1) =~= a.skip(1) + seq![c] + b);
    } else {
        let n = word_end(a, 0);
        lemma_word_end(a, 0);
        lemma_word_end_in_front(a, c, b, 0);
        lemma_words_split(a.skip(n), c, b);
        assert(whole.take(n) =~= a.take(n));
        assert(whole.skip(n) =~= a.skip(n) + seq![c] + b);
        assert(words(whole) =~= words(a) + words(b));
    }
}

proof fn lemma_word_end_in_front(a: Seq<char>, c: char, b: Seq<char>, from: int)
    requires
        0 <= from <= a.len(),
        text::white_space(c),
    ensures
        word_end(a + seq![c] + b, from) == word_end(a, from),
    decreases a.len() - from,
{
    if from < a.len() && !text::white_space(a[from]) {
        lemma_word_end_in_front(a, c, b, from + 1);
    }
}

proof fn lemma_word_is_its_own_words(w: Seq<char>)
    requires
        is_word(w),
    ensures
        words(w) == seq![w],
{
    lemma_word_end(w, 0);
    assert(word_end(w, 0) == w.len());
    assert(w.take(w.len() as int) =~= w);
    let rest = w.skip(w.len() as int);
    assert(words(rest) =~= seq![]);
    assert(words(w) =~= seq![w] + words(rest));
}

proof fn lemma_words_of_joined(parts: Seq<Seq<char>>)
    requires
        forall|i: int| 0 <= i < parts.len() ==> is_word(#[trigger] parts[i]),
    ensures
        words(text::joined(parts, " "@)) == parts,
    decreases parts.len(),
{
    reveal_strlit(" ");
    if parts.len() == 0 {
        assert(parts =~= seq![]);
    } else if parts.len() == 1 {
        lemma_word_is_its_own_words(parts[0]);
        assert(parts =~= seq![parts[0]]);
    } else {
        let front = parts.drop_last();
        assert forall|i: int| 0 <= i < front.len() implies is_word(#[trigger] front[i]) by {
            assert(front[i] == parts[i]);
        }
        lemma_words_of_joined(front);
        lemma_word_is_its_own_words(parts.last());
        assert(" "@ =~= seq![' ']);
        lemma_words_split(text::joined(front, " "@), ' ', parts.last());
        assert(front + seq![parts.last()] =~= parts);
    }
}

/// Compacting changes no word and loses none: the compacted text has the same
/// words in the same order.
pub proof fn law_compacting_keeps_the_words(text: Seq<char>)
    ensures
        words(compacted(text)) == words(text),
{
    lemma_words_are_words(text);
    lemma_words_of_joined(words(text));
}

/// Compacting a second time changes nothing.
pub proof fn law_compacting_twice_is_compacting_once(text: Seq<char>)
    ensures
        compacted(compacted(text)) == compacted(text),
{
    law_compacting_keeps_the_words(text);
}

/// No white space at the ends, none but the plain space inside, and no two
/// white space characters side by side.
pub open spec fn tidy(text: Seq<char>) -> bool {
    &&& text.len() > 0 ==> !text::white_space(text[0]) && !text::white_space(text.last())
    &&& forall|i: int|
        0 <= i < text.len() && text::white_space(#[trigger] text[i]) ==> text[i] == ' '
    &&& forall|i: int, j: int|
        0 <= i < text.len() && j == i + 1 && j < text.len() && text::white_space(#[trigger] text[i])
            ==> !text::white_space(#[trigger] text[j])
}

proof fn lemma_joined_words_are_tidy(parts: Seq<Seq<char>>)
    requires
        forall|i: int| 0 <= i < parts.len() ==> is_word(#[trigger] parts[i]),
    ensures
        tidy(text::joined(parts, " "@)),
        parts.len() > 0 ==> text::joined(parts, " "@).len() > 0,
    decreases parts.len(),
{
    reveal_strlit(" ");
    if parts.len() == 0 {
    } else if parts.len() == 1 {
        assert(is_word(parts[0]));
    } else {
        let front = parts.drop_last();
        assert forall|i: int| 0 <= i < front.len() implies is_word(#[trigger] front[i]) by {
            assert(front[i] == parts[i]);
        }
        lemma_joined_words_are_tidy(front);
        assert(is_word(parts.last()));
        let a = text::joined(front, " "@);
        let whole = text::joined(parts, " "@);
        assert(" "@ =~= seq![' ']);
        assert(whole == a + " "@ + parts.last());
        assert forall|i: int|
            0 <= i < whole.len() && text::white_space(#[trigger] whole[i]) implies whole[i]
            == ' ' by {
            if i < a.len() {
                assert(whole[i] == a[i]);
            } else if i > a.len() {
                assert(whole[i] == parts.last()[i - a.len() - 1]);
            }
        }
        assert forall|i: int, j: int|
            0 <= i < whole.len() && j == i + 1 && j < whole.len() && text::white_space(
                #[trigger] whole[i],
            ) implies !text::white_space(#[trigger] whole[j]) by {
            if j < a.len() {
                assert(whole[i] == a[i] && whole[j] == a[j]);
            } else if j == a.len() {
                assert(whole[i] == a.last());
            } else {
                assert(whole[j] == parts.last()[j - a.len() - 1]);
            }
        }
        assert(whole[0] == a[0]);
        assert(whole.last() == parts.last().last());
    }
}

/// A compacted text is tidy: single spaces inside, nothing at the ends.
pub proof fn law_compacted_text_is_tidy(text: Seq<char>)
    ensures
        tidy(compacted(text)),
{
    lemma_words_are_words(text);
    lemma_joined_words_are_tidy(words(text));
}

/// A cut text is the beginning of the text it was cut from.
pub proof fn law_truncated_text_is_a_prefix(text: Seq<char>, target: int)
    requires
        0 <= target,
    ensures
        truncated(text, target).len() <= text.len(),
        truncated(text, target) == text.take(truncated(text, target).len() as int),
        encode_utf8(truncated(text, target)) == truncated_bytes(encode_utf8(text), target),
{
    let bytes = encode_utf8(text);
    encode_utf8_valid_utf8(text);
    encode_utf8_decode_utf8(text);
    if bytes.len() <= target {
        assert(text.take(text.len() as int) =~= text);
    } else {
        lemma_next_boundary(bytes, target);
        let cut = next_boundary(bytes, target);
        decode_utf8_split(bytes, cut);
        valid_utf8_split(bytes, cut);
        decode_utf8_encode_utf8(bytes.subrange(0, cut));
        assert(truncated(text, target) =~= text.take(truncated(text, target).len() as int));
    }
}

proof fn lemma_boundary_is_near(bytes: Seq<u8>, from: int)
    requires
        valid_utf8(bytes),
        0 <= from <= bytes.len(),
    ensures
        exists|j: int| from <= j <= from + 3 && j <= bytes.len() && is_char_boundary(bytes, j),
    decreases bytes.len(),
{
    if from == 0 {
        assert(is_char_boundary(bytes, 0));
    } else {
        let n = length_of_first_scalar(bytes);
        let rest = pop_first_scalar(bytes);
        if from <= n {
            assert(is_char_boundary(rest, 0));
            assert(is_char_boundary(bytes, n));
        } else {
            lemma_boundary_is_near(rest, from - n);
            let j = choose|j: int|
                from - n <= j <= from - n + 3 && j <= rest.len() && is_char_boundary(rest, j);
            assert(is_char_boundary(bytes, j + n));
        }
    }
}

/// A text that had to be cut keeps at least `target` bytes and less than four
/// more; one that did not is untouched.
pub proof fn law_truncated_text_is_close_to_the_target(text: Seq<char>, target: int)
    requires
        0 <= target,
    ensures
        encode_utf8(text).len() > target ==> target <= encode_utf8(truncated(text, target)).len()
            < target + 4,
        encode_utf8(text).len() <= target ==> truncated(text, target) == text,
{
    let bytes = encode_utf8(text);
    encode_utf8_valid_utf8(text);
    encode_utf8_decode_utf8(text);
    law_truncated_text_is_a_prefix(text, target);
    if bytes.len() > target {
        lemma_next_boundary(bytes, target);
        lemma_boundary_is_near(bytes, target);
    }
}

/// Cutting at a smaller target after a larger one is cutting at the smaller one.
pub proof fn law_smaller_target_decides(text: Seq<char>, larger: int, smaller: int)
    requires
        0 <= smaller <= larger,
    ensures
        truncated(truncated(text, larger), smaller) == truncated(text, smaller),
{
    let bytes = encode_utf8(text);
    encode_utf8_valid_utf8(text);
    encode_utf8_decode_utf8(text);
    law_truncated_text_is_a_prefix(text, larger);
    let kept = truncated(text, larger);
    let part = encode_utf8(kept);
    encode_utf8_valid_utf8(kept);
    if bytes.len() > larger {
        lemma_next_boundary(bytes, larger);
        lemma_next_boundary(bytes, smaller);
        let whole_cut = next_boundary(bytes, smaller);
        if part.len() > smaller {
            lemma_next_boundary(part, smaller);
            let part_cut = next_boundary(part, smaller);
            let first = if whole_cut < part_cut {
                whole_cut
            } else {
                part_cut
            };
            if first < part.len() {
                is_char_boundary_iff_not_is_continuation_byte(part, first);
                is_char_boundary_iff_not_is_continuation_byte(bytes, first);
                assert(part[first] == bytes[first]);
            }
            assert(whole_cut == part_cut);
            assert(part.subrange(0, part_cut) =~= bytes.subrange(0, whole_cut));
        }
    }
}

/// Cutting a second time at the same place changes nothing.
pub proof fn law_truncating_twice_is_truncating_once(text: Seq<char>, target: int)
    requires
        0 <= target,
    ensures
        truncated(truncated(text, target), target) == truncated(text, target),
{
    law_smaller_target_decides(text, target, target);
}

/// A text without white space stays as it is.
pub proof fn law_text_without_white_space_is_kept(text: Seq<char>)
    requires
        forall|i: int| 0 <= i < text.len() ==> !text::white_space(#[trigger] text[i]),
    ensures
        compacted(text) == text,
{
    if text.len() == 0 {
        assert(compacted(text) =~= text);
    } else {
        lemma_word_is_its_own_words(text);
        text::law_joining_puts_the_separator_between(text, seq![], seq![], " "@);
    }
}

/// White space parts a text: what stands before and after it is compacted by
/// itself, and one space is put between the two unless one of them is empty.
pub proof fn law_white_space_becomes_one_space(a: Seq<char>, c: char, b: Seq<char>)
    requires
        text::white_space(c),
    ensures
        compacted(a + seq![c] + b) == if compacted(a).len() == 0 {
            compacted(b)
        } else if compacted(b).len() == 0 {
            compacted(a)
        } else {
            compacted(a) + seq![' '] + compacted(b)
        },
{
    reveal_strlit(" ");
    assert(" "@ =~= seq![' ']);
    lemma_words_split(a, c, b);
    lemma_words_are_words(a);
    lemma_words_are_words(b);
    lemma_joined_words_are_tidy(words(a));
    lemma_joined_words_are_tidy(words(b));
    text::law_joining_puts_the_separator_between(a, words(a), words(b), " "@);
    if words(a).len() == 0 {
        assert(words(a) + words(b) =~= words(b));
        assert(compacted(a).len() == 0);
    } else if words(b).len() == 0 {
        assert(words(a) + words(b) =~= words(a));
        assert(compacted(b).len() == 0);
    }
}

proof fn lemma_encoding_of_a_prefix(text: Seq<char>, j: int)
    requires
        0 <= j <= text.len(),
    ensures
        encode_utf8(text.take(j)).len() <= encode_utf8(text).len(),
        j < text.len() ==> encode_utf8(text.take(j)).len() < encode_utf8(text).len(),
        is_char_boundary(encode_utf8(text), encode_utf8(text.take(j)).len() as int),
    decreases text.len(),
{
    let bytes = encode_utf8(text);
    encode_utf8_valid_utf8(text);
    if j == 0 {
        assert(encode_utf8(text.take(0)).len() == 0);
        if text.len() > 0 {
            assert(encode_scalar(text[0] as u32).len() > 0);
        }
    } else {
        let rest = text.drop_first();
        let head = encode_scalar(text[0] as u32);
        encode_utf8_first_scalar(text);
        assert(pop_first_scalar(bytes) =~= encode_utf8(rest));
        assert(text.take(j).drop_first() =~= rest.take(j - 1));
        lemma_encoding_of_a_prefix(rest, j - 1);
        assert(encode_utf8(text.take(j)).len() == head.len() + encode_utf8(
            rest.take(j - 1),
        ).len());
    }
}

/// A text that has to be cut keeps the fewest characters that fill `target`
/// bytes: the characters kept fill them, and no fewer do.
pub proof fn law_truncation_keeps_the_fewest_characters(text: Seq<char>, target: int)
    requires
        0 <= target < encode_utf8(text).len(),
    ensures
        truncated(text, target).len() <= text.len(),
        truncated(text, target) == text.take(truncated(text, target).len() as int),
        encode_utf8(truncated(text, target)).len() >= target,
        forall|j: int|
            0 <= j < truncated(text, target).len() ==> encode_utf8(#[trigger] text.take(j)).len()
                < target,
{
    let bytes = encode_utf8(text);
    encode_utf8_valid_utf8(text);
    law_truncated_text_is_a_prefix(text, target);
    lemma_next_boundary(bytes, target);
    let kept = truncated(text, target);
    assert forall|j: int| 0 <= j < kept.len() implies encode_utf8(#[trigger] text.take(j)).len()
        < target by {
        lemma_encoding_of_a_prefix(text, j);
        lemma_encoding_of_a_prefix(kept, j);
        assert(kept.take(j) =~= text.take(j));
    }
}

} // verus!
