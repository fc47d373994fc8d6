//! Text primitives: equality, whitespace, words, numbers and file names.

use vstd::prelude::*;
use vstd::utf8::*;

verus! {

broadcast use vstd::string::group_string_axioms;

/// Appends a character to a string (`String::push`): the text grows by that character at the end.
pub assume_specification[ String::push ](text: &mut String, c: char)
    ensures
        final(text)@ == old(text)@.push(c),
;

/// The number of bytes of a text in UTF-8.
pub open spec fn utf8_len(text: Seq<char>) -> nat {
    encode_utf8(text).len()
}

/// The bytes of two texts put together are their bytes put together.
pub proof fn lemma_utf8_concat(a: Seq<char>, b: Seq<char>)
    ensures
        encode_utf8(a + b) == encode_utf8(a) + encode_utf8(b),
        utf8_len(a + b) == utf8_len(a) + utf8_len(b),
    decreases a.len(),
{
    if a.len() == 0 {
        assert(a + b =~= b);
    } else {
        assert((a + b).drop_first() =~= a.drop_first() + b);
        lemma_utf8_concat(a.drop_first(), b);
    }
}

/// Two texts with the same UTF-8 bytes are the same text.
proof fn lemma_utf8_injective(a: Seq<char>, b: Seq<char>)
    requires
        encode_utf8(a) == encode_utf8(b),
    ensures
        a == b,
{
    encode_utf8_decode_utf8(a);
    encode_utf8_decode_utf8(b);
}

/// The number of bytes of `text` in UTF-8.
pub fn byte_len(text: &str) -> (n: usize)
    ensures
        n == utf8_len(text@),
{
    text.as_bytes().len()
}

/// Whether two texts are equal, character by character.
pub fn same_text(a: &str, b: &str) -> (same: bool)
    ensures
        same == (a@ == b@),
{
    let left = a.as_bytes();
    let right = b.as_bytes();
    if left.len() != right.len() {
        return false;
    }
    let n: usize = left.len();
    let mut i: usize = 0;
    while i < n
        invariant
            i <= n,
            n == left@.len(),
            n == right@.len(),
            left@ == encode_utf8(a@),
            right@ == encode_utf8(b@),
            left@.subrange(0, i as int) == right@.subrange(0, i as int),
        decreases n - i,
    {
        if left[i] != right[i] {
            proof {
                if a@ == b@ {
                    assert(left@[i as int] == right@[i as int]);
                }
            }
            return false;
        }
        assert(left@.subrange(0, i + 1) =~= left@.subrange(0, i as int).push(left@[i as int]));
        assert(right@.subrange(0, i + 1) =~= right@.subrange(0, i as int).push(right@[i as int]));
        i = i + 1;
    }
    proof {
        assert(left@.subrange(0, n as int) =~= left@);
        assert(right@.subrange(0, n as int) =~= right@);
        lemma_utf8_injective(a@, b@);
    }
    true
}

/// The characters of a text as a vector.
pub fn chars_of(text: &str) -> (chars: Vec<char>)
    ensures
        chars@ == text@,
{
    let mut chars: Vec<char> = Vec::new();
    for c in it: text.chars()
        invariant
            chars@ == it.seq().take(it.index() as int),
            it.seq() == text@,
    {
        chars.push(c);
        assert(it.seq().take(it.index() + 1) =~= it.seq().take(it.index() as int).push(c));
    }
    assert(text@.take(text@.len() as int) =~= text@);
    chars
}

/// Whether a character is white space in Unicode (the property `White_Space`).
pub open spec fn is_space(c: char) -> bool {
    ||| '\u{9}' <= c <= '\u{d}'
    ||| c == ' '
    ||| c == '\u{85}'
    ||| c == '\u{a0}'
    ||| c == '\u{1680}'
    ||| '\u{2000}' <= c <= '\u{200a}'
    ||| c == '\u{2028}'
    ||| c == '\u{2029}'
    ||| c == '\u{202f}'
    ||| c == '\u{205f}'
    ||| c == '\u{3000}'
}

/// Whether `c` is white space.
pub fn is_whitespace(c: char) -> (space: bool)
    ensures
        space == is_space(c),
{
    ('\u{9}' <= c && c <= '\u{d}') || c == ' ' || c == '\u{85}' || c == '\u{a0}' || c == '\u{1680}'
        || ('\u{2000}' <= c && c <= '\u{200a}') || c == '\u{2028}' || c == '\u{2029}'
        || c == '\u{202f}' || c == '\u{205f}' || c == '\u{3000}'
}

/// A text without the white space at its start.
pub open spec fn trimmed_start(s: Seq<char>) -> Seq<char>
    decreases s.len(),
{
    if s.len() > 0 && is_space(s[0]) {
        trimmed_start(s.drop_first())
    } else {
        s
    }
}

/// A text without the white space at its end.
pub open spec fn trimmed_end(s: Seq<char>) -> Seq<char>
    decreases s.len(),
{
    if s.len() > 0 && is_space(s.last()) {
        trimmed_end(s.drop_last())
    } else {
        s
    }
}

/// A text without the white space around it.
pub open spec fn trimmed(s: Seq<char>) -> Seq<char> {
    trimmed_end(trimmed_start(s))
}

/// Where the white space at the start ends, the trimmed text starts.
proof fn lemma_trimmed_start(s: Seq<char>, n: int)
    requires
        0 <= n <= s.len(),
        forall|i: int| 0 <= i < n ==> is_space(#[trigger] s[i]),
        n < s.len() ==> !is_space(s[n]),
    ensures
        trimmed_start(s) == s.skip(n),
    decreases n,
{
    if n > 0 {
        let rest = s.drop_first();
        assert forall|i: int| 0 <= i < n - 1 implies is_space(#[trigger] rest[i]) by {
            assert(rest[i] == s[i + 1]);
        }
        lemma_trimmed_start(rest, n - 1);
        assert(rest.skip(n - 1) =~= s.skip(n));
    } else {
        assert(s.skip(0) =~= s);
    }
}

/// Where the white space at the end starts, the trimmed text ends.
proof fn lemma_trimmed_end(s: Seq<char>, n: int)
    requires
        0 <= n <= s.len(),
        forall|i: int| n <= i < s.len() ==> is_space(#[trigger] s[i]),
        n > 0 ==> !is_space(s[n - 1]),
    ensures
        trimmed_end(s) == s.take(n),
    decreases s.len() - n,
{
    if n < s.len() {
        let rest = s.drop_last();
        assert forall|i: int| n <= i < rest.len() implies is_space(#[trigger] rest[i]) by {
            assert(rest[i] == s[i]);
        }
        lemma_trimmed_end(rest, n);
        assert(rest.take(n) =~= s.take(n));
    } else {
        assert(s.take(n) =~= s);
    }
}

/// Trimming a text that has no white space around it changes nothing.
pub proof fn trimmed_is_idempotent(s: Seq<char>)
    ensures
        trimmed(trimmed(s)) == trimmed(s),
{
    lemma_start_keeps_no_space(s);
    lemma_end_keeps_start(trimmed_start(s));
    lemma_end_keeps_no_space(trimmed_start(s));
}

/// Trimming makes no text longer.
pub proof fn trimming_makes_no_text_longer(s: Seq<char>)
    ensures
        utf8_len(trimmed(s)) <= utf8_len(s),
{
    lemma_trimmed_start_len(s);
    lemma_trimmed_end_len(trimmed_start(s));
}

proof fn lemma_trimmed_start_len(s: Seq<char>)
    ensures
        utf8_len(trimmed_start(s)) <= utf8_len(s),
    decreases s.len(),
{
    if s.len() > 0 && is_space(s[0]) {
        lemma_trimmed_start_len(s.drop_first());
        assert(s =~= seq![s[0]] + s.drop_first());
        lemma_utf8_concat(seq![s[0]], s.drop_first());
    }
}

proof fn lemma_trimmed_end_len(s: Seq<char>)
    ensures
        utf8_len(trimmed_end(s)) <= utf8_len(s),
    decreases s.len(),
{
    if s.len() > 0 && is_space(s.last()) {
        lemma_trimmed_end_len(s.drop_last());
        assert(s =~= s.drop_last() + seq![s.last()]);
        lemma_utf8_concat(s.drop_last(), seq![s.last()]);
    }
}

proof fn lemma_start_keeps_no_space(s: Seq<char>)
    ensures
        trimmed_start(s).len() > 0 ==> !is_space(trimmed_start(s)[0]),
    decreases s.len(),
{
    if s.len() > 0 && is_space(s[0]) {
        lemma_start_keeps_no_space(s.drop_first());
    }
}

proof fn lemma_end_keeps_no_space(s: Seq<char>)
    ensures
        trimmed_end(s).len() > 0 ==> !is_space(trimmed_end(s).last()),
    decreases s.len(),
{
    if s.len() > 0 && is_space(s.last()) {
        lemma_end_keeps_no_space(s.drop_last());
    }
}

proof fn lemma_end_keeps_start(s: Seq<char>)
    ensures
        trimmed_end(s).len() <= s.len(),
        trimmed_end(s).len() > 0 ==> trimmed_end(s)[0] == s[0],
    decreases s.len(),
{
    if s.len() > 0 && is_space(s.last()) {
        lemma_end_keeps_start(s.drop_last());
    }
}

/// The text without the white space around it.
pub fn trim(text: &str) -> (inner: &str)
    ensures
        inner@ == trimmed(text@),
{
    let chars = chars_of(text);
    let n: usize = chars.len();
    let mut start: usize = 0;
    while start < n && is_whitespace(chars[start])
        invariant
            start <= n,
            n == chars@.len(),
            chars@ == text@,
            forall|i: int| 0 <= i < start ==> is_space(#[trigger] chars@[i]),
        decreases n - start,
    {
        start = start + 1;
    }
    proof {
        lemma_trimmed_start(text@, start as int);
    }
    let mut end: usize = n;
    while end > start && is_whitespace(chars[end - 1])
        invariant
            start <= end <= n,
            n == chars@.len(),
            chars@ == text@,
            forall|i: int| end <= i < n ==> is_space(#[trigger] chars@[i]),
        decreases end,
    {
        end = end - 1;
    }
    proof {
        let rest = text@.skip(start as int);
        assert forall|i: int| end - start <= i < rest.len() implies is_space(#[trigger] rest[i]) by {
            assert(rest[i] == chars@[i + start]);
        }
        if end > start {
            assert(rest[end - start - 1] == chars@[end - 1]);
        }
        lemma_trimmed_end(rest, end - start);
        assert(rest.take(end - start) =~= text@.subrange(start as int, end as int));
    }
    text.substring_char(start, end)
}

/// The number of characters before the first white space.
pub open spec fn word_len(s: Seq<char>) -> nat
    decreases s.len(),
{
    if s.len() == 0 || is_space(s[0]) {
        0
    } else {
        1 + word_len(s.drop_first())
    }
}

proof fn lemma_word_len(s: Seq<char>, n: int)
    requires
        0 <= n <= s.len(),
        forall|i: int| 0 <= i < n ==> !is_space(#[trigger] s[i]),
        n < s.len() ==> is_space(s[n]),
    ensures
        word_len(s) == n,
    decreases n,
{
    if n > 0 {
        let rest = s.drop_first();
        assert forall|i: int| 0 <= i < n - 1 implies !is_space(#[trigger] rest[i]) by {
            assert(rest[i] == s[i + 1]);
        }
        lemma_word_len(rest, n - 1);
    }
}

/// A word ends within its text.
pub proof fn lemma_word_len_bound(s: Seq<char>)
    ensures
        word_len(s) <= s.len(),
    decreases s.len(),
{
    if s.len() > 0 && !is_space(s[0]) {
        lemma_word_len_bound(s.drop_first());
    }
}

/// The text up to its first white space, and the rest of it.
pub fn split_first_word(text: &str) -> (parts: (&str, &str))
    ensures
        parts.0@ == text@.take(word_len(text@) as int),
        parts.1@ == text@.skip(word_len(text@) as int),
{
    let chars = chars_of(text);
    let n: usize = chars.len();
    let mut i: usize = 0;
    while i < n && !is_whitespace(chars[i])
        invariant
            i <= n,
            n == chars@.len(),
            chars@ == text@,
            forall|k: int| 0 <= k < i ==> !is_space(#[trigger] chars@[k]),
        decreases n - i,
    {
        i = i + 1;
    }
    proof {
        lemma_word_len(text@, i as int);
        assert(text@.subrange(0, i as int) =~= text@.take(i as int));
        assert(text@.subrange(i as int, n as int) =~= text@.skip(i as int));
    }
    (text.substring_char(0, i), text.substring_char(i, n))
}

proof fn lemma_trimmed_start_bound(s: Seq<char>)
    ensures
        trimmed_start(s).len() <= s.len(),
        trimmed_start(s).len() > 0 ==> word_len(trimmed_start(s)) > 0,
    decreases s.len(),
{
    if s.len() > 0 && is_space(s[0]) {
        lemma_trimmed_start_bound(s.drop_first());
    }
}

/// The words of a text: its longest pieces without white space, in order.
pub open spec fn words(s: Seq<char>) -> Seq<Seq<char>>
    decreases s.len(),
    via words_decreases
{
    let t = trimmed_start(s);
    if t.len() == 0 {
        seq![]
    } else {
        seq![t.take(word_len(t) as int)] + words(t.skip(word_len(t) as int))
    }
}

#[via_fn]
proof fn words_decreases(s: Seq<char>) {
    lemma_trimmed_start_bound(s);
    lemma_word_len_bound(trimmed_start(s));
}

/// The texts of strings.
pub open spec fn texts(strings: Seq<String>) -> Seq<Seq<char>> {
    strings.map_values(|s: String| s@)
}

/// The string made of the characters from `start` to `end`.
fn string_of_range(chars: &Vec<char>, start: usize, end: usize) -> (text: String)
    requires
        start <= end <= chars@.len(),
    ensures
        text@ == chars@.subrange(start as int, end as int),
{
    let mut text = String::new();
    let mut i: usize = start;
    while i < end
        invariant
            start <= i <= end <= chars@.len(),
            text@ == chars@.subrange(start as int, i as int),
        decreases end - i,
    {
        text.push(chars[i]);
        assert(chars@.subrange(start as int, i + 1) =~= chars@.subrange(start as int, i as int).push(
            chars@[i as int],
        ));
        i = i + 1;
    }
    text
}

/// The words of `text`, in order.
pub fn split_words(text: &str) -> (found: Vec<String>)
    ensures
        texts(found@) == words(text@),
{
    let chars = chars_of(text);
    let n: usize = chars.len();
    let mut found: Vec<String> = Vec::new();
    let mut at: usize = 0;
    assert(text@.skip(0) =~= text@);
    assert(texts(found@) =~= seq![]);
    while at < n
        invariant
            at <= n,
            n == chars@.len(),
            chars@ == text@,
            texts(found@) + words(text@.skip(at as int)) == words(text@),
        decreases n - at,
    {
        let ghost rest = text@.skip(at as int);
        let mut start: usize = at;
        while start < n && is_whitespace(chars[start])
            invariant
                at <= start <= n,
                n == chars@.len(),
                chars@ == text@,
                rest == text@.skip(at as int),
                forall|i: int| 0 <= i < start - at ==> is_space(#[trigger] rest[i]),
            decreases n - start,
        {
            start = start + 1;
        }
        let mut end: usize = start;
        proof {
            if start < n {
                assert(rest[start - at] == chars@[start as int]);
            }
            lemma_trimmed_start(rest, start - at);
        }
        let ghost t = trimmed_start(rest);
        assert(t =~= text@.skip(start as int));
        while end < n && !is_whitespace(chars[end])
            invariant
                start <= end <= n,
                n == chars@.len(),
                chars@ == text@,
                t == text@.skip(start as int),
                forall|i: int| 0 <= i < end - start ==> !is_space(#[trigger] t[i]),
            decreases n - end,
        {
            assert(t[end - start] == chars@[end as int]);
            end = end + 1;
        }
        proof {
            if end < n {
                assert(t[end - start] == chars@[end as int]);
            }
            lemma_word_len(t, end - start);
            assert(t.take(end - start) =~= chars@.subrange(start as int, end as int));
            assert(t.skip(end - start) =~= text@.skip(end as int));
        }
        if start < n {
            let ghost before = texts(found@);
            let word = string_of_range(&chars, start, end);
            found.push(word);
            proof {
                lemma_word_len_bound(t);
                assert(texts(found@) =~= before + seq![word@]);
                assert(words(rest) == seq![word@] + words(text@.skip(end as int)));
                assert(texts(found@) + words(text@.skip(end as int)) =~= before + words(rest));
                assert(!is_space(t[0]));
            }
        } else {
            proof {
                assert(end == n);
                assert(words(rest) =~= seq![]);
                assert(t.len() == 0);
                assert(words(text@.skip(n as int)) =~= seq![]);
            }
        }
        at = end;
    }
    proof {
        assert(words(text@.skip(n as int)) =~= seq![]);
        assert(texts(found@) =~= words(text@));
    }
    found
}

/// Words put together with a separator between them.
pub open spec fn joined(parts: Seq<Seq<char>>, separator: Seq<char>) -> Seq<char>
    decreases parts.len(),
{
    if parts.len() == 0 {
        seq![]
    } else if parts.len() == 1 {
        parts[0]
    } else {
        joined(parts.drop_last(), separator) + separator + parts.last()
    }
}

/// The parts put together with `separator` between them.
pub fn join(parts: &Vec<String>, separator: &str) -> (text: String)
    ensures
        text@ == joined(texts(parts@), separator@),
{
    let n: usize = parts.len();
    let mut text = String::new();
    let mut i: usize = 0;
    let ghost all = texts(parts@);
    assert(all.take(0) =~= seq![]);
    while i < n
        invariant
            i <= n,
            n == parts@.len(),
            all == texts(parts@),
            text@ == joined(all.take(i as int), separator@),
        decreases n - i,
    {
        if i > 0 {
            text.append(separator);
        }
        text.append(parts[i].as_str());
        proof {
            let longer = all.take(i + 1);
            assert(longer.drop_last() =~= all.take(i as int));
            assert(longer.last() == parts@[i as int]@);
            if i == 0 {
                assert(text@ =~= longer[0]);
            }
        }
        i = i + 1;
    }
    assert(all.take(n as int) =~= all);
    text
}

/// A character with ASCII capitals turned into small letters.
pub open spec fn lower_char(c: char) -> char {
    if 'A' <= c <= 'Z' {
        ((c as u8) + 32) as u8 as char
    } else {
        c
    }
}

/// A text with ASCII capitals turned into small letters.
pub open spec fn lowered(s: Seq<char>) -> Seq<char> {
    s.map_values(|c: char| lower_char(c))
}

/// The text with ASCII capitals turned into small letters.
pub fn to_lower(text: &str) -> (low: String)
    ensures
        low@ == lowered(text@),
{
    let chars = chars_of(text);
    let n: usize = chars.len();
    let mut low = String::new();
    let mut i: usize = 0;
    while i < n
        invariant
            i <= n,
            n == chars@.len(),
            chars@ == text@,
            low@ == lowered(text@).take(i as int),
        decreases n - i,
    {
        let c = chars[i];
        if 'A' <= c && c <= 'Z' {
            let small: u8 = (c as u8) + 32;
            low.push(small as char);
        } else {
            low.push(c);
        }
        assert(lowered(text@).take(i + 1) =~= lowered(text@).take(i as int).push(
            lower_char(text@[i as int]),
        ));
        i = i + 1;
    }
    assert(lowered(text@).take(n as int) =~= lowered(text@));
    low
}

/// Whether `text` starts with `prefix`.
pub fn starts_with(text: &str, prefix: &str) -> (starts: bool)
    ensures
        starts == prefix@.is_prefix_of(text@),
{
    let n: usize = prefix.unicode_len();
    if text.unicode_len() < n {
        return false;
    }
    same_text(text.substring_char(0, n), prefix)
}

/// How a platform writes paths.
#[derive(Debug, Clone, Copy, PartialEq, Eq, Structural)]
pub enum PathStyle {
    Unix,
    Windows,
}

/// Which characters separate the components of a path.
#[derive(Debug, Clone, Copy, PartialEq, Eq, Structural)]
pub enum Separators {
    Slash,
    Either,
    Backslash,
}

/// Whether a character separates the components of a path.
pub open spec fn is_separator(separators: Separators, c: char) -> bool {
    ||| c == '/' && separators != Separators::Backslash
    ||| c == '\\' && separators != Separators::Slash
}

/// Whether `c` separates the components of a path.
fn separates(separators: Separators, c: char) -> (separator: bool)
    ensures
        separator == is_separator(separators, c),
{
    (c == '/' && separators != Separators::Backslash) || (c == '\\' && separators
        != Separators::Slash)
}

/// The number of characters before the first separator.
pub open spec fn component_len(separators: Separators, path: Seq<char>) -> nat
    decreases path.len(),
{
    if path.len() == 0 || is_separator(separators, path[0]) {
        0
    } else {
        1 + component_len(separators, path.drop_first())
    }
}

proof fn lemma_component_len(separators: Separators, path: Seq<char>, n: int)
    requires
        0 <= n <= path.len(),
        forall|i: int| 0 <= i < n ==> !is_separator(separators, #[trigger] path[i]),
        n < path.len() ==> is_separator(separators, path[n]),
    ensures
        component_len(separators, path) == n,
    decreases n,
{
    if n > 0 {
        let rest = path.drop_first();
        assert forall|i: int| 0 <= i < n - 1 implies !is_separator(
            separators,
            #[trigger] rest[i],
        ) by {
            assert(rest[i] == path[i + 1]);
        }
        lemma_component_len(separators, rest, n - 1);
    }
}

/// The number of characters from `from` to the next separator.
fn component_len_at(chars: &Vec<char>, from: usize, separators: Separators) -> (n: usize)
    requires
        from <= chars@.len(),
    ensures
        n == component_len(separators, chars@.skip(from as int)),
        from + n <= chars@.len(),
{
    let ghost rest = chars@.skip(from as int);
    let mut at: usize = from;
    while at < chars.len() && !separates(separators, chars[at])
        invariant
            from <= at <= chars@.len(),
            forall|i: int| from <= i < at ==> !is_separator(separators, #[trigger] chars@[i]),
        decreases chars@.len() - at,
    {
        at = at + 1;
    }
    proof {
        assert forall|i: int| 0 <= i < at - from implies !is_separator(
            separators,
            #[trigger] rest[i],
        ) by {
            assert(rest[i] == chars@[i + from]);
        }
        lemma_component_len(separators, rest, at - from);
    }
    at - from
}

/// What is left of a path after its first component and the separator behind that.
pub open spec fn after_component(separators: Separators, path: Seq<char>) -> Seq<char> {
    let n = component_len(separators, path);
    if n < path.len() {
        path.skip(n as int + 1)
    } else {
        seq![]
    }
}

/// Whether a path starts with the letter of a drive.
pub open spec fn has_drive(path: Seq<char>) -> bool {
    &&& path.len() >= 2
    &&& path[1] == ':'
    &&& ('a' <= path[0] <= 'z' || 'A' <= path[0] <= 'Z')
}

/// Whether a path has either separator at a place.
pub open spec fn slash_at(path: Seq<char>, i: int) -> bool {
    i < path.len() && is_separator(Separators::Either, path[i])
}

/// Whether a path starts with `\\?\`, which turns the usual reading of the rest off.
pub open spec fn is_verbatim(path: Seq<char>) -> bool {
    path.len() >= 4 && path[0] == '\\' && path[1] == '\\' && path[2] == '?' && path[3] == '\\'
}

/// The length of a server and its share. A share that is empty does not count.
pub open spec fn share_len(separators: Separators, path: Seq<char>) -> nat {
    let server = component_len(separators, path);
    let share = component_len(separators, after_component(separators, path));
    if share > 0 {
        server + 1 + share
    } else {
        server
    }
}

/// The length of the prefix of a Windows path: a drive, a share of the network, a device, or any of
/// these in verbatim form.
pub open spec fn prefix_len(path: Seq<char>) -> nat {
    if is_verbatim(path) {
        let rest = path.skip(4);
        if rest.len() >= 4 && rest[0] == 'U' && rest[1] == 'N' && rest[2] == 'C' && slash_at(
            rest,
            3,
        ) {
            8 + share_len(Separators::Backslash, rest.skip(4))
        } else if has_drive(rest) && (rest.len() == 2 || slash_at(rest, 2)) {
            6
        } else {
            4 + component_len(Separators::Backslash, rest)
        }
    } else if slash_at(path, 0) && slash_at(path, 1) {
        if path.len() >= 4 && path[2] == '.' && slash_at(path, 3) {
            4 + component_len(Separators::Either, path.skip(4))
        } else {
            let rest = path.skip(2);
            let server = component_len(Separators::Either, rest);
            let share = component_len(
                Separators::Either,
                after_component(Separators::Either, rest),
            );
            if server > 0 && share > 0 {
                2 + server + 1 + share
            } else {
                0
            }
        }
    } else if has_drive(path) {
        2
    } else {
        0
    }
}

/// What follows the last separator of a path.
pub open spec fn last_component(separators: Separators, path: Seq<char>) -> Seq<char>
    decreases path.len(),
{
    if path.len() == 0 || is_separator(separators, path.last()) {
        seq![]
    } else {
        last_component(separators, path.drop_last()).push(path.last())
    }
}

/// The name that the last component of a path gives.
///
/// A final separator does not count, nor does a final component `.`, which only a verbatim path keeps.
/// There is no name when nothing is left, or when the last component is `..` or a kept `.`.
pub open spec fn component_name(separators: Separators, path: Seq<char>) -> Option<Seq<char>>
    decreases path.len(),
{
    let name = last_component(separators, path);
    if path.len() == 0 {
        None
    } else if name.len() == 0 {
        component_name(separators, path.drop_last())
    } else if name == seq!['.'] && separators != Separators::Backslash {
        component_name(separators, path.take(path.len() - 1))
    } else if name == seq!['.'] || name == seq!['.', '.'] {
        None
    } else {
        Some(name)
    }
}

/// What follows the prefix and the root of a Windows path.
pub open spec fn path_body(path: Seq<char>) -> Seq<char> {
    let rest = path.skip(prefix_len(path) as int);
    if slash_at(rest, 0) {
        rest.skip(1)
    } else {
        rest
    }
}

/// The name of the file that a path leads to. The prefix of a Windows path is no part of it.
pub open spec fn path_file_name(style: PathStyle, path: Seq<char>) -> Option<Seq<char>> {
    match style {
        PathStyle::Unix => component_name(Separators::Slash, path),
        PathStyle::Windows => component_name(
            if is_verbatim(path) {
                Separators::Backslash
            } else {
                Separators::Either
            },
            path_body(path),
        ),
    }
}

/// Whether the path has either separator at `i`.
fn is_slash_at(chars: &Vec<char>, i: usize) -> (slash: bool)
    ensures
        slash == slash_at(chars@, i as int),
{
    i < chars.len() && separates(Separators::Either, chars[i])
}

/// Whether the path has the letter of a drive at `from`.
fn has_drive_at(chars: &Vec<char>, from: usize) -> (drive: bool)
    requires
        from <= chars@.len(),
    ensures
        drive == has_drive(chars@.skip(from as int)),
{
    if chars.len() - from < 2 {
        return false;
    }
    let letter: char = chars[from];
    chars[from + 1] == ':' && (('a' <= letter && letter <= 'z') || ('A' <= letter && letter
        <= 'Z'))
}

/// The lengths of a server and its share from `from` on.
fn share_at(chars: &Vec<char>, from: usize, separators: Separators) -> (lens: (usize, usize))
    requires
        from <= chars@.len(),
    ensures
        lens.0 == component_len(separators, chars@.skip(from as int)),
        lens.1 == component_len(
            separators,
            after_component(separators, chars@.skip(from as int)),
        ),
        from + lens.0 <= chars@.len(),
        lens.1 > 0 ==> from + lens.0 + 1 + lens.1 <= chars@.len(),
{
    let server: usize = component_len_at(chars, from, separators);
    let ghost rest = chars@.skip(from as int);
    if chars.len() - from - server == 0 {
        assert(after_component(separators, rest) =~= seq![]);
        return (server, 0);
    }
    assert(after_component(separators, rest) =~= chars@.skip(from + server + 1));
    let share: usize = component_len_at(chars, from + server + 1, separators);
    (server, share)
}

/// The length of the prefix of a Windows path, and whether it is verbatim.
fn windows_prefix(chars: &Vec<char>) -> (prefix: (usize, bool))
    ensures
        prefix.0 == prefix_len(chars@),
        prefix.0 <= chars@.len(),
        prefix.1 == is_verbatim(chars@),
{
    let n: usize = chars.len();
    assert(chars@.skip(0) =~= chars@);
    if n >= 4 && chars[0] == '\\' && chars[1] == '\\' && chars[2] == '?' && chars[3] == '\\' {
        let ghost rest = chars@.skip(4);
        if n >= 8 && chars[4] == 'U' && chars[5] == 'N' && chars[6] == 'C' && is_slash_at(chars, 7) {
            assert(rest[0] == 'U' && rest[1] == 'N' && rest[2] == 'C' && rest[3] == chars@[7]);
            assert(rest.skip(4) =~= chars@.skip(8));
            let (server, share) = share_at(chars, 8, Separators::Backslash);
            let len: usize = if share > 0 {
                8 + server + 1 + share
            } else {
                8 + server
            };
            return (len, true);
        }
        assert(rest.len() >= 4 ==> rest[0] == chars@[4] && rest[1] == chars@[5] && rest[2]
            == chars@[6] && rest[3] == chars@[7]);
        assert(slash_at(rest, 2) == slash_at(chars@, 6));
        if has_drive_at(chars, 4) && (n == 6 || is_slash_at(chars, 6)) {
            return (6, true);
        }
        let len: usize = component_len_at(chars, 4, Separators::Backslash);
        return (4 + len, true);
    }
    if is_slash_at(chars, 0) && is_slash_at(chars, 1) {
        if n >= 4 && chars[2] == '.' && is_slash_at(chars, 3) {
            let len: usize = component_len_at(chars, 4, Separators::Either);
            return (4 + len, false);
        }
        let (server, share) = share_at(chars, 2, Separators::Either);
        if server > 0 && share > 0 {
            return (2 + server + 1 + share, false);
        }
        return (0, false);
    }
    if has_drive_at(chars, 0) {
        return (2, false);
    }
    (0, false)
}

/// The last component is what stands after the last separator.
proof fn lemma_last_component(separators: Separators, path: Seq<char>, start: int)
    requires
        0 <= start <= path.len(),
        forall|i: int| start <= i < path.len() ==> !is_separator(separators, #[trigger] path[i]),
        start > 0 ==> is_separator(separators, path[start - 1]),
    ensures
        last_component(separators, path) == path.skip(start),
    decreases path.len() - start,
{
    if start < path.len() {
        let rest = path.drop_last();
        assert forall|i: int| start <= i < rest.len() implies !is_separator(
            separators,
            #[trigger] rest[i],
        ) by {
            assert(rest[i] == path[i]);
        }
        lemma_last_component(separators, rest, start);
        assert(rest.skip(start).push(path.last()) =~= path.skip(start));
    } else {
        assert(path.skip(start) =~= seq![]);
    }
}

/// The name that the last component of `path` gives.
fn last_name(path: &str, separators: Separators) -> (name: Option<&str>)
    ensures
        match name {
            Some(text) => component_name(separators, path@) == Some(text@),
            None => component_name(separators, path@) is None,
        },
{
    let chars = chars_of(path);
    let mut end: usize = chars.len();
    assert(path@.take(end as int) =~= path@);
    while end > 0
        invariant
            end <= chars@.len(),
            chars@ == path@,
            component_name(separators, path@.take(end as int)) == component_name(
                separators,
                path@,
            ),
        decreases end,
    {
        let ghost left = path@.take(end as int);
        let mut start: usize = end;
        while start > 0 && !separates(separators, chars[start - 1])
            invariant
                start <= end <= chars@.len(),
                chars@ == path@,
                forall|i: int| start <= i < end ==> !is_separator(separators, #[trigger] chars@[i]),
            decreases start,
        {
            start = start - 1;
        }
        proof {
            assert forall|i: int| start <= i < left.len() implies !is_separator(
                separators,
                #[trigger] left[i],
            ) by {
                assert(left[i] == chars@[i]);
            }
            if start > 0 {
                assert(left[start - 1] == chars@[start - 1]);
            }
            lemma_last_component(separators, left, start as int);
            assert(left.skip(start as int) =~= path@.subrange(start as int, end as int));
            assert(left.drop_last() =~= path@.take(end - 1));
        }
        let ghost name = last_component(separators, left);
        if start == end {
            end = end - 1;
        } else if end - start == 1 && chars[start] == '.' {
            assert(name =~= seq!['.']);
            if separators == Separators::Backslash {
                return None;
            }
            end = end - 1;
        } else if end - start == 2 && chars[start] == '.' && chars[start + 1] == '.' {
            assert(name =~= seq!['.', '.']);
            return None;
        } else {
            proof {
                assert(name[0] == chars@[start as int]);
                if name.len() == 2 {
                    assert(name[1] == chars@[start + 1]);
                }
            }
            return Some(path.substring_char(start, end));
        }
    }
    assert(path@.take(0) =~= seq![]);
    None
}

/// The name of the file that `path` leads to, as a platform writes paths.
pub fn file_name(path: &str, style: PathStyle) -> (name: Option<&str>)
    ensures
        match name {
            Some(text) => path_file_name(style, path@) == Some(text@),
            None => path_file_name(style, path@) is None,
        },
{
    if style == PathStyle::Unix {
        return last_name(path, Separators::Slash);
    }
    let chars = chars_of(path);
    let n: usize = chars.len();
    let (prefix, verbatim) = windows_prefix(&chars);
    let start: usize = if is_slash_at(&chars, prefix) {
        prefix + 1
    } else {
        prefix
    };
    assert(path@.subrange(start as int, n as int) =~= path_body(path@));
    let separators = if verbatim {
        Separators::Backslash
    } else {
        Separators::Either
    };
    last_name(path.substring_char(start, n), separators)
}

} // verus!
