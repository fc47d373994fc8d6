//! What holds of texts and numbers, whatever they are.

use crate::numerals::{all_digits, decimal, digits_value, hex_digits, parsed, signed_decimal};
use crate::text::{
    is_space, joined, lowered, trimmed, trimmed_end, trimmed_start, utf8_len, word_len, words,
};
use vstd::prelude::*;

verus! {

/// Whether a text holds nothing but white space.
pub open spec fn blank(s: Seq<char>) -> bool {
    forall|i: int| 0 <= i < s.len() ==> is_space(#[trigger] s[i])
}

/// Whether a text holds no white space.
pub open spec fn solid(s: Seq<char>) -> bool {
    forall|i: int| 0 <= i < s.len() ==> !is_space(#[trigger] s[i])
}

/// Whether a text neither starts nor ends with white space.
pub open spec fn snug(s: Seq<char>) -> bool {
    s.len() > 0 ==> !is_space(s[0]) && !is_space(s.last())
}

/// White space is what Unicode says it is, by code point.
pub proof fn white_space_is_unicode(c: char)
    ensures
        is_space(c) <==> {
            ||| 9 <= c as u32 <= 13
            ||| c as u32 == 32
            ||| c as u32 == 0x85
            ||| c as u32 == 0xa0
            ||| c as u32 == 0x1680
            ||| 0x2000 <= c as u32 <= 0x200a
            ||| c as u32 == 0x2028
            ||| c as u32 == 0x2029
            ||| c as u32 == 0x202f
            ||| c as u32 == 0x205f
            ||| c as u32 == 0x3000
        },
{
}

proof fn lemma_start_is_a_suffix(s: Seq<char>) -> (n: int)
    ensures
        0 <= n <= s.len(),
        trimmed_start(s) == s.skip(n),
        blank(s.take(n)),
        n < s.len() ==> !is_space(s[n]),
    decreases s.len(),
{
    if s.len() > 0 && is_space(s[0]) {
        let n = lemma_start_is_a_suffix(s.drop_first()) + 1;
        assert(s.drop_first().skip(n - 1) =~= s.skip(n));
        assert forall|i: int| 0 <= i < n implies is_space(#[trigger] s.take(n)[i]) by {
            if i > 0 {
                assert(s.take(n)[i] == s.drop_first().take(n - 1)[i - 1]);
            }
        }
        n
    } else {
        assert(s.skip(0) =~= s);
        0
    }
}

proof fn lemma_end_is_a_prefix(s: Seq<char>) -> (n: int)
    ensures
        0 <= n <= s.len(),
        trimmed_end(s) == s.take(n),
        blank(s.skip(n)),
        n > 0 ==> !is_space(s[n - 1]),
    decreases s.len(),
{
    if s.len() > 0 && is_space(s.last()) {
        let n = lemma_end_is_a_prefix(s.drop_last());
        assert(s.drop_last().take(n) =~= s.take(n));
        assert forall|i: int| 0 <= i < s.skip(n).len() implies is_space(#[trigger] s.skip(n)[i]) by {
            if i < s.len() - 1 - n {
                assert(s.skip(n)[i] == s.drop_last().skip(n)[i]);
            }
        }
        n
    } else {
        assert(s.take(s.len() as int) =~= s);
        s.len() as int
    }
}

/// Trimming takes white space away from both ends of a text and nothing else: the text is white space,
/// the trimmed text and white space again, and the trimmed text has none at its ends.
pub proof fn trimming_takes_white_space_only(s: Seq<char>) -> (ends: (Seq<char>, Seq<char>))
    ensures
        s == ends.0 + trimmed(s) + ends.1,
        blank(ends.0),
        blank(ends.1),
        snug(trimmed(s)),
{
    let n = lemma_start_is_a_suffix(s);
    let t = s.skip(n);
    let m = lemma_end_is_a_prefix(t);
    let ends = (s.take(n), t.skip(m));
    assert(s =~= ends.0 + t.take(m) + ends.1);
    if m > 0 {
        assert(t.take(m)[0] == s[n]);
        assert(t.take(m).last() == t[m - 1]);
    }
    ends
}

/// The text inside white space is found whatever white space is put around it.
pub proof fn trimming_finds_the_inside(lead: Seq<char>, s: Seq<char>, trail: Seq<char>)
    requires
        blank(lead),
        blank(trail),
        snug(s),
    ensures
        trimmed(lead + s + trail) == s,
{
    let all = lead + s + trail;
    let n = lemma_start_is_a_suffix(all);
    if s.len() == 0 {
        if n < all.len() {
            if n < lead.len() {
                assert(all[n] == lead[n]);
            } else {
                assert(all[n] == trail[n - lead.len()]);
            }
        }
        assert(all.skip(n) =~= seq![]);
        assert(trimmed(all) =~= s);
    } else {
        if n < lead.len() {
            assert(all[n] == lead[n]);
        }
        if n > lead.len() {
            assert(all.take(n)[lead.len() as int] == s[0]);
        }
        assert(n == lead.len());
        let t = all.skip(n);
        assert(t =~= s + trail);
        let m = lemma_end_is_a_prefix(t);
        if m > s.len() {
            assert(t[m - 1] == trail[m - 1 - s.len()]);
        }
        if m < s.len() {
            assert(t.skip(m)[s.len() - 1 - m] == s.last());
        }
        assert(t.take(m) =~= s);
    }
}

/// A text with a character other than white space is not blank when it is trimmed.
pub proof fn trimming_keeps_what_is_said(s: Seq<char>)
    ensures
        trimmed(s).len() == 0 <==> blank(s),
{
    let ends = trimming_takes_white_space_only(s);
    if trimmed(s).len() == 0 {
        assert forall|i: int| 0 <= i < s.len() implies is_space(#[trigger] s[i]) by {
            if i < ends.0.len() {
                assert(s[i] == ends.0[i]);
            } else {
                assert(s[i] == ends.1[i - ends.0.len()]);
            }
        }
    } else {
        assert(s[ends.0.len() as int] == trimmed(s)[0]);
    }
}

proof fn lemma_word_ends(s: Seq<char>)
    ensures
        word_len(s) <= s.len(),
        solid(s.take(word_len(s) as int)),
        word_len(s) < s.len() ==> is_space(s[word_len(s) as int]),
    decreases s.len(),
{
    if s.len() > 0 && !is_space(s[0]) {
        let rest = s.drop_first();
        lemma_word_ends(rest);
        let n = word_len(s) as int;
        assert forall|i: int| 0 <= i < n implies !is_space(#[trigger] s.take(n)[i]) by {
            if i > 0 {
                assert(s.take(n)[i] == rest.take(n - 1)[i - 1]);
            }
        }
    }
}

/// The first word of a text holds no white space, and white space follows it unless the text ends.
pub proof fn the_first_word_is_solid(s: Seq<char>)
    ensures
        word_len(s) <= s.len(),
        solid(s.take(word_len(s) as int)),
        word_len(s) < s.len() ==> is_space(s[word_len(s) as int]),
{
    lemma_word_ends(s);
}

/// The first word of a text that starts with a word and goes on with white space, or ends, is that
/// word.
pub proof fn the_first_word_ends_at_white_space(word: Seq<char>, rest: Seq<char>)
    requires
        solid(word),
        rest.len() > 0 ==> is_space(rest[0]),
    ensures
        word_len(word + rest) == word.len(),
    decreases word.len(),
{
    let all = word + rest;
    if word.len() > 0 {
        assert(all[0] == word[0]);
        assert(all.drop_first() =~= word.drop_first() + rest);
        assert(solid(word.drop_first())) by {
            assert forall|i: int| 0 <= i < word.drop_first().len() implies !is_space(
                #[trigger] word.drop_first()[i],
            ) by {
                assert(word.drop_first()[i] == word[i + 1]);
            }
        }
        the_first_word_ends_at_white_space(word.drop_first(), rest);
    }
}

/// There are no words in white space.
pub proof fn white_space_has_no_words(s: Seq<char>)
    requires
        blank(s),
    ensures
        words(s) == Seq::<Seq<char>>::empty(),
{
    let n = lemma_start_is_a_suffix(s);
    assert(n == s.len());
    assert(s.skip(n).len() == 0);
}

/// A text without white space is one word.
pub proof fn a_solid_text_is_one_word(s: Seq<char>)
    requires
        solid(s),
        s.len() > 0,
    ensures
        words(s) == seq![s],
{
    let none = Seq::<char>::empty();
    the_first_word_ends_at_white_space(s, none);
    assert(s + none =~= s);
    assert(trimmed_start(s) == s);
    assert(s.take(s.len() as int) =~= s);
    assert(s.skip(s.len() as int) =~= none);
    white_space_has_no_words(none);
    assert(words(s) =~= seq![s]);
}

/// A white space between two texts parts their words.
pub proof fn white_space_parts_words(a: Seq<char>, space: char, b: Seq<char>)
    requires
        is_space(space),
    ensures
        words(a + seq![space] + b) == words(a) + words(b),
    decreases a.len(),
{
    let all = a + seq![space] + b;
    if a.len() == 0 {
        assert(all[0] == space);
        assert(all.drop_first() =~= b);
        assert(trimmed_start(all) == trimmed_start(b));
        white_space_has_no_words(a);
        assert(words(all) == words(b));
        assert(words(a) + words(b) =~= words(b));
    } else if is_space(a[0]) {
        assert(all[0] == a[0]);
        assert(all.drop_first() =~= a.drop_first() + seq![space] + b);
        white_space_parts_words(a.drop_first(), space, b);
        assert(trimmed_start(all) == trimmed_start(all.drop_first()));
        assert(trimmed_start(a) == trimmed_start(a.drop_first()));
        assert(words(all) == words(all.drop_first()));
        assert(words(a) == words(a.drop_first()));
    } else {
        let n = word_len(a) as int;
        lemma_word_ends(a);
        let word = a.take(n);
        assert(all =~= word + (a.skip(n) + seq![space] + b));
        let tail = a.skip(n) + seq![space] + b;
        assert(is_space(tail[0]));
        the_first_word_ends_at_white_space(word, tail);
        assert(all[0] == a[0]);
        assert(trimmed_start(all) == all);
        assert(trimmed_start(a) == a);
        assert(all.take(n) =~= word);
        assert(all.skip(n) =~= tail);
        white_space_parts_words(a.skip(n), space, b);
        assert(words(all) =~= words(a) + words(b));
    }
}

/// Whether white space in a text is one blank between two words.
pub open spec fn evenly_spaced(s: Seq<char>) -> bool {
    forall|i: int|
        0 <= i < s.len() && is_space(#[trigger] s[i]) ==> {
            &&& s[i] == ' '
            &&& 0 < i < s.len() - 1
            &&& !is_space(s[i + 1])
        }
}

proof fn lemma_joined_front(word: Seq<char>, parts: Seq<Seq<char>>, separator: Seq<char>)
    requires
        parts.len() > 0,
    ensures
        joined(seq![word] + parts, separator) == word + separator + joined(parts, separator),
    decreases parts.len(),
{
    let all = seq![word] + parts;
    assert(all.last() == parts.last());
    if parts.len() == 1 {
        assert(all.drop_last() =~= seq![word]);
        assert(joined(seq![word], separator) == word);
        assert(joined(all, separator) =~= word + separator + parts[0]);
    } else {
        assert(all.drop_last() =~= seq![word] + parts.drop_last());
        lemma_joined_front(word, parts.drop_last(), separator);
        assert(joined(all, separator) =~= word + separator + joined(parts, separator));
    }
}

/// The words of an evenly spaced text, put together with blanks, are the text again.
pub proof fn even_texts_survive_their_words(s: Seq<char>)
    requires
        evenly_spaced(s),
    ensures
        joined(words(s), seq![' ']) == s,
        s.len() > 0 ==> words(s).len() > 0,
    decreases s.len(),
{
    if s.len() == 0 {
        white_space_has_no_words(s);
        assert(joined(words(s), seq![' ']) =~= s);
    } else {
        let n = word_len(s) as int;
        lemma_word_ends(s);
        assert(!is_space(s[0]));
        if n == s.len() {
            assert(s.take(n) =~= s);
            a_solid_text_is_one_word(s);
        } else {
            let word = s.take(n);
            let rest = s.skip(n + 1);
            assert(s =~= word + seq![' '] + rest);
            assert(n > 0);
            assert(evenly_spaced(rest)) by {
                assert forall|i: int| 0 <= i < rest.len() && is_space(#[trigger] rest[i]) implies {
                    &&& rest[i] == ' '
                    &&& 0 < i < rest.len() - 1
                    &&& !is_space(rest[i + 1])
                } by {
                    assert(rest[i] == s[i + n + 1]);
                    assert(!is_space(s[n + 1]));
                }
            }
            even_texts_survive_their_words(rest);
            a_solid_text_is_one_word(word);
            white_space_parts_words(word, ' ', rest);
            lemma_joined_front(word, words(rest), seq![' ']);
        }
    }
}

/// The words of a text, put together with blanks, have the same words again.
pub proof fn words_survive_being_put_together(s: Seq<char>)
    ensures
        words(joined(words(s), seq![' '])) == words(s),
{
    lemma_words_are_solid(s);
    lemma_words_of_joined(words(s));
}

/// Every word is a text without white space that is not empty.
pub proof fn lemma_words_are_solid(s: Seq<char>)
    ensures
        forall|i: int|
            0 <= i < words(s).len() ==> (#[trigger] words(s)[i]).len() > 0 && solid(words(s)[i]),
    decreases s.len(),
{
    let n = lemma_start_is_a_suffix(s);
    let t = s.skip(n);
    if t.len() > 0 {
        lemma_word_ends(t);
        let k = word_len(t) as int;
        assert(t[0] == s[n]);
        assert(k > 0);
        lemma_words_are_solid(t.skip(k));
        let all = words(s);
        assert(all == seq![t.take(k)] + words(t.skip(k)));
        assert forall|i: int| 0 <= i < all.len() implies (#[trigger] all[i]).len() > 0 && solid(
            all[i],
        ) by {
            if i > 0 {
                assert(all[i] == words(t.skip(k))[i - 1]);
            }
        }
    }
}

proof fn lemma_words_of_joined(parts: Seq<Seq<char>>)
    requires
        forall|i: int| 0 <= i < parts.len() ==> (#[trigger] parts[i]).len() > 0 && solid(parts[i]),
    ensures
        words(joined(parts, seq![' '])) == parts,
    decreases parts.len(),
{
    if parts.len() == 0 {
        white_space_has_no_words(joined(parts, seq![' ']));
        assert(words(joined(parts, seq![' '])) =~= parts);
    } else if parts.len() == 1 {
        a_solid_text_is_one_word(parts[0]);
        assert(seq![parts[0]] =~= parts);
    } else {
        let before = parts.drop_last();
        assert forall|i: int| 0 <= i < before.len() implies (#[trigger] before[i]).len() > 0
            && solid(before[i]) by {
            assert(before[i] == parts[i]);
        }
        lemma_words_of_joined(before);
        assert(parts.last() == parts[parts.len() - 1]);
        a_solid_text_is_one_word(parts.last());
        white_space_parts_words(joined(before, seq![' ']), ' ', parts.last());
        assert(before + seq![parts.last()] =~= parts);
    }
}

/// Parts are put together in their order, with the separator between every two of them and nowhere
/// else.
pub proof fn separators_stand_between_parts(
    parts: Seq<Seq<char>>,
    part: Seq<char>,
    separator: Seq<char>,
)
    ensures
        joined(seq![], separator).len() == 0,
        joined(seq![part], separator) == part,
        parts.len() > 0 ==> joined(parts.push(part), separator) == joined(parts, separator)
            + separator + part,
{
    assert(parts.push(part).drop_last() =~= parts);
    assert(parts.push(part).last() == part);
}

/// The size of a text is the number of its bytes in UTF-8, not the number of its characters.
pub proof fn sizes_are_counted_in_bytes(s: Seq<char>)
    ensures
        utf8_len(s) == vstd::utf8::encode_utf8(s).len(),
{
}

/// Turning capitals into small letters keeps every other character and the length.
pub proof fn small_letters_only_replace_capitals(s: Seq<char>, i: int)
    requires
        0 <= i < s.len(),
    ensures
        lowered(s).len() == s.len(),
        65 <= s[i] as u32 <= 90 ==> lowered(s)[i] as u32 == s[i] as u32 + 32,
        !(65 <= s[i] as u32 <= 90) ==> lowered(s)[i] == s[i],
{
}

/// A number is written with the ten digits, most significant first, without a leading zero.
pub proof fn decimals_are_positional(n: nat, digit: nat)
    requires
        digit < 10,
    ensures
        n < 10 ==> decimal(n).len() == 1 && decimal(n)[0] as u32 == 48 + n,
        n > 0 ==> decimal(n * 10 + digit).len() == decimal(n).len() + 1,
        n > 0 ==> decimal(n * 10 + digit).drop_last() == decimal(n),
        n > 0 ==> decimal(n * 10 + digit).last() as u32 == 48 + digit,
{
    if n > 0 {
        let m = n * 10 + digit;
        assert(m / 10 == n && m % 10 == digit);
        assert(decimal(m).drop_last() =~= decimal(n));
    }
}

/// What a number is written as is digits only, and stands for the number.
pub proof fn lemma_decimal_digits(n: nat)
    ensures
        decimal(n).len() > 0,
        all_digits(decimal(n)),
        solid(decimal(n)),
        digits_value(decimal(n)) == n,
        48 <= decimal(n)[0] as u32 <= 57,
    decreases n,
{
    let d = decimal(n);
    if n < 10 {
        assert(d.drop_last() =~= seq![]);
        assert(digits_value(d.drop_last()) == 0);
    } else {
        lemma_decimal_digits(n / 10);
        let before = decimal(n / 10);
        assert(d.drop_last() =~= before);
        assert(d[0] == before[0]);
        assert forall|i: int| 0 <= i < d.len() implies 48 <= (#[trigger] d[i]) as u32 <= 57 by {
            if i < before.len() {
                assert(d[i] == before[i]);
            }
        }
    }
}

/// A number that is written out and read again is the same number, unless it is over the limit; a plus
/// sign in front makes no difference.
pub proof fn numbers_survive_being_written(n: nat, max: nat)
    ensures
        n <= max ==> parsed(decimal(n), max) == Some(n),
        n <= max ==> parsed(seq!['+'] + decimal(n), max) == Some(n),
        n > max ==> parsed(decimal(n), max) is None,
{
    lemma_decimal_digits(n);
    assert((seq!['+'] + decimal(n)).drop_first() =~= decimal(n));
}

/// A text that holds anything but digits behind one plus sign, or no digit at all, is no number.
pub proof fn only_digits_are_numbers(text: Seq<char>, max: nat, i: int)
    requires
        0 <= i < text.len() ==> !(48 <= text[i] as u32 <= 57) && !(i == 0 && text[i] == '+'),
        0 <= i < text.len() || text.len() == 0 || text == seq!['+'],
    ensures
        parsed(text, max) is None,
{
    if text == seq!['+'] {
        assert(text.drop_first() =~= seq![]);
    } else if text.len() > 0 && text[0] == '+' {
        assert(text.drop_first()[i - 1] == text[i]);
    }
}

/// Negative numbers carry a minus sign, and no others do.
pub proof fn negative_numbers_carry_a_sign(n: nat)
    ensures
        signed_decimal(n as int) == decimal(n),
        n > 0 ==> signed_decimal(-(n as int)) == seq!['-'] + decimal(n),
{
}

/// The number that hexadecimal digits stand for.
pub open spec fn hex_value(digits: Seq<char>) -> nat
    decreases digits.len(),
{
    if digits.len() == 0 {
        0
    } else {
        let c = digits.last() as nat;
        hex_value(digits.drop_last()) * 16 + if c < 58 {
            (c - 48) as nat
        } else {
            (c - 87) as nat
        }
    }
}

/// A number fits its hexadecimal digits: there are as many of them as asked for, they are digits or
/// small letters from `a` to `f`, and they stand for the number where it has no more of them.
pub proof fn hexadecimal_digits_stand_for_the_number(n: nat, width: nat)
    ensures
        hex_digits(n, width).len() == width,
        forall|i: int|
            0 <= i < width ==> {
                ||| 48 <= (#[trigger] hex_digits(n, width)[i]) as u32 <= 57
                ||| 97 <= hex_digits(n, width)[i] as u32 <= 102
            },
        n < vstd::arithmetic::power::pow(16, width) ==> hex_value(hex_digits(n, width)) == n,
    decreases width,
{
    reveal(vstd::arithmetic::power::pow);
    if width > 0 {
        let w = (width - 1) as nat;
        hexadecimal_digits_stand_for_the_number(n / 16, w);
        let d = hex_digits(n, width);
        assert(d.drop_last() =~= hex_digits(n / 16, w));
        assert forall|i: int| 0 <= i < width implies {
            ||| 48 <= (#[trigger] d[i]) as u32 <= 57
            ||| 97 <= d[i] as u32 <= 102
        } by {
            if i < w {
                assert(d[i] == hex_digits(n / 16, w)[i]);
            }
        }
        let p = vstd::arithmetic::power::pow(16, w);
        assert(vstd::arithmetic::power::pow(16, width) == 16 * p);
        if n < 16 * p {
            assert(n / 16 < p) by (nonlinear_arith)
                requires
                    n < 16 * p,
            ;
        }
    }
}

} // verus!
