//! What calls on texts, numbers and JSON give back, in terms of what they are given.

use crate::channel_event::{
    attachments_in, fallback_channel_message_id, take_channel_attachments, take_string, take_u32,
    take_u64, text_hash_writes, ChannelMessageAttachment,
};
use crate::display_laws::{names_a_file, the_name_stands_behind_the_slash};
use crate::json::{Json, JsonObject};
use crate::json_text::value_tree;
use crate::message_laws::{
    an_attachment_is_what_its_object_describes, fallback_ids_are_hashes, given, is_attachment,
    stands_for,
};
use crate::numerals::{decimal_text, hex_text, parse_unsigned, parsed};
use crate::text::{
    byte_len, file_name, is_space, is_whitespace, join, same_text, split_first_word, split_words,
    starts_with, texts, to_lower, trim, words, PathStyle,
};
use crate::text_laws::{
    blank, even_texts_survive_their_words, evenly_spaced, hex_value,
    hexadecimal_digits_stand_for_the_number, lemma_decimal_digits, lemma_words_are_solid,
    numbers_survive_being_written, small_letters_only_replace_capitals, snug, solid,
    the_first_word_is_solid, trimming_takes_white_space_only, white_space_is_unicode,
    words_survive_being_put_together,
};
use std::collections::hash_map::DefaultHasher;
use vstd::prelude::*;
use vstd::std_specs::hash::DefaultHasherAdditionalSpecFns;

verus! {

broadcast use vstd::string::group_string_axioms;

/// Texts are measured in bytes and compared character by character.
pub proof fn texts_are_measured_and_compared(
    a: &str,
    b: &str,
    size: usize,
    same: bool,
    starts: bool,
)
    requires
        call_ensures(byte_len, (a,), size),
        call_ensures(same_text, (a, b), same),
        call_ensures(starts_with, (a, b), starts),
    ensures
        size == vstd::utf8::encode_utf8(a@).len(),
        same <==> a@ == b@,
        starts <==> a@.len() >= b@.len() && a@.take(b@.len() as int) == b@,
{
    if a@.len() >= b@.len() {
        assert(a@.take(b@.len() as int) =~= a@.subrange(0, b@.len() as int));
    }
}

/// White space is what Unicode says it is.
pub proof fn white_space_is_known(c: char, space: bool)
    requires
        call_ensures(is_whitespace, (c,), space),
    ensures
        c == ' ' || c == '\n' || c == '\t' || c == '\r' ==> space,
        33 <= c as u32 <= 126 ==> !space,
        0x3000 < c as u32 ==> !space,
{
    white_space_is_unicode(c);
}

/// Trimming takes white space away from both ends and nothing else.
pub proof fn trimming_only_trims(text: &str, inner: &str) -> (ends: (Seq<char>, Seq<char>))
    requires
        call_ensures(trim, (text,), inner),
    ensures
        text@ == ends.0 + inner@ + ends.1,
        blank(ends.0),
        blank(ends.1),
        snug(inner@),
{
    trimming_takes_white_space_only(text@)
}

/// A text is its first word and what follows it.
pub proof fn the_first_word_is_split_off(text: &str, parts: (&str, &str))
    requires
        call_ensures(split_first_word, (text,), parts),
    ensures
        text@ == parts.0@ + parts.1@,
        solid(parts.0@),
        parts.1@.len() > 0 ==> is_space(parts.1@[0]),
{
    the_first_word_is_solid(text@);
}

/// The words of a text hold no white space, and those of an evenly spaced text are the text again when
/// they are put together.
pub proof fn words_are_split_and_joined(
    text: &str,
    found: &Vec<String>,
    blank_text: &str,
    again: String,
    i: int,
)
    requires
        call_ensures(split_words, (text,), *found),
        call_ensures(join, (found, blank_text), again),
        blank_text@ == seq![' '],
    ensures
        0 <= i < found@.len() ==> found@[i]@.len() > 0 && solid(found@[i]@),
        evenly_spaced(text@) ==> again@ == text@,
        words(again@) == words(text@),
{
    lemma_words_are_solid(text@);
    if 0 <= i < found@.len() {
        assert(texts(found@)[i] == found@[i]@);
    }
    if evenly_spaced(text@) {
        even_texts_survive_their_words(text@);
    }
    words_survive_being_put_together(text@);
}

/// Small letters take the place of capitals, and nothing else changes.
pub proof fn capitals_become_small(text: &str, low: String, i: int)
    requires
        call_ensures(to_lower, (text,), low),
        0 <= i < text@.len(),
    ensures
        low@.len() == text@.len(),
        65 <= text@[i] as u32 <= 90 ==> low@[i] as u32 == text@[i] as u32 + 32,
        !(65 <= text@[i] as u32 <= 90) ==> low@[i] == text@[i],
{
    small_letters_only_replace_capitals(text@, i);
}

/// The name in a path is what stands behind its last slash.
pub proof fn names_are_found_in_paths(
    path: &str,
    directory: Seq<char>,
    name: Seq<char>,
    found: Option<&str>,
)
    requires
        call_ensures(file_name, (path, PathStyle::Unix), found),
        names_a_file(name),
        path@ == directory + seq!['/'] + name || path@ == name,
    ensures
        found is Some && found->Some_0@ == name,
{
    the_name_stands_behind_the_slash(directory, name);
}

/// A number that is written out is read again as the same number, unless it is over the limit.
pub proof fn numbers_are_written_and_read(
    n: u64,
    max: u64,
    written: String,
    text: &str,
    read: Option<u64>,
    hex: String,
)
    requires
        call_ensures(decimal_text, (n,), written),
        call_ensures(parse_unsigned, (text, max), read),
        call_ensures(hex_text, (n,), hex),
        text@ == written@,
    ensures
        n <= max ==> read == Some(n),
        n > max ==> read is None,
        hex@.len() == 16,
        hex_value(hex@) == n,
        48 <= written@[0] as u32 <= 57,
{
    lemma_decimal_digits(n as nat);
    numbers_survive_being_written(n as nat, max as nat);
    hexadecimal_digits_stand_for_the_number(n as nat, 16);
    assert(vstd::arithmetic::power::pow(16, 16) == 0x1_0000_0000_0000_0000) by {
        reveal_with_fuel(vstd::arithmetic::power::pow, 17);
    }
}

/// A message without an id gets the hash of its server, its method and its whole text.
pub proof fn ids_are_made_of_hashes(server: &str, method: &str, text: &str, id: String)
    requires
        call_ensures(fallback_channel_message_id, (server, method, text), id),
    ensures
        id@.len() == 16,
        hex_value(id@) == DefaultHasher::spec_finish(
            text_hash_writes(server@) + text_hash_writes(method@) + text_hash_writes(text@),
        ),
{
    fallback_ids_are_hashes(server@, method@, text@);
}

/// A value that is handed over and back is the same value.
pub proof fn values_survive_the_way_there_and_back(json: &Json, value: serde_json::Value, again: Json)
    requires
        call_ensures(Json::to_value, (json,), value),
        call_ensures(Json::from_value, (value,), again),
    ensures
        again@ == json@,
        value_tree(value) == json@,
{
}

/// A member is found under its key, and under no other.
pub proof fn members_are_found(object: &JsonObject, key: &str, found: Option<&Json>)
    requires
        call_ensures(JsonObject::get, (object, key), found),
    ensures
        found is Some <==> object@.contains_key(key@),
        found is Some ==> found->Some_0@ == object@[key@],
{
}

/// A member that is taken out as a text is gone, and nothing else is.
pub proof fn texts_are_taken_out(object: &mut JsonObject, key: &str, text: Option<String>)
    requires
        call_ensures(take_string, (object, key), text),
    ensures
        final(object)@ == old(object)@.remove(key@),
        text is Some <==> given(old(object)@, key@),
        text is Some ==> stands_for(old(object)@[key@], text->Some_0@),
{
}

/// A member that is taken out as a number of 32 bits is gone, and is that number if it spells one.
pub proof fn small_numbers_are_taken_out(object: &mut JsonObject, key: &str, number: Option<u32>)
    requires
        call_ensures(take_u32, (object, key), number),
    ensures
        final(object)@ == old(object)@.remove(key@),
        !old(object)@.contains_key(key@) ==> number is None,
        old(object)@.contains_key(key@) && old(object)@[key@] is Integer ==> {
            let n = old(object)@[key@]->Integer_0;
            &&& 0 <= n <= 0xffff_ffff ==> number is Some && number->Some_0 == n
            &&& !(0 <= n <= 0xffff_ffff) ==> number is None
        },
        old(object)@.contains_key(key@) && old(object)@[key@] is Text ==> {
            let spelled = parsed(old(object)@[key@]->Text_0, 0xffff_ffff);
            &&& number is Some <==> spelled is Some
            &&& number is Some ==> number->Some_0 == spelled->Some_0
        },
{
}

/// A member that is taken out as a number of 64 bits is gone, and is that number if it spells one.
pub proof fn large_numbers_are_taken_out(object: &mut JsonObject, key: &str, number: Option<u64>)
    requires
        call_ensures(take_u64, (object, key), number),
    ensures
        final(object)@ == old(object)@.remove(key@),
        !old(object)@.contains_key(key@) ==> number is None,
        old(object)@.contains_key(key@) && old(object)@[key@] is Integer ==> {
            let n = old(object)@[key@]->Integer_0;
            &&& 0 <= n <= u64::MAX ==> number is Some && number->Some_0 == n
            &&& !(0 <= n <= u64::MAX) ==> number is None
        },
        old(object)@.contains_key(key@) && old(object)@[key@] is Text ==> {
            let spelled = parsed(old(object)@[key@]->Text_0, u64::MAX as nat);
            &&& number is Some <==> spelled is Some
            &&& number is Some ==> number->Some_0 == spelled->Some_0
        },
{
}

/// Where the only attachment of a message is an object, there is one attachment, as that object
/// describes it; where there is no list of attachments, there is none.
pub proof fn attachments_are_taken_out(
    object: &mut JsonObject,
    attachments: Vec<ChannelMessageAttachment>,
)
    requires
        call_ensures(take_channel_attachments, (object,), attachments),
    ensures
        final(object)@ == old(object)@.remove("attachments"@),
        !old(object)@.contains_key("attachments"@) || !(old(object)@["attachments"@] is Array)
            ==> attachments@.len() == 0,
        old(object)@.contains_key("attachments"@) && old(object)@["attachments"@] is Array
            && old(object)@["attachments"@]->Array_0.len() == 1
            && old(object)@["attachments"@]->Array_0[0] is Object ==> attachments@.len() == 1
            && is_attachment(
            old(object)@["attachments"@]->Array_0[0]->Object_0,
            attachments@[0]@,
        ),
{
    let m = old(object)@;
    assert(attachments.deep_view().len() == attachments@.len());
    if m.contains_key("attachments"@) && m["attachments"@] is Array
        && m["attachments"@]->Array_0.len() == 1 && m["attachments"@]->Array_0[0] is Object {
        let items = m["attachments"@]->Array_0;
        an_attachment_is_what_its_object_describes(items[0]->Object_0);
        assert(items.drop_last().len() == 0);
        reveal_with_fuel(attachments_in, 2);
        assert(attachments.deep_view()[0] == attachments@[0]@);
    }
}

/// A member that is put in is there, in place of one under its key, and every other member stays.
pub proof fn members_are_put_in(object: &mut JsonObject, key: String, value: Json, other: Seq<char>)
    requires
        call_ensures(JsonObject::insert, (object, key, value), ()),
    ensures
        final(object)@.contains_key(key@) && final(object)@[key@] == value@,
        other != key@ ==> final(object)@.contains_key(other) == old(object)@.contains_key(other),
        other != key@ && old(object)@.contains_key(other) ==> final(object)@[other]
            == old(object)@[other],
{
}

/// A member that is taken out is handed over and is gone, and every other member stays.
pub proof fn members_are_taken_out(
    object: &mut JsonObject,
    key: &str,
    value: Option<Json>,
    other: Seq<char>,
)
    requires
        call_ensures(JsonObject::remove, (object, key), value),
    ensures
        value is Some <==> old(object)@.contains_key(key@),
        value is Some ==> value->Some_0@ == old(object)@[key@],
        !final(object)@.contains_key(key@),
        other != key@ ==> final(object)@.contains_key(other) == old(object)@.contains_key(other),
        other != key@ && old(object)@.contains_key(other) ==> final(object)@[other]
            == old(object)@[other],
{
}

} // verus!
