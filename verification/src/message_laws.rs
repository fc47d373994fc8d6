//! What a channel message says in terms of the notification that announced it.

use crate::channel_event::{
    announced_message, attachment_of, attachments_in, described_message, fallback_id, message_of,
    number_reading, take_body, take_number, take_text, text_hash_writes, text_reading,
    AttachmentModel, Members, MessageModel,
};
use crate::json::JsonModel;
use crate::json_text::json_text;
use crate::numerals::{decimal, parsed};
use crate::text::is_space;
use crate::text_laws::{
    blank, hex_value, hexadecimal_digits_stand_for_the_number, lemma_decimal_digits,
    trimming_keeps_what_is_said,
};
use std::collections::hash_map::DefaultHasher;
use vstd::prelude::*;
use vstd::std_specs::hash::DefaultHasherAdditionalSpecFns;

verus! {

broadcast use vstd::string::group_string_axioms;

/// Whether a method is one of the three that announce channel messages.
pub open spec fn announces(method: Seq<char>, peer: Seq<char>) -> bool {
    ||| method == "notifications/codex/channel"@
    ||| method == "notifications/"@ + peer + "/channel"@
    ||| method == "notifications/channel"@
}

/// Whether a member is there and not `null`.
pub open spec fn given(members: Members, key: Seq<char>) -> bool {
    members.contains_key(key) && members[key] != JsonModel::Null
}

/// Whether a member is a text, and not the empty one.
pub open spec fn says(members: Members, key: Seq<char>, text: Seq<char>) -> bool {
    members.contains_key(key) && members[key] == JsonModel::Text(text) && text.len() > 0
}

/// Whether a member is an integer.
pub open spec fn counts(members: Members, key: Seq<char>, n: int) -> bool {
    members.contains_key(key) && members[key] == JsonModel::Integer(n)
}

/// Whether a member can be the text of a message: it is there, and neither `null` nor empty.
pub open spec fn speaks(members: Members, key: Seq<char>) -> bool {
    given(members, key) && members[key] != JsonModel::Text(seq![])
}

/// Whether a member spells a number from zero to `max`, as an integer or as a text.
pub open spec fn numbers(members: Members, key: Seq<char>, max: nat) -> bool {
    members.contains_key(key) && match members[key] {
        JsonModel::Integer(n) => 0 <= n <= max,
        JsonModel::Text(text) => parsed(text, max) is Some,
        _ => false,
    }
}

/// Whether the text of a member stands in a field as it is: a text that is not empty unchanged, an
/// integer in decimal, a truth value by its name, and anything else as JSON.
pub open spec fn stands_for(value: JsonModel, text: Seq<char>) -> bool {
    match value {
        JsonModel::Null => false,
        JsonModel::Text(t) => if t.len() > 0 {
            text == t
        } else {
            text == json_text(value)
        },
        JsonModel::Integer(n) => if n >= 0 {
            text == decimal(n as nat)
        } else {
            text == seq!['-'] + decimal((-n) as nat)
        },
        JsonModel::Bool(b) => text == (if b {
            "true"@
        } else {
            "false"@
        }),
        other => text == json_text(other),
    }
}

/// The keys that the members of a message go by are different texts.
proof fn lemma_message_keys()
    ensures
        "text"@ != "message"@,
        seq!["text"@, "message"@, "source"@, "channel"@, "sender"@, "sender_id"@, "from"@, "id"@,
            "message_id"@, "schema_version"@, "schemaVersion"@, "attachments"@, "chat_id"@,
            "telegram_message_id"@].no_duplicates(),
{
    reveal_strlit("text");
    reveal_strlit("message");
    reveal_strlit("source");
    reveal_strlit("channel");
    reveal_strlit("sender");
    reveal_strlit("sender_id");
    reveal_strlit("from");
    reveal_strlit("id");
    reveal_strlit("message_id");
    reveal_strlit("schema_version");
    reveal_strlit("schemaVersion");
    reveal_strlit("attachments");
    reveal_strlit("chat_id");
    reveal_strlit("telegram_message_id");
    assert("text"@.len() == 4 && "from"@.len() == 4 && "text"@[0] == 't' && "from"@[0] == 'f');
    assert("message"@.len() == 7 && "channel"@.len() == 7 && "chat_id"@.len() == 7);
    assert("message"@[0] == 'm' && "channel"@[0] == 'c' && "chat_id"@[0] == 'c');
    assert("channel"@[3] == 'n' && "chat_id"@[3] == 't');
    assert("source"@.len() == 6 && "sender"@.len() == 6 && "source"@[1] == 'o' && "sender"@[1]
        == 'e');
    assert("sender_id"@.len() == 9 && "id"@.len() == 2 && "message_id"@.len() == 10);
    assert("schema_version"@.len() == 14 && "schemaVersion"@.len() == 13);
    assert("attachments"@.len() == 11 && "telegram_message_id"@.len() == 19);
}

/// The keys that the members of an attachment go by are different texts.
proof fn lemma_attachment_keys()
    ensures
        seq!["kind"@, "type"@, "path"@, "mime_type"@, "mimeType"@, "file_name"@, "fileName"@,
            "file_size"@, "fileSize"@].no_duplicates(),
{
    reveal_strlit("kind");
    reveal_strlit("type");
    reveal_strlit("path");
    reveal_strlit("mime_type");
    reveal_strlit("mimeType");
    reveal_strlit("file_name");
    reveal_strlit("fileName");
    reveal_strlit("file_size");
    reveal_strlit("fileSize");
    assert("kind"@[0] == 'k' && "type"@[0] == 't' && "path"@[0] == 'p');
    assert("kind"@.len() == 4 && "type"@.len() == 4 && "path"@.len() == 4);
    assert("mime_type"@.len() == 9 && "file_name"@.len() == 9 && "file_size"@.len() == 9);
    assert("mime_type"@[0] == 'm' && "file_name"@[0] == 'f' && "file_size"@[0] == 'f');
    assert("file_name"@[5] == 'n' && "file_size"@[5] == 's');
    assert("mimeType"@.len() == 8 && "fileName"@.len() == 8 && "fileSize"@.len() == 8);
    assert("mimeType"@[0] == 'm' && "fileName"@[0] == 'f' && "fileSize"@[0] == 'f');
    assert("fileName"@[4] == 'N' && "fileSize"@[4] == 'S');
}

/// Members that are not none have a key.
proof fn lemma_some_key(m: Members)
    requires
        m != Members::empty(),
    ensures
        exists|key: Seq<char>| #[trigger] m.contains_key(key),
{
    if forall|key: Seq<char>| !#[trigger] m.contains_key(key) {
        assert(m =~= Members::empty());
    }
}

proof fn lemma_take_text_two(m: Members, a: Seq<char>, b: Seq<char>)
    requires
        a != b,
    ensures
        ({
            let (text, rest) = take_text(m, seq![a, b]);
            &&& given(m, a) ==> text is Some && stands_for(m[a], text->Some_0) && rest == m.remove(a)
            &&& !given(m, a) && given(m, b) ==> text is Some && stands_for(m[b], text->Some_0)
            &&& !given(m, a) ==> rest == m.remove(a).remove(b)
            &&& !given(m, a) && !given(m, b) ==> text is None
        }),
{
    assert(seq![a, b].drop_first() =~= seq![b]);
    assert(seq![b].drop_first() =~= seq![]);
    reveal_with_fuel(take_text, 3);
    assert(m.remove(a).contains_key(b) == m.contains_key(b));
}

proof fn lemma_take_text_one(m: Members, a: Seq<char>)
    ensures
        ({
            let (text, rest) = take_text(m, seq![a]);
            &&& given(m, a) ==> text is Some && stands_for(m[a], text->Some_0)
            &&& !given(m, a) ==> text is None
            &&& rest == m.remove(a)
        }),
{
    assert(seq![a].drop_first() =~= seq![]);
    reveal_with_fuel(take_text, 2);
}

proof fn lemma_take_text_three(m: Members, a: Seq<char>, b: Seq<char>, c: Seq<char>)
    requires
        a != b && b != c && a != c,
    ensures
        ({
            let (text, rest) = take_text(m, seq![a, b, c]);
            &&& given(m, a) ==> text is Some && stands_for(m[a], text->Some_0) && rest == m.remove(a)
            &&& !given(m, a) && given(m, b) ==> text is Some && stands_for(m[b], text->Some_0)
                && rest == m.remove(a).remove(b)
            &&& !given(m, a) && !given(m, b) && given(m, c) ==> text is Some && stands_for(
                m[c],
                text->Some_0,
            )
            &&& !given(m, a) && !given(m, b) ==> rest == m.remove(a).remove(b).remove(c)
            &&& !given(m, a) && !given(m, b) && !given(m, c) ==> text is None
        }),
{
    assert(seq![a, b, c].drop_first() =~= seq![b, c]);
    lemma_take_text_two(m.remove(a), b, c);
    assert(given(m.remove(a), b) == given(m, b));
    assert(given(m.remove(a), c) == given(m, c));
}

proof fn lemma_take_body_two(m: Members, a: Seq<char>, b: Seq<char>)
    requires
        a != b,
    ensures
        ({
            let (text, rest) = take_body(m, seq![a, b]);
            &&& speaks(m, a) ==> text is Some && stands_for(m[a], text->Some_0) && rest == m.remove(a)
            &&& !speaks(m, a) && speaks(m, b) ==> text is Some && stands_for(m[b], text->Some_0)
            &&& !speaks(m, a) ==> rest == m.remove(a).remove(b)
            &&& !speaks(m, a) && !speaks(m, b) ==> text is None
        }),
{
    assert(seq![a, b].drop_first() =~= seq![b]);
    assert(seq![b].drop_first() =~= seq![]);
    reveal_with_fuel(take_body, 3);
    assert(m.remove(a).contains_key(b) == m.contains_key(b));
    assert forall|t: Seq<char>| #[trigger] t.len() == 0 implies t == Seq::<char>::empty() by {
        assert(t =~= Seq::<char>::empty());
    }
}

/// The number that a member spells.
pub open spec fn spelled(members: Members, key: Seq<char>, n: nat, max: nat) -> bool {
    members.contains_key(key) && match members[key] {
        JsonModel::Integer(i) => i == n,
        JsonModel::Text(text) => parsed(text, max) == Some(n),
        _ => false,
    }
}

proof fn lemma_take_number_two(m: Members, a: Seq<char>, b: Seq<char>, max: nat)
    requires
        a != b,
    ensures
        ({
            let (n, rest) = take_number(m, seq![a, b], max);
            &&& n matches Some(k) ==> k <= max
            &&& numbers(m, a, max) ==> n is Some && spelled(m, a, n->Some_0, max) && rest
                == m.remove(a)
            &&& !numbers(m, a, max) && numbers(m, b, max) ==> n is Some && spelled(
                m,
                b,
                n->Some_0,
                max,
            )
            &&& !numbers(m, a, max) ==> rest == m.remove(a).remove(b)
            &&& !numbers(m, a, max) && !numbers(m, b, max) ==> n is None
        }),
{
    assert(seq![a, b].drop_first() =~= seq![b]);
    assert(seq![b].drop_first() =~= seq![]);
    reveal_with_fuel(take_number, 3);
    assert(m.remove(a).contains_key(b) == m.contains_key(b));
}

/// Whether a message has a field that says what a member says, if there is one.
pub open spec fn field_says(field: Option<Seq<char>>, value: JsonModel) -> bool {
    field matches Some(text) && stands_for(value, text)
}

/// Which members of a notification are not kept in the metadata: those that have a place of their own,
/// and of two that could have the same place the second only where the first says nothing.
pub open spec fn has_its_place(m: Members, key: Seq<char>) -> bool {
    ||| key == "text"@
    ||| key == "message"@ && !speaks(m, "text"@)
    ||| key == "source"@
    ||| key == "channel"@ && !given(m, "source"@)
    ||| key == "sender"@
    ||| key == "sender_id"@ && !given(m, "sender"@)
    ||| key == "from"@ && !given(m, "sender"@) && !given(m, "sender_id"@)
    ||| key == "id"@
    ||| key == "message_id"@ && !given(m, "id"@)
    ||| key == "schema_version"@
    ||| key == "schemaVersion"@ && !numbers(m, "schema_version"@, u32::MAX as nat)
    ||| key == "attachments"@
}

/// What members announce, before the blank ones are refused, in terms of the members.
proof fn lemma_described(server: Seq<char>, method: Seq<char>, m: Members)
    ensures
        ({
            let described = described_message(server, method, JsonModel::Object(m));
            &&& described is Some <==> speaks(m, "text"@) || speaks(m, "message"@)
            &&& described matches Some(message) ==> reads(server, method, m, message)
        }),
{
    lemma_message_keys();
    let keys = seq!["text"@, "message"@, "source"@, "channel"@, "sender"@, "sender_id"@, "from"@,
        "id"@, "message_id"@, "schema_version"@, "schemaVersion"@, "attachments"@, "chat_id"@,
        "telegram_message_id"@];
    assert(keys[0] == "text"@ && keys[1] == "message"@ && keys[2] == "source"@ && keys[3]
        == "channel"@ && keys[4] == "sender"@ && keys[5] == "sender_id"@ && keys[6] == "from"@
        && keys[7] == "id"@ && keys[8] == "message_id"@ && keys[9] == "schema_version"@ && keys[10]
        == "schemaVersion"@ && keys[11] == "attachments"@ && keys[12] == "chat_id"@ && keys[13]
        == "telegram_message_id"@);
    let max = u32::MAX as nat;
    lemma_take_body_two(m, "text"@, "message"@);
    let m1 = take_body(m, seq!["text"@, "message"@]).1;
    lemma_take_text_two(m1, "source"@, "channel"@);
    let m2 = take_text(m1, seq!["source"@, "channel"@]).1;
    lemma_take_text_three(m2, "sender"@, "sender_id"@, "from"@);
    let m3 = take_text(m2, seq!["sender"@, "sender_id"@, "from"@]).1;
    lemma_take_text_two(m3, "id"@, "message_id"@);
    let m4 = take_text(m3, seq!["id"@, "message_id"@]).1;
    lemma_take_number_two(m4, "schema_version"@, "schemaVersion"@, max);
    let m5 = take_number(m4, seq!["schema_version"@, "schemaVersion"@], max).1;
    assert forall|i: int, j: int| 0 <= i < 14 && 0 <= j < 14 && i != j implies #[trigger] keys[i]
        != #[trigger] keys[j] by {}
    assert(keys[2] != keys[0] && keys[2] != keys[1] && keys[3] != keys[0] && keys[3] != keys[1]);
    assert(given(m1, "source"@) == given(m, "source"@));
    assert(given(m1, "channel"@) == given(m, "channel"@));
    assert forall|k: int| 4 <= k < 14 implies {
        &&& m2.contains_key(#[trigger] keys[k]) == m.contains_key(keys[k])
        &&& m.contains_key(keys[k]) ==> m2[keys[k]] == m[keys[k]]
    } by {
        assert(keys[k] != keys[0] && keys[k] != keys[1] && keys[k] != keys[2] && keys[k] != keys[3]);
    }
    assert forall|k: int| 7 <= k < 14 implies {
        &&& m3.contains_key(#[trigger] keys[k]) == m.contains_key(keys[k])
        &&& m.contains_key(keys[k]) ==> m3[keys[k]] == m[keys[k]]
    } by {
        assert(m2.contains_key(keys[k]) == m.contains_key(keys[k]));
        assert(keys[k] != keys[4] && keys[k] != keys[5] && keys[k] != keys[6]);
    }
    assert forall|k: int| 9 <= k < 14 implies {
        &&& m4.contains_key(#[trigger] keys[k]) == m.contains_key(keys[k])
        &&& m.contains_key(keys[k]) ==> m4[keys[k]] == m[keys[k]]
    } by {
        assert(m3.contains_key(keys[k]) == m.contains_key(keys[k]));
        assert(keys[k] != keys[7] && keys[k] != keys[8]);
    }
    assert(m5.contains_key(keys[11]) == m.contains_key(keys[11]) && (m.contains_key(keys[11])
        ==> m5[keys[11]] == m[keys[11]])) by {
        assert(m4.contains_key(keys[11]) == m.contains_key(keys[11]));
        assert(keys[11] != keys[9] && keys[11] != keys[10]);
    }
    assert(given(m2, "sender"@) == given(m, "sender"@)) by {
        assert(m2.contains_key(keys[4]) == m.contains_key(keys[4]));
    }
    assert(given(m2, "sender_id"@) == given(m, "sender_id"@)) by {
        assert(m2.contains_key(keys[5]) == m.contains_key(keys[5]));
    }
    assert(given(m2, "from"@) == given(m, "from"@)) by {
        assert(m2.contains_key(keys[6]) == m.contains_key(keys[6]));
    }
    assert(given(m3, "id"@) == given(m, "id"@)) by {
        assert(m3.contains_key(keys[7]) == m.contains_key(keys[7]));
    }
    assert(given(m3, "message_id"@) == given(m, "message_id"@)) by {
        assert(m3.contains_key(keys[8]) == m.contains_key(keys[8]));
    }
    assert(numbers(m4, "schema_version"@, max) == numbers(m, "schema_version"@, max)) by {
        assert(m4.contains_key(keys[9]) == m.contains_key(keys[9]));
    }
    assert(numbers(m4, "schemaVersion"@, max) == numbers(m, "schemaVersion"@, max)) by {
        assert(m4.contains_key(keys[10]) == m.contains_key(keys[10]));
    }
    assert(m4.contains_key(keys[12]) == m.contains_key(keys[12]));
    assert(m4.contains_key(keys[13]) == m.contains_key(keys[13]));
    match message_of(server, method, m) {
        Some(message) => {
            let left = m5.remove("attachments"@);
            assert forall|key: Seq<char>| #[trigger] left.contains_key(key) <==> m.contains_key(key)
                && !has_its_place(m, key) by {}
            assert forall|key: Seq<char>| #[trigger] left.contains_key(key) implies left[key]
                == m[key] by {}
            match m.contains_key("attachments"@) {
                true => {
                    match m["attachments"@] {
                        JsonModel::Array(items) => lemma_attachments(items),
                        _ => {},
                    }
                },
                false => {},
            }
            if left == Members::empty() {
                assert forall|key: Seq<char>|
                    #![trigger m.contains_key(key)]
                    m.contains_key(key) implies has_its_place(m, key) by {
                    assert(!left.contains_key(key));
                }
            } else {
                lemma_some_key(left);
                assert(without_a_place(m, left));
            }
            assert(kept(m, message.metadata));
        },
        None => {},
    }
}

/// Whether metadata is what is left of the members: those without a place of their own, unchanged, and
/// no metadata where there are none.
pub open spec fn kept(m: Members, metadata: Option<JsonModel>) -> bool {
    match metadata {
        None => forall|key: Seq<char>|
            #![trigger m.contains_key(key)]
            m.contains_key(key) ==> has_its_place(m, key),
        Some(tree) => tree is Object && without_a_place(m, tree->Object_0),
    }
}

/// Whether members are those of a notification without a place of their own, unchanged, and not none.
pub open spec fn without_a_place(m: Members, left: Members) -> bool {
    &&& forall|key: Seq<char>| #[trigger]
        left.contains_key(key) <==> m.contains_key(key) && !has_its_place(m, key)
    &&& forall|key: Seq<char>| #[trigger] left.contains_key(key) ==> left[key] == m[key]
    &&& exists|key: Seq<char>| #[trigger] left.contains_key(key)
}

/// Whether members are those of an attachment without a field of their own, unchanged, and not none.
pub open spec fn without_a_field(m: Members, left: Members) -> bool {
    &&& forall|key: Seq<char>| #[trigger]
        left.contains_key(key) <==> m.contains_key(key) && !has_its_field(m, key)
    &&& forall|key: Seq<char>| #[trigger] left.contains_key(key) ==> left[key] == m[key]
    &&& exists|key: Seq<char>| #[trigger] left.contains_key(key)
}

/// Whether an attachment is what an object describes.
pub open spec fn is_attachment(m: Members, a: AttachmentModel) -> bool {
    &&& given(m, "kind"@) ==> stands_for(m["kind"@], a.kind)
    &&& !given(m, "kind"@) && given(m, "type"@) ==> stands_for(m["type"@], a.kind)
    &&& !given(m, "kind"@) && !given(m, "type"@) ==> a.kind == "file"@
    &&& given(m, "path"@) ==> field_says(a.path, m["path"@])
    &&& !given(m, "path"@) ==> a.path is None
    &&& given(m, "mime_type"@) ==> field_says(a.mime_type, m["mime_type"@])
    &&& !given(m, "mime_type"@) && given(m, "mimeType"@) ==> field_says(a.mime_type, m["mimeType"@])
    &&& !given(m, "mime_type"@) && !given(m, "mimeType"@) ==> a.mime_type is None
    &&& given(m, "file_name"@) ==> field_says(a.file_name, m["file_name"@])
    &&& !given(m, "file_name"@) && given(m, "fileName"@) ==> field_says(a.file_name, m["fileName"@])
    &&& !given(m, "file_name"@) && !given(m, "fileName"@) ==> a.file_name is None
    &&& numbers(m, "file_size"@, u64::MAX as nat) ==> a.file_size is Some && spelled(
        m,
        "file_size"@,
        a.file_size->Some_0 as nat,
        u64::MAX as nat,
    )
    &&& !numbers(m, "file_size"@, u64::MAX as nat) && numbers(m, "fileSize"@, u64::MAX as nat)
        ==> a.file_size is Some && spelled(
        m,
        "fileSize"@,
        a.file_size->Some_0 as nat,
        u64::MAX as nat,
    )
    &&& !numbers(m, "file_size"@, u64::MAX as nat) && !numbers(m, "fileSize"@, u64::MAX as nat)
        ==> a.file_size is None
    &&& match a.metadata {
        None => forall|key: Seq<char>|
            #![trigger m.contains_key(key)]
            m.contains_key(key) ==> has_its_field(m, key),
        Some(tree) => tree is Object && without_a_field(m, tree->Object_0),
    }
}

/// Which members of an attachment are not kept in its metadata.
pub open spec fn has_its_field(m: Members, key: Seq<char>) -> bool {
    ||| key == "kind"@
    ||| key == "type"@ && !given(m, "kind"@)
    ||| key == "path"@
    ||| key == "mime_type"@
    ||| key == "mimeType"@ && !given(m, "mime_type"@)
    ||| key == "file_name"@
    ||| key == "fileName"@ && !given(m, "file_name"@)
    ||| key == "file_size"@
    ||| key == "fileSize"@ && !numbers(m, "file_size"@, u64::MAX as nat)
}

/// An attachment has what its object says, and keeps the rest of it as metadata.
pub proof fn an_attachment_is_what_its_object_describes(m: Members)
    ensures
        is_attachment(m, attachment_of(m)),
{
    lemma_attachment_keys();
    let keys = seq!["kind"@, "type"@, "path"@, "mime_type"@, "mimeType"@, "file_name"@, "fileName"@,
        "file_size"@, "fileSize"@];
    assert(keys[0] == "kind"@ && keys[1] == "type"@ && keys[2] == "path"@ && keys[3]
        == "mime_type"@ && keys[4] == "mimeType"@ && keys[5] == "file_name"@ && keys[6]
        == "fileName"@ && keys[7] == "file_size"@ && keys[8] == "fileSize"@);
    assert forall|i: int, j: int| 0 <= i < 9 && 0 <= j < 9 && i != j implies #[trigger] keys[i]
        != #[trigger] keys[j] by {}
    let max = u64::MAX as nat;
    lemma_take_text_two(m, "kind"@, "type"@);
    let m1 = take_text(m, seq!["kind"@, "type"@]).1;
    lemma_take_text_one(m1, "path"@);
    let m2 = take_text(m1, seq!["path"@]).1;
    lemma_take_text_two(m2, "mime_type"@, "mimeType"@);
    let m3 = take_text(m2, seq!["mime_type"@, "mimeType"@]).1;
    lemma_take_text_two(m3, "file_name"@, "fileName"@);
    let m4 = take_text(m3, seq!["file_name"@, "fileName"@]).1;
    lemma_take_number_two(m4, "file_size"@, "fileSize"@, max);
    let m5 = take_number(m4, seq!["file_size"@, "fileSize"@], max).1;
    assert forall|k: int| 2 <= k < 9 implies {
        &&& m1.contains_key(#[trigger] keys[k]) == m.contains_key(keys[k])
        &&& m.contains_key(keys[k]) ==> m1[keys[k]] == m[keys[k]]
    } by {
        assert(keys[k] != keys[0] && keys[k] != keys[1]);
    }
    assert forall|k: int| 3 <= k < 9 implies {
        &&& m2.contains_key(#[trigger] keys[k]) == m.contains_key(keys[k])
        &&& m.contains_key(keys[k]) ==> m2[keys[k]] == m[keys[k]]
    } by {
        assert(m1.contains_key(keys[k]) == m.contains_key(keys[k]));
        assert(keys[k] != keys[2]);
    }
    assert forall|k: int| 5 <= k < 9 implies {
        &&& m3.contains_key(#[trigger] keys[k]) == m.contains_key(keys[k])
        &&& m.contains_key(keys[k]) ==> m3[keys[k]] == m[keys[k]]
    } by {
        assert(m2.contains_key(keys[k]) == m.contains_key(keys[k]));
        assert(keys[k] != keys[3] && keys[k] != keys[4]);
    }
    assert forall|k: int| 7 <= k < 9 implies {
        &&& m4.contains_key(#[trigger] keys[k]) == m.contains_key(keys[k])
        &&& m.contains_key(keys[k]) ==> m4[keys[k]] == m[keys[k]]
    } by {
        assert(m3.contains_key(keys[k]) == m.contains_key(keys[k]));
        assert(keys[k] != keys[5] && keys[k] != keys[6]);
    }
    assert(m1.contains_key(keys[2]) == m.contains_key(keys[2]));
    assert(m2.contains_key(keys[3]) == m.contains_key(keys[3]));
    assert(m2.contains_key(keys[4]) == m.contains_key(keys[4]));
    assert(m3.contains_key(keys[5]) == m.contains_key(keys[5]));
    assert(m3.contains_key(keys[6]) == m.contains_key(keys[6]));
    assert(m4.contains_key(keys[7]) == m.contains_key(keys[7]));
    assert(m4.contains_key(keys[8]) == m.contains_key(keys[8]));
    assert forall|key: Seq<char>| #[trigger] m5.contains_key(key) <==> m.contains_key(key)
        && !has_its_field(m, key) by {}
    assert forall|key: Seq<char>| #[trigger] m5.contains_key(key) implies m5[key] == m[key] by {}
    if m5 == Members::empty() {
        assert forall|key: Seq<char>|
            #![trigger m.contains_key(key)]
            m.contains_key(key) implies has_its_field(m, key) by {
            assert(!m5.contains_key(key));
        }
    } else {
        lemma_some_key(m5);
        assert(without_a_field(m, m5));
    }
}

/// Whether a tree is an object.
pub open spec fn is_object(tree: JsonModel) -> bool {
    tree is Object
}

proof fn lemma_attachments(items: Seq<JsonModel>)
    ensures
        ({
            let objects = items.filter(|x: JsonModel| is_object(x));
            &&& attachments_in(items).len() == objects.len()
            &&& forall|i: int|
                0 <= i < objects.len() ==> objects[i] is Object && is_attachment(
                    objects[i]->Object_0,
                    #[trigger] attachments_in(items)[i],
                )
        }),
    decreases items.len(),
{
    reveal(Seq::filter);
    if items.len() > 0 {
        lemma_attachments(items.drop_last());
        match items.last() {
            JsonModel::Object(m) => an_attachment_is_what_its_object_describes(m),
            _ => {},
        }
    }
}

/// Whether a message is what the members of a notification say.
pub open spec fn reads(
    server: Seq<char>,
    method: Seq<char>,
    m: Members,
    message: MessageModel,
) -> bool {
    &&& message.server == server
    &&& speaks(m, "text"@) ==> stands_for(m["text"@], message.text)
    &&& !speaks(m, "text"@) ==> speaks(m, "message"@) && stands_for(m["message"@], message.text)
    &&& given(m, "source"@) ==> field_says(message.source, m["source"@])
    &&& !given(m, "source"@) && given(m, "channel"@) ==> field_says(message.source, m["channel"@])
    &&& !given(m, "source"@) && !given(m, "channel"@) ==> message.source is None
    &&& given(m, "sender"@) ==> field_says(message.sender, m["sender"@])
    &&& !given(m, "sender"@) && given(m, "sender_id"@) ==> field_says(
        message.sender,
        m["sender_id"@],
    )
    &&& !given(m, "sender"@) && !given(m, "sender_id"@) && given(m, "from"@) ==> field_says(
        message.sender,
        m["from"@],
    )
    &&& !given(m, "sender"@) && !given(m, "sender_id"@) && !given(m, "from"@)
        ==> message.sender is None
    &&& given(m, "id"@) ==> stands_for(m["id"@], message.id)
    &&& !given(m, "id"@) && given(m, "message_id"@) ==> stands_for(m["message_id"@], message.id)
    &&& !given(m, "id"@) && !given(m, "message_id"@) && m.contains_key("chat_id"@)
        && m.contains_key("telegram_message_id"@) ==> message.id == json_text(m["chat_id"@])
        + seq![':'] + json_text(m["telegram_message_id"@])
    &&& !given(m, "id"@) && !given(m, "message_id"@) && !(m.contains_key("chat_id"@)
        && m.contains_key("telegram_message_id"@)) ==> message.id == fallback_id(
        server,
        method,
        message.text,
    )
    &&& numbers(m, "schema_version"@, u32::MAX as nat) ==> spelled(
        m,
        "schema_version"@,
        message.schema_version as nat,
        u32::MAX as nat,
    )
    &&& !numbers(m, "schema_version"@, u32::MAX as nat) && numbers(
        m,
        "schemaVersion"@,
        u32::MAX as nat,
    ) ==> spelled(m, "schemaVersion"@, message.schema_version as nat, u32::MAX as nat)
    &&& !numbers(m, "schema_version"@, u32::MAX as nat) && !numbers(
        m,
        "schemaVersion"@,
        u32::MAX as nat,
    ) ==> message.schema_version == 1
    &&& m.contains_key("attachments"@) && m["attachments"@] is Array ==> {
        let objects = m["attachments"@]->Array_0.filter(|x: JsonModel| is_object(x));
        &&& message.attachments.len() == objects.len()
        &&& forall|i: int|
            0 <= i < objects.len() ==> objects[i] is Object && is_attachment(
                objects[i]->Object_0,
                #[trigger] message.attachments[i],
            )
    }
    &&& !(m.contains_key("attachments"@) && m["attachments"@] is Array)
        ==> message.attachments.len() == 0
    &&& kept(m, message.metadata)
}

/// What a notification announces is what its members say, in every field, and nothing is announced
/// that says nothing.
pub proof fn a_message_is_what_its_members_say(
    server: Seq<char>,
    method: Seq<char>,
    peer: Seq<char>,
    m: Members,
)
    ensures
        ({
            let announced = announced_message(server, method, peer, JsonModel::Object(m));
            &&& announced matches Some(message) ==> announces(method, peer) && reads(
                server,
                method,
                m,
                message,
            ) && !blank(message.text)
            &&& announces(method, peer) && (speaks(m, "text"@) || speaks(m, "message"@)) && announced
                is None ==> exists|text: Seq<char>|
                blank(text) && stands_for(
                    if speaks(m, "text"@) {
                        m["text"@]
                    } else {
                        m["message"@]
                    },
                    text,
                )
            &&& !speaks(m, "text"@) && !speaks(m, "message"@) ==> announced is None
        }),
{
    lemma_described(server, method, m);
    match described_message(server, method, JsonModel::Object(m)) {
        Some(message) => {
            trimming_keeps_what_is_said(message.text);
        },
        None => {},
    }
}

/// The text of a message is all that its sender wrote: where the text of a channel notification is a
/// text that is not blank, the message has exactly that text.
pub proof fn the_text_is_whole(
    server: Seq<char>,
    method: Seq<char>,
    peer: Seq<char>,
    m: Members,
    text: Seq<char>,
)
    requires
        announces(method, peer),
        !blank(text),
        says(m, "text"@, text) || !speaks(m, "text"@) && says(m, "message"@, text),
    ensures
        announced_message(server, method, peer, JsonModel::Object(m)) matches Some(message)
            && message.text == text,
{
    assert(text.len() > 0);
    assert(text != Seq::<char>::empty());
    lemma_described(server, method, m);
    trimming_keeps_what_is_said(text);
}

/// A blank text announces nothing, also where there is another member that could be the text.
pub proof fn a_blank_text_announces_nothing(
    server: Seq<char>,
    method: Seq<char>,
    peer: Seq<char>,
    m: Members,
    text: Seq<char>,
)
    requires
        blank(text),
        says(m, "text"@, text) || !speaks(m, "text"@) && says(m, "message"@, text),
    ensures
        announced_message(server, method, peer, JsonModel::Object(m)) is None,
{
    assert(text != Seq::<char>::empty());
    lemma_described(server, method, m);
    trimming_keeps_what_is_said(text);
}

/// An integer can be the text of a message: it is written in decimal.
pub proof fn a_number_can_be_the_text(
    server: Seq<char>,
    method: Seq<char>,
    peer: Seq<char>,
    m: Members,
    n: nat,
)
    requires
        announces(method, peer),
        counts(m, "text"@, n as int),
    ensures
        announced_message(server, method, peer, JsonModel::Object(m)) matches Some(message)
            && message.text == decimal(n),
{
    lemma_described(server, method, m);
    lemma_decimal_digits(n);
    trimming_keeps_what_is_said(decimal(n));
    let d = decimal(n);
    assert(!is_space(d[0]));
}

/// A notification whose parameters are a text announces that text, and nothing else.
pub proof fn a_plain_text_is_a_message(
    server: Seq<char>,
    method: Seq<char>,
    peer: Seq<char>,
    text: Seq<char>,
)
    requires
        announces(method, peer),
    ensures
        blank(text) <==> announced_message(server, method, peer, JsonModel::Text(text)) is None,
        !blank(text) ==> announced_message(server, method, peer, JsonModel::Text(text)) == Some(
            MessageModel {
                id: fallback_id(server, method, text),
                schema_version: 1,
                server,
                source: None,
                sender: None,
                text,
                attachments: seq![],
                metadata: None,
            },
        ),
{
    trimming_keeps_what_is_said(text);
}

/// Parameters that are neither a text nor an object, and methods that announce no messages, announce
/// nothing.
pub proof fn nothing_else_announces(
    server: Seq<char>,
    method: Seq<char>,
    peer: Seq<char>,
    params: JsonModel,
)
    requires
        !announces(method, peer) || !(params is Text || params is Object),
    ensures
        announced_message(server, method, peer, params) is None,
{
}

/// A message without an id of its own gets the hash of its server, its method and its whole text, in
/// sixteen hexadecimal digits.
pub proof fn fallback_ids_are_hashes(server: Seq<char>, method: Seq<char>, text: Seq<char>)
    ensures
        fallback_id(server, method, text).len() == 16,
        hex_value(fallback_id(server, method, text)) == DefaultHasher::spec_finish(
            text_hash_writes(server) + text_hash_writes(method) + text_hash_writes(text),
        ),
{
    let n = DefaultHasher::spec_finish(
        text_hash_writes(server) + text_hash_writes(method) + text_hash_writes(text),
    ) as nat;
    hexadecimal_digits_stand_for_the_number(n, 16);
    assert(vstd::arithmetic::power::pow(16, 16) == 0x1_0000_0000_0000_0000) by {
        reveal_with_fuel(vstd::arithmetic::power::pow, 17);
    }
}

/// What a member reads as: nothing where it is missing or `null`, and otherwise a text that stands for
/// it.
pub proof fn readings_stand_for_their_members(value: Option<JsonModel>)
    ensures
        text_reading(value) is None <==> value is None || value == Some(JsonModel::Null),
        text_reading(value) matches Some(text) ==> stands_for(value->Some_0, text),
{
}

/// What number a member reads as: an integer from zero to the limit is itself, and a text is the number
/// that it spells.
pub proof fn number_readings_are_exact(n: int, text: Seq<char>, max: nat)
    ensures
        0 <= n <= max ==> number_reading(Some(JsonModel::Integer(n)), max) == Some(n as nat),
        !(0 <= n <= max) ==> number_reading(Some(JsonModel::Integer(n)), max) is None,
        number_reading(Some(JsonModel::Text(text)), max) == parsed(text, max),
        number_reading(None, max) is None,
        number_reading(Some(JsonModel::Null), max) is None,
{
}

} // verus!
