//! Channel messages, and how a channel notification is read.

use crate::json::{
    items_model, json_model, lemma_items_model, number_as_integer, Json, JsonModel, JsonObject,
};
use crate::json_text::{json_text, value_tree};
use crate::numerals::{hex_digits, hex_text, parse_unsigned, parsed};
use crate::text::{same_text, trim, trimmed};
use std::collections::hash_map::DefaultHasher;
use std::hash::{Hash, Hasher};
use vstd::prelude::*;
use vstd::std_specs::hash::DefaultHasherAdditionalSpecFns;

verus! {

broadcast use vstd::string::group_string_axioms;

/// A file that came with a channel message.
#[derive(Debug)]
pub struct ChannelMessageAttachment {
    pub kind: String,
    pub path: Option<String>,
    pub mime_type: Option<String>,
    pub file_name: Option<String>,
    pub file_size: Option<u64>,
    pub metadata: Option<Json>,
}

/// A message that a channel server delivered.
#[derive(Debug)]
pub struct ChannelMessageEvent {
    pub id: String,
    pub schema_version: u32,
    pub server: String,
    pub source: Option<String>,
    pub sender: Option<String>,
    pub text: String,
    pub attachments: Vec<ChannelMessageAttachment>,
    pub metadata: Option<Json>,
}

/// What an attachment says.
#[verifier::ext_equal]
pub struct AttachmentModel {
    pub kind: Seq<char>,
    pub path: Option<Seq<char>>,
    pub mime_type: Option<Seq<char>>,
    pub file_name: Option<Seq<char>>,
    pub file_size: Option<u64>,
    pub metadata: Option<JsonModel>,
}

/// What a channel message says.
#[verifier::ext_equal]
pub struct MessageModel {
    pub id: Seq<char>,
    pub schema_version: u32,
    pub server: Seq<char>,
    pub source: Option<Seq<char>>,
    pub sender: Option<Seq<char>>,
    pub text: Seq<char>,
    pub attachments: Seq<AttachmentModel>,
    pub metadata: Option<JsonModel>,
}

impl View for ChannelMessageAttachment {
    type V = AttachmentModel;

    open spec fn view(&self) -> AttachmentModel {
        AttachmentModel {
            kind: self.kind@,
            path: self.path.deep_view(),
            mime_type: self.mime_type.deep_view(),
            file_name: self.file_name.deep_view(),
            file_size: self.file_size,
            metadata: self.metadata.deep_view(),
        }
    }
}

impl DeepView for ChannelMessageAttachment {
    type V = AttachmentModel;

    open spec fn deep_view(&self) -> AttachmentModel {
        self.view()
    }
}

impl View for ChannelMessageEvent {
    type V = MessageModel;

    open spec fn view(&self) -> MessageModel {
        MessageModel {
            id: self.id@,
            schema_version: self.schema_version,
            server: self.server@,
            source: self.source.deep_view(),
            sender: self.sender.deep_view(),
            text: self.text@,
            attachments: self.attachments.deep_view(),
            metadata: self.metadata.deep_view(),
        }
    }
}

impl DeepView for ChannelMessageEvent {
    type V = MessageModel;

    open spec fn deep_view(&self) -> MessageModel {
        self.view()
    }
}

/// The members of a JSON object by key.
pub type Members = Map<Seq<char>, JsonModel>;

/// The value of a key, if there is one.
pub open spec fn member(members: Members, key: Seq<char>) -> Option<JsonModel> {
    if members.contains_key(key) {
        Some(members[key])
    } else {
        None
    }
}

/// A member read as text: a string as it is, anything else but `null` as JSON text.
pub open spec fn text_reading(value: Option<JsonModel>) -> Option<Seq<char>> {
    match value {
        None => None,
        Some(JsonModel::Null) => None,
        Some(JsonModel::Text(text)) => if text.len() > 0 {
            Some(text)
        } else {
            Some(json_text(JsonModel::Text(text)))
        },
        Some(other) => Some(json_text(other)),
    }
}

/// A member read as the text of a message: an empty string is no text.
pub open spec fn body_reading(value: Option<JsonModel>) -> Option<Seq<char>> {
    if value == Some(JsonModel::Text(seq![])) {
        None
    } else {
        text_reading(value)
    }
}

/// A member read as a number of at most `max`: an integer, or a string that spells one.
pub open spec fn number_reading(value: Option<JsonModel>, max: nat) -> Option<nat> {
    match value {
        Some(JsonModel::Integer(n)) => if 0 <= n <= max {
            Some(n as nat)
        } else {
            None
        },
        Some(JsonModel::Text(text)) => parsed(text, max),
        _ => None,
    }
}

/// Takes members out in the order of `keys` until one reads as text.
pub open spec fn take_text(members: Members, keys: Seq<Seq<char>>) -> (Option<Seq<char>>, Members)
    decreases keys.len(),
{
    if keys.len() == 0 {
        (None, members)
    } else {
        let rest = members.remove(keys[0]);
        match text_reading(member(members, keys[0])) {
            Some(text) => (Some(text), rest),
            None => take_text(rest, keys.drop_first()),
        }
    }
}

/// Takes members out in the order of `keys` until one reads as the text of a message.
pub open spec fn take_body(members: Members, keys: Seq<Seq<char>>) -> (Option<Seq<char>>, Members)
    decreases keys.len(),
{
    if keys.len() == 0 {
        (None, members)
    } else {
        let rest = members.remove(keys[0]);
        match body_reading(member(members, keys[0])) {
            Some(text) => (Some(text), rest),
            None => take_body(rest, keys.drop_first()),
        }
    }
}

/// Takes members out in the order of `keys` until one reads as a number of at most `max`.
pub open spec fn take_number(members: Members, keys: Seq<Seq<char>>, max: nat) -> (
    Option<nat>,
    Members,
)
    decreases keys.len(),
{
    if keys.len() == 0 {
        (None, members)
    } else {
        let rest = members.remove(keys[0]);
        match number_reading(member(members, keys[0]), max) {
            Some(n) => (Some(n), rest),
            None => take_number(rest, keys.drop_first(), max),
        }
    }
}

/// An object as metadata: none when there are no members left.
pub open spec fn leftover(members: Members) -> Option<JsonModel> {
    if members == Members::empty() {
        None
    } else {
        Some(JsonModel::Object(members))
    }
}

/// The attachment that an object describes.
pub open spec fn attachment_of(members: Members) -> AttachmentModel {
    let (kind, m1) = take_text(members, seq!["kind"@, "type"@]);
    let (path, m2) = take_text(m1, seq!["path"@]);
    let (mime_type, m3) = take_text(m2, seq!["mime_type"@, "mimeType"@]);
    let (file_name, m4) = take_text(m3, seq!["file_name"@, "fileName"@]);
    let (file_size, m5) = take_number(m4, seq!["file_size"@, "fileSize"@], u64::MAX as nat);
    AttachmentModel {
        kind: match kind {
            Some(text) => text,
            None => "file"@,
        },
        path,
        mime_type,
        file_name,
        file_size: match file_size {
            Some(n) => Some(n as u64),
            None => None,
        },
        metadata: leftover(m5),
    }
}

/// The attachments that the objects among the items of an array describe, in order.
pub open spec fn attachments_in(items: Seq<JsonModel>) -> Seq<AttachmentModel>
    decreases items.len(),
{
    if items.len() == 0 {
        seq![]
    } else {
        let before = attachments_in(items.drop_last());
        match items.last() {
            JsonModel::Object(members) => before.push(attachment_of(members)),
            _ => before,
        }
    }
}

/// The attachments of a message: none unless the member is an array.
pub open spec fn attachments_of(value: Option<JsonModel>) -> Seq<AttachmentModel> {
    match value {
        Some(JsonModel::Array(items)) => attachments_in(items),
        _ => seq![],
    }
}

/// The bytes that hashing a text writes, one piece for each write.
pub uninterp spec fn text_hash_writes(text: Seq<char>) -> Seq<Seq<u8>>;

/// `<str as Hash>::hash`: feeds the hasher pieces that depend on the text alone.
#[verifier::external_body]
fn hash_text(text: &str, hasher: &mut DefaultHasher)
    ensures
        final(hasher)@ == old(hasher)@ + text_hash_writes(text@),
{
    text.hash(hasher);
}

/// The id of a message that names none: the hash of where it came from and of its text.
pub open spec fn fallback_id(server: Seq<char>, method: Seq<char>, text: Seq<char>) -> Seq<char> {
    hex_digits(
        DefaultHasher::spec_finish(
            text_hash_writes(server) + text_hash_writes(method) + text_hash_writes(text),
        ) as nat,
        16,
    )
}

/// The id that the routing members of a message spell out.
pub open spec fn routing_id(members: Members) -> Option<Seq<char>> {
    if members.contains_key("chat_id"@) && members.contains_key("telegram_message_id"@) {
        Some(
            json_text(members["chat_id"@]) + seq![':'] + json_text(
                members["telegram_message_id"@],
            ),
        )
    } else {
        None
    }
}

/// The method under which servers made for another client, the peer, announce their messages.
pub open spec fn peer_method(peer: Seq<char>) -> Seq<char> {
    "notifications/"@ + peer + "/channel"@
}

/// Whether a notification method announces a channel message. There are three of them: one for this
/// client, one for its peer and one for any client.
pub open spec fn is_channel_method(method: Seq<char>, peer: Seq<char>) -> bool {
    ||| method == "notifications/codex/channel"@
    ||| method == peer_method(peer)
    ||| method == "notifications/channel"@
}

/// The message that an object describes, before its text is looked at.
pub open spec fn message_of(
    server: Seq<char>,
    method: Seq<char>,
    members: Members,
) -> Option<MessageModel> {
    let (body, m1) = take_body(members, seq!["text"@, "message"@]);
    let (source, m2) = take_text(m1, seq!["source"@, "channel"@]);
    let (sender, m3) = take_text(m2, seq!["sender"@, "sender_id"@, "from"@]);
    let (id, m4) = take_text(m3, seq!["id"@, "message_id"@]);
    let (version, m5) = take_number(m4, seq!["schema_version"@, "schemaVersion"@], u32::MAX as nat);
    match body {
        None => None,
        Some(text) => Some(
            MessageModel {
                id: match id {
                    Some(own) => own,
                    None => match routing_id(m4) {
                        Some(routed) => routed,
                        None => fallback_id(server, method, text),
                    },
                },
                schema_version: match version {
                    Some(n) => n as u32,
                    None => 1,
                },
                server,
                source,
                sender,
                text,
                attachments: attachments_of(member(m5, "attachments"@)),
                metadata: leftover(m5.remove("attachments"@)),
            },
        ),
    }
}

/// The message that the parameters of a notification describe, before its text is looked at.
pub open spec fn described_message(
    server: Seq<char>,
    method: Seq<char>,
    params: JsonModel,
) -> Option<MessageModel> {
    match params {
        JsonModel::Text(text) => Some(
            MessageModel {
                id: fallback_id(server, method, text),
                schema_version: 1,
                server,
                source: None,
                sender: None,
                text,
                attachments: seq![],
                metadata: None,
            },
        ),
        JsonModel::Object(members) => message_of(server, method, members),
        _ => None,
    }
}

/// The message that the parameters of a notification describe: none for parameters of another shape,
/// and none for a text without anything but white space.
pub open spec fn readable_message(
    server: Seq<char>,
    method: Seq<char>,
    params: JsonModel,
) -> Option<MessageModel> {
    match described_message(server, method, params) {
        Some(message) => if trimmed(message.text).len() > 0 {
            Some(message)
        } else {
            None
        },
        None => None,
    }
}

/// The message that a notification announces. There is none for any other method.
pub open spec fn announced_message(
    server: Seq<char>,
    method: Seq<char>,
    peer: Seq<char>,
    params: JsonModel,
) -> Option<MessageModel> {
    if is_channel_method(method, peer) {
        readable_message(server, method, params)
    } else {
        None
    }
}

/// The tree of parameters that may be missing.
pub open spec fn params_tree(params: Option<serde_json::Value>) -> JsonModel {
    match params {
        Some(value) => value_tree(value),
        None => JsonModel::Null,
    }
}

/// The tree of parameters that may be missing.
pub open spec fn params_model(params: Option<Json>) -> JsonModel {
    match params {
        Some(json) => json@,
        None => JsonModel::Null,
    }
}

/// Takes a member out and reads it as text.
pub fn take_string(object: &mut JsonObject, key: &str) -> (text: Option<String>)
    ensures
        final(object)@ == old(object)@.remove(key@),
        text.deep_view() == text_reading(member(old(object)@, key@)),
{
    match object.remove(key) {
        Some(Json::Null) => None,
        Some(Json::Text(value)) => {
            if value.as_str().is_empty() {
                assert(value@ =~= seq![]);
                Some(Json::Text(value).to_text())
            } else {
                Some(value)
            }
        },
        Some(other) => Some(other.to_text()),
        None => None,
    }
}

/// Takes a member out and reads it as a number of 32 bits.
pub fn take_u32(object: &mut JsonObject, key: &str) -> (number: Option<u32>)
    ensures
        final(object)@ == old(object)@.remove(key@),
        match number {
            Some(n) => number_reading(member(old(object)@, key@), u32::MAX as nat) == Some(
                n as nat,
            ),
            None => number_reading(member(old(object)@, key@), u32::MAX as nat) is None,
        },
{
    match take_number_up_to(object, key, u32::MAX as u64) {
        Some(n) => Some(n as u32),
        None => None,
    }
}

/// Takes a member out and reads it as a number of 64 bits.
pub fn take_u64(object: &mut JsonObject, key: &str) -> (number: Option<u64>)
    ensures
        final(object)@ == old(object)@.remove(key@),
        match number {
            Some(n) => number_reading(member(old(object)@, key@), u64::MAX as nat) == Some(
                n as nat,
            ),
            None => number_reading(member(old(object)@, key@), u64::MAX as nat) is None,
        },
{
    take_number_up_to(object, key, u64::MAX)
}

fn take_number_up_to(object: &mut JsonObject, key: &str, max: u64) -> (number: Option<u64>)
    ensures
        final(object)@ == old(object)@.remove(key@),
        match number {
            Some(n) => number_reading(member(old(object)@, key@), max as nat) == Some(n as nat),
            None => number_reading(member(old(object)@, key@), max as nat) is None,
        },
{
    match object.remove(key) {
        Some(Json::Unsigned(n)) => {
            if n <= max {
                Some(n)
            } else {
                None
            }
        },
        Some(Json::Signed(n)) => {
            if n >= 0 && n as u64 <= max {
                Some(n as u64)
            } else {
                None
            }
        },
        Some(Json::Number(number)) => match number_as_integer(&number) {
            Some(n) => {
                if n >= 0 && n <= max as i128 {
                    Some(n as u64)
                } else {
                    None
                }
            },
            None => None,
        },
        Some(Json::Text(text)) => parse_unsigned(text.as_str(), max),
        _ => None,
    }
}

/// The id of a message that names none.
pub fn fallback_channel_message_id(server_name: &str, method: &str, text: &str) -> (id: String)
    ensures
        id@ == fallback_id(server_name@, method@, text@),
{
    let mut hasher = DefaultHasher::new();
    hash_text(server_name, &mut hasher);
    hash_text(method, &mut hasher);
    hash_text(text, &mut hasher);
    assert(hasher@ =~= text_hash_writes(server_name@) + text_hash_writes(method@)
        + text_hash_writes(text@));
    hex_text(hasher.finish())
}

/// Takes the first of two members that reads as text, as `take_text` says.
fn take_either_string(object: &mut JsonObject, first: &str, second: &str) -> (text: Option<String>)
    ensures
        (text.deep_view(), final(object)@) == take_text(old(object)@, seq![first@, second@]),
{
    proof {
        reveal_with_fuel(take_text, 3);
        assert(seq![first@, second@].drop_first() =~= seq![second@]);
        assert(seq![second@].drop_first() =~= seq![]);
    }
    match take_string(object, first) {
        Some(text) => Some(text),
        None => take_string(object, second),
    }
}

/// Takes a member out and reads it as the text of a message.
fn take_body_string(object: &mut JsonObject, key: &str) -> (text: Option<String>)
    ensures
        final(object)@ == old(object)@.remove(key@),
        text.deep_view() == body_reading(member(old(object)@, key@)),
{
    match object.get(key) {
        Some(Json::Text(text)) => {
            if text.as_str().is_empty() {
                assert(text@ =~= seq![]);
                object.remove(key);
                return None;
            }
        },
        _ => {},
    }
    take_string(object, key)
}

/// The object as metadata.
fn into_metadata(object: JsonObject) -> (metadata: Option<Json>)
    ensures
        metadata.deep_view() == leftover(object@),
{
    if object.is_empty() {
        None
    } else {
        Some(Json::Object(object))
    }
}

/// The attachment that an object describes.
fn take_attachment(members: JsonObject) -> (attachment: ChannelMessageAttachment)
    ensures
        attachment@ == attachment_of(members@),
{
    let mut object = members;
    let kind = match take_either_string(&mut object, "kind", "type") {
        Some(kind) => kind,
        None => "file".to_owned(),
    };
    proof {
        reveal_with_fuel(take_text, 2);
        reveal_with_fuel(take_number, 3);
        assert(seq!["path"@].drop_first() =~= seq![]);
        assert(seq!["file_size"@, "fileSize"@].drop_first() =~= seq!["fileSize"@]);
        assert(seq!["fileSize"@].drop_first() =~= seq![]);
    }
    let path = take_string(&mut object, "path");
    let mime_type = take_either_string(&mut object, "mime_type", "mimeType");
    let file_name = take_either_string(&mut object, "file_name", "fileName");
    let file_size = match take_u64(&mut object, "file_size") {
        Some(n) => Some(n),
        None => take_u64(&mut object, "fileSize"),
    };
    let metadata = into_metadata(object);
    ChannelMessageAttachment { kind, path, mime_type, file_name, file_size, metadata }
}

/// Takes the attachments of a message out of the object that describes it.
pub fn take_channel_attachments(object: &mut JsonObject) -> (attachments: Vec<
    ChannelMessageAttachment,
>)
    ensures
        final(object)@ == old(object)@.remove("attachments"@),
        attachments.deep_view() == attachments_of(member(old(object)@, "attachments"@)),
{
    let mut attachments: Vec<ChannelMessageAttachment> = Vec::new();
    let items = match object.remove("attachments") {
        Some(Json::Array(items)) => items,
        _ => {
            assert(attachments.deep_view() =~= seq![]);
            return attachments;
        },
    };
    let ghost all = items@;
    let ghost trees = items_model(all);
    proof {
        lemma_items_model(all);
        assert(trees.take(0) =~= seq![]);
        assert(attachments.deep_view() =~= seq![]);
    }
    for item in rest: items
        invariant
            rest.seq() == all,
            trees == items_model(all),
            trees.len() == all.len(),
            forall|i: int| 0 <= i < all.len() ==> #[trigger] trees[i] == json_model(all[i]),
            attachments.deep_view() == attachments_in(trees.take(rest.index() as int)),
    {
        let ghost at = rest.index() as int;
        let ghost before = attachments.deep_view();
        proof {
            assert(trees.take(at + 1).drop_last() =~= trees.take(at));
            assert(trees.take(at + 1).last() == trees[at]);
        }
        match item {
            Json::Object(members) => {
                let attachment = take_attachment(members);
                attachments.push(attachment);
                assert(attachments.deep_view() =~= before.push(attachment@));
            },
            _ => {},
        }
    }
    assert(trees.take(all.len() as int) =~= trees);
    attachments
}

/// The id that the routing members of a message spell out.
fn routed_message_id(object: &JsonObject) -> (id: Option<String>)
    ensures
        id.deep_view() == routing_id(object@),
{
    let chat_id = match object.get("chat_id") {
        Some(value) => value,
        None => {
            return None;
        },
    };
    let message_id = match object.get("telegram_message_id") {
        Some(value) => value,
        None => {
            return None;
        },
    };
    let mut id = chat_id.to_text();
    id.push(':');
    id.append(message_id.to_text().as_str());
    assert(id@ =~= json_text(chat_id@) + seq![':'] + json_text(message_id@));
    Some(id)
}

/// The message that an object describes, before its text is looked at.
fn message_from_object(server_name: &str, method: &str, members: JsonObject) -> (message: Option<
    ChannelMessageEvent,
>)
    ensures
        message.deep_view() == message_of(server_name@, method@, members@),
{
    let mut object = members;
    proof {
        reveal_with_fuel(take_body, 3);
        reveal_with_fuel(take_text, 4);
        reveal_with_fuel(take_number, 3);
        assert(seq!["text"@, "message"@].drop_first() =~= seq!["message"@]);
        assert(seq!["message"@].drop_first() =~= seq![]);
        assert(seq!["sender"@, "sender_id"@, "from"@].drop_first() =~= seq!["sender_id"@, "from"@]);
        assert(seq!["sender_id"@, "from"@].drop_first() =~= seq!["from"@]);
        assert(seq!["from"@].drop_first() =~= seq![]);
        assert(seq!["schema_version"@, "schemaVersion"@].drop_first() =~= seq!["schemaVersion"@]);
        assert(seq!["schemaVersion"@].drop_first() =~= seq![]);
    }
    let body = match take_body_string(&mut object, "text") {
        Some(text) => Some(text),
        None => take_body_string(&mut object, "message"),
    };
    let text = match body {
        Some(text) => text,
        None => {
            return None;
        },
    };
    let source = take_either_string(&mut object, "source", "channel");
    let sender = match take_string(&mut object, "sender") {
        Some(sender) => Some(sender),
        None => take_either_string(&mut object, "sender_id", "from"),
    };
    let own_id = take_either_string(&mut object, "id", "message_id");
    let id = match own_id {
        Some(id) => id,
        None => match routed_message_id(&object) {
            Some(id) => id,
            None => fallback_channel_message_id(server_name, method, text.as_str()),
        },
    };
    let version = match take_u32(&mut object, "schema_version") {
        Some(n) => Some(n),
        None => take_u32(&mut object, "schemaVersion"),
    };
    let schema_version: u32 = match version {
        Some(n) => n,
        None => 1,
    };
    let attachments = take_channel_attachments(&mut object);
    let metadata = into_metadata(object);
    Some(
        ChannelMessageEvent {
            id,
            schema_version,
            server: server_name.to_owned(),
            source,
            sender,
            text,
            attachments,
            metadata,
        },
    )
}

/// The message that plain parameters describe.
fn message_in(server_name: &str, method: &str, params: Option<Json>) -> (message: Option<
    ChannelMessageEvent,
>)
    ensures
        message.deep_view() == readable_message(server_name@, method@, params_model(params)),
{
    let described = match params {
        Some(Json::Text(text)) => {
            let attachments: Vec<ChannelMessageAttachment> = Vec::new();
            assert(attachments.deep_view() =~= seq![]);
            Some(
                ChannelMessageEvent {
                    id: fallback_channel_message_id(server_name, method, text.as_str()),
                    schema_version: 1,
                    server: server_name.to_owned(),
                    source: None,
                    sender: None,
                    text,
                    attachments,
                    metadata: None,
                },
            )
        },
        Some(Json::Object(members)) => message_from_object(server_name, method, members),
        _ => None,
    };
    match described {
        Some(message) => {
            if trim(message.text.as_str()).is_empty() {
                None
            } else {
                Some(message)
            }
        },
        None => None,
    }
}

/// Whether a notification method announces a channel message.
pub fn is_channel_notification(method: &str, peer: &str) -> (announces: bool)
    ensures
        announces == is_channel_method(method@, peer@),
{
    if same_text(method, "notifications/codex/channel") || same_text(
        method,
        "notifications/channel",
    ) {
        return true;
    }
    let mut expected = "notifications/".to_owned();
    expected.append(peer);
    expected.append("/channel");
    same_text(method, expected.as_str())
}

/// The message that a notification with plain parameters announces.
pub fn message_from_params(
    server_name: &str,
    method: &str,
    peer: &str,
    params: Option<Json>,
) -> (message: Option<ChannelMessageEvent>)
    ensures
        message.deep_view() == announced_message(
            server_name@,
            method@,
            peer@,
            params_model(params),
        ),
{
    if is_channel_notification(method, peer) {
        message_in(server_name, method, params)
    } else {
        None
    }
}

/// The message that a notification announces. `peer` is the name of the client whose channel method
/// is served beside this client's own.
pub fn channel_message_event(
    server_name: &str,
    method: &str,
    peer: &str,
    params: Option<serde_json::Value>,
) -> (message: Option<ChannelMessageEvent>)
    ensures
        message.deep_view() == announced_message(server_name@, method@, peer@, params_tree(params)),
{
    let plain = match params {
        Some(value) => Some(Json::from_value(value)),
        None => None,
    };
    message_from_params(server_name, method, peer, plain)
}

} // verus!
