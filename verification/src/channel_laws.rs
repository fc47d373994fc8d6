//! What holds of every message that a channel brings.

use crate::channel_delivery::{decision, ChannelDeliveryDecision, DeliveryModel, McpServerChannelConfig};
use crate::channel_event::{
    announced_message, is_channel_method, peer_method, readable_message, take_body, take_number,
    take_text, AttachmentModel, Members, MessageModel,
};
use crate::channel_format::{attachment_lines, display_text, envelope, local_images};
use crate::channel_relay::{relayed, state_after, RelayModel};
use crate::json::JsonModel;
use crate::text::{trimmed, PathStyle};
use vstd::prelude::*;

verus! {

broadcast use vstd::string::group_string_axioms;

/// Whether a member of a notification has a place of its own in the message, outside its metadata.
pub open spec fn is_message_key(key: Seq<char>) -> bool {
    ||| key == "text"@
    ||| key == "message"@
    ||| key == "source"@
    ||| key == "channel"@
    ||| key == "sender"@
    ||| key == "sender_id"@
    ||| key == "from"@
    ||| key == "id"@
    ||| key == "message_id"@
    ||| key == "schema_version"@
    ||| key == "schemaVersion"@
    ||| key == "attachments"@
}

/// Whether the member under a key is still there, with the same value.
spec fn leaves(before: Members, after: Members, key: Seq<char>) -> bool {
    before.contains_key(key) ==> after.contains_key(key) && after[key] == before[key]
}

proof fn lemma_take_text(members: Members, keys: Seq<Seq<char>>, key: Seq<char>)
    requires
        !keys.contains(key),
    ensures
        leaves(members, take_text(members, keys).1, key),
    decreases keys.len(),
{
    if keys.len() > 0 {
        assert(keys[0] != key);
        assert(!keys.drop_first().contains(key)) by {
            assert forall|i: int| 0 <= i < keys.drop_first().len() implies keys.drop_first()[i]
                != key by {
                assert(keys.drop_first()[i] == keys[i + 1]);
            }
        }
        lemma_take_text(members.remove(keys[0]), keys.drop_first(), key);
    }
}

proof fn lemma_take_body(members: Members, keys: Seq<Seq<char>>, key: Seq<char>)
    requires
        !keys.contains(key),
    ensures
        leaves(members, take_body(members, keys).1, key),
    decreases keys.len(),
{
    if keys.len() > 0 {
        assert(keys[0] != key);
        assert(!keys.drop_first().contains(key)) by {
            assert forall|i: int| 0 <= i < keys.drop_first().len() implies keys.drop_first()[i]
                != key by {
                assert(keys.drop_first()[i] == keys[i + 1]);
            }
        }
        lemma_take_body(members.remove(keys[0]), keys.drop_first(), key);
    }
}

proof fn lemma_take_number(members: Members, keys: Seq<Seq<char>>, max: nat, key: Seq<char>)
    requires
        !keys.contains(key),
    ensures
        leaves(members, take_number(members, keys, max).1, key),
    decreases keys.len(),
{
    if keys.len() > 0 {
        assert(keys[0] != key);
        assert(!keys.drop_first().contains(key)) by {
            assert forall|i: int| 0 <= i < keys.drop_first().len() implies keys.drop_first()[i]
                != key by {
                assert(keys.drop_first()[i] == keys[i + 1]);
            }
        }
        lemma_take_number(members.remove(keys[0]), keys.drop_first(), max, key);
    }
}

/// A notification of another method announces no message.
pub proof fn other_methods_announce_nothing(
    server: Seq<char>,
    method: Seq<char>,
    peer: Seq<char>,
    params: JsonModel,
)
    requires
        !is_channel_method(method, peer),
    ensures
        announced_message(server, method, peer, params) is None,
{
}

/// Each of the three methods announces what its parameters describe.
pub proof fn every_channel_method_announces(
    server: Seq<char>,
    method: Seq<char>,
    peer: Seq<char>,
    params: JsonModel,
)
    requires
        method == "notifications/codex/channel"@ || method == peer_method(peer) || method
            == "notifications/channel"@,
    ensures
        announced_message(server, method, peer, params) == readable_message(server, method, params),
{
}

/// A message that is announced says something, and says it for the server that announced it.
pub proof fn a_message_speaks_for_its_server(
    server: Seq<char>,
    method: Seq<char>,
    peer: Seq<char>,
    params: JsonModel,
)
    requires
        announced_message(server, method, peer, params) is Some,
    ensures
        announced_message(server, method, peer, params)->Some_0.server == server,
        trimmed(announced_message(server, method, peer, params)->Some_0.text).len() > 0,
        is_channel_method(method, peer),
{
}

/// What a notification says beyond the message is kept in the metadata, whatever it is.
pub proof fn routing_members_are_kept(
    server: Seq<char>,
    method: Seq<char>,
    peer: Seq<char>,
    members: Members,
    key: Seq<char>,
)
    requires
        announced_message(server, method, peer, JsonModel::Object(members)) is Some,
        members.contains_key(key),
        !is_message_key(key),
    ensures
        announced_message(
            server,
            method,
            peer,
            JsonModel::Object(members),
        )->Some_0.metadata matches Some(JsonModel::Object(kept)) && kept.contains_key(key)
            && kept[key] == members[key],
{
    let body_keys = seq!["text"@, "message"@];
    let source_keys = seq!["source"@, "channel"@];
    let sender_keys = seq!["sender"@, "sender_id"@, "from"@];
    let id_keys = seq!["id"@, "message_id"@];
    let version_keys = seq!["schema_version"@, "schemaVersion"@];
    let m1 = take_body(members, body_keys).1;
    let m2 = take_text(m1, source_keys).1;
    let m3 = take_text(m2, sender_keys).1;
    let m4 = take_text(m3, id_keys).1;
    let m5 = take_number(m4, version_keys, u32::MAX as nat).1;
    lemma_take_body(members, body_keys, key);
    lemma_take_text(m1, source_keys, key);
    lemma_take_text(m2, sender_keys, key);
    lemma_take_text(m3, id_keys, key);
    lemma_take_number(m4, version_keys, u32::MAX as nat, key);
    assert(m1.contains_key(key) && m1[key] == members[key]);
    assert(m2.contains_key(key) && m2[key] == m1[key]);
    assert(m3.contains_key(key) && m3[key] == m2[key]);
    assert(m4.contains_key(key) && m4[key] == m3[key]);
    assert(m5.contains_key(key) && m5[key] == m4[key]);
    assert(m5.remove("attachments"@).contains_key(key));
}

/// The envelope that goes to the model has the message's id, text, routing and attachments in it.
pub proof fn the_envelope_is_whole(message: MessageModel)
    ensures
        ({
            let members = envelope(message)->Object_0;
            &&& envelope(message) is Object
            &&& members["id"@] == JsonModel::Text(message.id)
            &&& members["server"@] == JsonModel::Text(message.server)
            &&& members["text"@] == JsonModel::Text(message.text)
            &&& message.metadata matches Some(metadata) ==> members["metadata"@] == metadata
            &&& members["attachments"@] matches JsonModel::Array(items) && items.len()
                == message.attachments.len()
        }),
{
    reveal_strlit("type");
    reveal_strlit("schema_version");
    reveal_strlit("id");
    reveal_strlit("server");
    reveal_strlit("source");
    reveal_strlit("sender");
    reveal_strlit("text");
    reveal_strlit("attachments");
    reveal_strlit("metadata");
    assert("id"@.len() == 2 && "server"@.len() == 6 && "text"@.len() == 4 && "attachments"@.len()
        == 11 && "metadata"@.len() == 8 && "source"@.len() == 6 && "sender"@.len() == 6);
    assert("sender"@[5] == 'r' && "server"@[3] == 'v' && "sender"@[3] == 'd' && "source"@[3] == 'r');
    assert("text"@[1] == 'e' && "type"@[1] == 'y');
}

/// What a notification says beyond the message reaches the model in the envelope.
pub proof fn routing_reaches_the_model(
    server: Seq<char>,
    method: Seq<char>,
    peer: Seq<char>,
    members: Members,
    key: Seq<char>,
)
    requires
        announced_message(server, method, peer, JsonModel::Object(members)) is Some,
        members.contains_key(key),
        !is_message_key(key),
    ensures
        envelope(
            announced_message(server, method, peer, JsonModel::Object(members))->Some_0,
        )->Object_0["metadata"@] matches JsonModel::Object(kept) && kept.contains_key(key)
            && kept[key] == members[key],
{
    routing_members_are_kept(server, method, peer, members, key);
    the_envelope_is_whole(
        announced_message(server, method, peer, JsonModel::Object(members))->Some_0,
    );
}

/// Whether two attachments differ at most in what the reader does not see: the media type, the size
/// and the metadata.
pub open spec fn look_alike(a: AttachmentModel, b: AttachmentModel) -> bool {
    a.kind == b.kind && a.path == b.path && a.file_name == b.file_name
}

/// What the reader sees of a message does not depend on its routing: neither on its id, its schema
/// version and its metadata, nor on the media types, sizes and metadata of its attachments.
pub proof fn the_display_hides_routing(
    message: MessageModel,
    id: Seq<char>,
    schema_version: u32,
    metadata: Option<JsonModel>,
    attachments: Seq<AttachmentModel>,
    paths: PathStyle,
)
    requires
        attachments.len() == message.attachments.len(),
        forall|i: int|
            0 <= i < attachments.len() ==> look_alike(
                #[trigger] attachments[i],
                message.attachments[i],
            ),
    ensures
        display_text(
            MessageModel { id, schema_version, metadata, attachments, ..message },
            paths,
        ) == display_text(message, paths),
{
    lemma_lines_look_alike(attachments, message.attachments, paths);
}

proof fn lemma_lines_look_alike(
    a: Seq<AttachmentModel>,
    b: Seq<AttachmentModel>,
    paths: PathStyle,
)
    requires
        a.len() == b.len(),
        forall|i: int| 0 <= i < a.len() ==> look_alike(#[trigger] a[i], b[i]),
    ensures
        attachment_lines(a, paths) == attachment_lines(b, paths),
    decreases a.len(),
{
    if a.len() > 0 {
        assert(look_alike(a[a.len() - 1], b[b.len() - 1]));
        assert forall|i: int| 0 <= i < a.drop_last().len() implies look_alike(
            #[trigger] a.drop_last()[i],
            b.drop_last()[i],
        ) by {
            assert(look_alike(a[i], b[i]));
        }
        lemma_lines_look_alike(a.drop_last(), b.drop_last(), paths);
    }
}

/// A notification whose message was forwarded is refused as a duplicate when it is repeated, also
/// where it names no id.
pub proof fn a_repeated_notification_is_refused(
    state: DeliveryModel,
    config: McpServerChannelConfig,
    announced: Option<MessageModel>,
    now: u128,
    later: u128,
)
    requires
        state.capacity > 0,
        relayed(state, config, announced, now) is Forward,
    ensures
        relayed(state_after(state, config, announced, now), config, announced, later)
            == (RelayModel::Refuse {
            verdict: ChannelDeliveryDecision::Duplicate,
            message_id: announced->Some_0.id,
        }),
{
    let id = announced->Some_0.id;
    let seen = state_after(state, config, announced, now).seen;
    assert(seen.last() == id);
    assert(seen.contains(id));
}

/// A message is forwarded as it was announced, and only where its server may send messages.
pub proof fn messages_are_forwarded_unchanged(
    state: DeliveryModel,
    config: McpServerChannelConfig,
    announced: Option<MessageModel>,
    now: u128,
)
    requires
        relayed(state, config, announced, now) is Forward,
    ensures
        config.enabled,
        announced == Some(relayed(state, config, announced, now)->message),
        decision(state, config, announced->Some_0.id, now) == ChannelDeliveryDecision::Accept,
{
}

/// The images of a message are numbered from one on, without gaps, and there are no more of them
/// than attachments.
pub proof fn images_are_numbered_from_one(message: MessageModel, i: int)
    requires
        0 <= i < local_images(message.attachments).len(),
    ensures
        local_images(message.attachments)[i].label_number == i + 1,
        local_images(message.attachments).len() <= message.attachments.len(),
{
    lemma_images(message.attachments);
}

proof fn lemma_images(attachments: Seq<AttachmentModel>)
    ensures
        local_images(attachments).len() <= attachments.len(),
        forall|i: int|
            0 <= i < local_images(attachments).len() ==> (#[trigger] local_images(
                attachments,
            )[i]).label_number == i + 1,
    decreases attachments.len(),
{
    if attachments.len() > 0 {
        lemma_images(attachments.drop_last());
    }
}

} // verus!
