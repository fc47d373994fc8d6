//! How a channel message is written for the model and for the reader.

use crate::channel_event::{
    AttachmentModel, ChannelMessageAttachment, ChannelMessageEvent, MessageModel,
};
use crate::json::JsonModel;
use crate::json_text::{
    array_value, json_text, members_tree, null_value, object_value, pretty_text, pretty_value_text,
    text_value, unsigned_value, value_text, value_tree, value_trees,
};
use crate::text::{file_name, path_file_name, same_text, starts_with, PathStyle};
use vstd::prelude::*;

verus! {

broadcast use vstd::string::group_string_axioms;

/// What stands before the JSON of a message.
pub const CHANNEL_MESSAGE_START: &'static str = "Inbound channel message:\n```json\n";

/// What stands after the JSON of a message.
pub const CHANNEL_MESSAGE_END: &'static str = "\n```";

/// A text that may be missing, as JSON.
pub open spec fn optional_text_tree(text: Option<Seq<char>>) -> JsonModel {
    match text {
        Some(t) => JsonModel::Text(t),
        None => JsonModel::Null,
    }
}

/// A map with the value of a key set where there is one.
pub open spec fn with_optional(
    members: Map<Seq<char>, JsonModel>,
    key: Seq<char>,
    value: Option<JsonModel>,
) -> Map<Seq<char>, JsonModel> {
    match value {
        Some(tree) => members.insert(key, tree),
        None => members,
    }
}

/// A text that may be missing, as JSON that may be missing.
pub open spec fn text_tree_if(text: Option<Seq<char>>) -> Option<JsonModel> {
    match text {
        Some(t) => Some(JsonModel::Text(t)),
        None => None,
    }
}

/// An attachment as JSON; what it does not say is left out.
pub open spec fn attachment_tree(attachment: AttachmentModel) -> JsonModel {
    let m0 = Map::<Seq<char>, JsonModel>::empty().insert(
        "kind"@,
        JsonModel::Text(attachment.kind),
    );
    let m1 = with_optional(m0, "path"@, text_tree_if(attachment.path));
    let m2 = with_optional(m1, "mime_type"@, text_tree_if(attachment.mime_type));
    let m3 = with_optional(m2, "file_name"@, text_tree_if(attachment.file_name));
    let m4 = with_optional(
        m3,
        "file_size"@,
        match attachment.file_size {
            Some(n) => Some(JsonModel::Integer(n as int)),
            None => None,
        },
    );
    JsonModel::Object(with_optional(m4, "metadata"@, attachment.metadata))
}

/// The JSON envelope in which a message goes to the model.
pub open spec fn envelope(message: MessageModel) -> JsonModel {
    JsonModel::Object(
        map![
            "type"@ => JsonModel::Text("channel_message"@),
            "schema_version"@ => JsonModel::Integer(message.schema_version as int),
            "id"@ => JsonModel::Text(message.id),
            "server"@ => JsonModel::Text(message.server),
            "source"@ => optional_text_tree(message.source),
            "sender"@ => optional_text_tree(message.sender),
            "text"@ => JsonModel::Text(message.text),
            "attachments"@ => JsonModel::Array(
                message.attachments.map_values(|a: AttachmentModel| attachment_tree(a)),
            ),
            "metadata"@ => match message.metadata {
                Some(tree) => tree,
                None => JsonModel::Null,
            },
        ],
    )
}

/// Adds a member to those of an object.
pub(crate) fn push_member(members: &mut Vec<(String, serde_json::Value)>, key: &str, value: serde_json::Value)
    ensures
        members_tree(final(members)@) == members_tree(old(members)@).insert(key@, value_tree(value)),
{
    let ghost before = members@;
    members.push((key.to_owned(), value));
    assert(members@.drop_last() =~= before);
}

/// Adds a text to the members of an object where there is one.
pub(crate) fn push_text_if(
    members: &mut Vec<(String, serde_json::Value)>,
    key: &str,
    text: &Option<String>,
)
    ensures
        members_tree(final(members)@) == with_optional(
            members_tree(old(members)@),
            key@,
            text_tree_if(text.deep_view()),
        ),
{
    match text {
        Some(text) => push_member(members, key, text_value(text.as_str())),
        None => {},
    }
}

/// An attachment as JSON.
fn attachment_value(attachment: &ChannelMessageAttachment) -> (value: serde_json::Value)
    ensures
        value_tree(value) == attachment_tree(attachment@),
{
    let mut members: Vec<(String, serde_json::Value)> = Vec::new();
    push_member(&mut members, "kind", text_value(attachment.kind.as_str()));
    push_text_if(&mut members, "path", &attachment.path);
    push_text_if(&mut members, "mime_type", &attachment.mime_type);
    push_text_if(&mut members, "file_name", &attachment.file_name);
    match attachment.file_size {
        Some(n) => push_member(&mut members, "file_size", unsigned_value(n)),
        None => {},
    }
    match &attachment.metadata {
        Some(json) => push_member(&mut members, "metadata", json.to_value()),
        None => {},
    }
    object_value(members)
}

/// A text that may be missing, as JSON.
fn optional_text_value(text: &Option<String>) -> (value: serde_json::Value)
    ensures
        value_tree(value) == optional_text_tree(text.deep_view()),
{
    match text {
        Some(text) => text_value(text.as_str()),
        None => null_value(),
    }
}

/// The attachments of a message as JSON.
fn attachments_value(attachments: &Vec<ChannelMessageAttachment>) -> (value: serde_json::Value)
    ensures
        value_tree(value) == JsonModel::Array(
            attachments.deep_view().map_values(|a: AttachmentModel| attachment_tree(a)),
        ),
{
    let n: usize = attachments.len();
    let mut values: Vec<serde_json::Value> = Vec::new();
    let mut i: usize = 0;
    while i < n
        invariant
            i <= n,
            n == attachments@.len(),
            values@.len() == i,
            forall|k: int|
                0 <= k < i ==> value_tree(#[trigger] values@[k]) == attachment_tree(
                    attachments@[k]@,
                ),
        decreases n - i,
    {
        values.push(attachment_value(&attachments[i]));
        i = i + 1;
    }
    assert(value_trees(values@) =~= attachments.deep_view().map_values(
        |a: AttachmentModel| attachment_tree(a),
    ));
    array_value(values)
}

/// The JSON envelope in which a message goes to the model.
pub fn envelope_value(event: &ChannelMessageEvent) -> (value: serde_json::Value)
    ensures
        value_tree(value) == envelope(event@),
{
    let mut members: Vec<(String, serde_json::Value)> = Vec::new();
    push_member(&mut members, "type", text_value("channel_message"));
    push_member(&mut members, "schema_version", unsigned_value(event.schema_version as u64));
    push_member(&mut members, "id", text_value(event.id.as_str()));
    push_member(&mut members, "server", text_value(event.server.as_str()));
    push_member(&mut members, "source", optional_text_value(&event.source));
    push_member(&mut members, "sender", optional_text_value(&event.sender));
    push_member(&mut members, "text", text_value(event.text.as_str()));
    push_member(&mut members, "attachments", attachments_value(&event.attachments));
    let metadata = match &event.metadata {
        Some(json) => json.to_value(),
        None => null_value(),
    };
    push_member(&mut members, "metadata", metadata);
    object_value(members)
}

/// The JSON envelope of a message on one line.
pub fn envelope_text(event: &ChannelMessageEvent) -> (text: String)
    ensures
        text@ == json_text(envelope(event@)),
{
    value_text(&envelope_value(event))
}

/// A JSON text between the markers of a channel message.
pub open spec fn marked(json: Seq<char>) -> Seq<char> {
    CHANNEL_MESSAGE_START@ + json + CHANNEL_MESSAGE_END@
}

/// The JSON text of a message between the markers.
pub fn mark_message(json: &str) -> (text: String)
    ensures
        text@ == marked(json@),
{
    let mut text = CHANNEL_MESSAGE_START.to_owned();
    text.append(json);
    text.append(CHANNEL_MESSAGE_END);
    text
}

/// A message as the model reads it: its envelope over several lines, or on one line where there is
/// no other.
pub open spec fn model_text(message: MessageModel) -> Seq<char> {
    marked(
        match pretty_text(envelope(message)) {
            Some(text) => text,
            None => json_text(envelope(message)),
        },
    )
}

/// A message as the model reads it.
pub fn format_channel_message_for_model(ev: &ChannelMessageEvent) -> (text: String)
    ensures
        text@ == model_text(ev@),
{
    let value = envelope_value(ev);
    let json = match pretty_value_text(&value) {
        Some(text) => text,
        None => value_text(&value),
    };
    mark_message(json.as_str())
}

/// What an attachment is called: its own name, else the name in its path, else its kind.
pub open spec fn attachment_label(attachment: AttachmentModel, paths: PathStyle) -> Seq<char> {
    match attachment.file_name {
        Some(name) => name,
        None => match attachment.path {
            Some(path) => match path_file_name(paths, path) {
                Some(name) => name,
                None => attachment.kind,
            },
            None => attachment.kind,
        },
    }
}

/// The line for an attachment.
pub open spec fn attachment_line(attachment: AttachmentModel, paths: PathStyle) -> Seq<char> {
    let label = "\n- "@ + attachment_label(attachment, paths);
    match attachment.path {
        Some(path) => label + ": "@ + path,
        None => label,
    }
}

/// The lines for attachments, in order.
pub open spec fn attachment_lines(attachments: Seq<AttachmentModel>, paths: PathStyle) -> Seq<char>
    decreases attachments.len(),
{
    if attachments.len() == 0 {
        seq![]
    } else {
        attachment_lines(attachments.drop_last(), paths) + attachment_line(
            attachments.last(),
            paths,
        )
    }
}

/// Where a message comes from and what it says.
pub open spec fn display_head(message: MessageModel) -> Seq<char> {
    let source = match message.source {
        Some(source) => source,
        None => message.server,
    };
    let from = match message.sender {
        Some(sender) => if sender.len() > 0 {
            " message from "@ + sender + ":\n"@
        } else {
            " message:\n"@
        },
        None => " message:\n"@,
    };
    "Inbound "@ + source + from + message.text
}

/// A message as the reader sees it.
pub open spec fn display_text(message: MessageModel, paths: PathStyle) -> Seq<char> {
    if message.attachments.len() == 0 {
        display_head(message)
    } else {
        display_head(message) + "\n\nAttachments:"@ + attachment_lines(
            message.attachments,
            paths,
        )
    }
}

/// Adds the line for an attachment.
fn append_attachment_line(
    text: &mut String,
    attachment: &ChannelMessageAttachment,
    paths: PathStyle,
)
    ensures
        final(text)@ == old(text)@ + attachment_line(attachment@, paths),
{
    let label: &str = match &attachment.file_name {
        Some(name) => name.as_str(),
        None => match &attachment.path {
            Some(path) => match file_name(path.as_str(), paths) {
                Some(name) => name,
                None => attachment.kind.as_str(),
            },
            None => attachment.kind.as_str(),
        },
    };
    text.append("\n- ");
    text.append(label);
    match &attachment.path {
        Some(path) => {
            text.append(": ");
            text.append(path.as_str());
        },
        None => {},
    }
    assert(text@ =~= old(text)@ + attachment_line(attachment@, paths));
}

/// A message as the reader sees it, on a platform that writes paths as `paths` says.
pub fn format_channel_message_for_display(ev: &ChannelMessageEvent, paths: PathStyle) -> (text:
    String)
    ensures
        text@ == display_text(ev@, paths),
{
    let mut text = "Inbound ".to_owned();
    match &ev.source {
        Some(source) => text.append(source.as_str()),
        None => text.append(ev.server.as_str()),
    }
    let mut named: bool = false;
    match &ev.sender {
        Some(sender) => {
            if !sender.as_str().is_empty() {
                text.append(" message from ");
                text.append(sender.as_str());
                text.append(":\n");
                named = true;
            }
        },
        None => {},
    }
    if !named {
        text.append(" message:\n");
    }
    text.append(ev.text.as_str());
    assert(text@ =~= display_head(ev@));
    let n: usize = ev.attachments.len();
    if n == 0 {
        return text;
    }
    text.append("\n\nAttachments:");
    let ghost head = text@;
    let ghost all = ev@.attachments;
    let mut i: usize = 0;
    assert(all.take(0) =~= seq![]);
    assert(text@ =~= head + attachment_lines(all.take(0), paths));
    while i < n
        invariant
            i <= n,
            n == ev.attachments@.len(),
            all == ev@.attachments,
            text@ == head + attachment_lines(all.take(i as int), paths),
        decreases n - i,
    {
        let ghost before = text@;
        append_attachment_line(&mut text, &ev.attachments[i], paths);
        proof {
            assert(all.take(i + 1).drop_last() =~= all.take(i as int));
            assert(all.take(i + 1).last() == ev.attachments@[i as int]@);
            assert(text@ =~= head + attachment_lines(all.take(i + 1), paths));
        }
        i = i + 1;
    }
    assert(all.take(n as int) =~= all);
    text
}

/// An image of a message that is handed to the model: its number among the images, and its file.
#[derive(Debug)]
pub struct LocalImageAttachment {
    pub label_number: usize,
    pub path: String,
}

/// An image of a message that is handed to the model.
pub struct LocalImageModel {
    pub label_number: nat,
    pub path: Seq<char>,
}

impl View for LocalImageAttachment {
    type V = LocalImageModel;

    open spec fn view(&self) -> LocalImageModel {
        LocalImageModel { label_number: self.label_number as nat, path: self.path@ }
    }
}

impl DeepView for LocalImageAttachment {
    type V = LocalImageModel;

    open spec fn deep_view(&self) -> LocalImageModel {
        self.view()
    }
}

/// Whether an attachment is an image, by its media type or its kind.
pub open spec fn is_image(attachment: AttachmentModel) -> bool {
    ||| attachment.mime_type matches Some(mime_type) && "image/"@.is_prefix_of(mime_type)
    ||| attachment.kind == "photo"@
    ||| attachment.kind == "image"@
}

/// The images with a file among attachments, numbered from one.
pub open spec fn local_images(attachments: Seq<AttachmentModel>) -> Seq<LocalImageModel>
    decreases attachments.len(),
{
    if attachments.len() == 0 {
        seq![]
    } else {
        let before = local_images(attachments.drop_last());
        let last = attachments.last();
        match last.path {
            Some(path) => if is_image(last) {
                before.push(LocalImageModel { label_number: before.len() + 1, path })
            } else {
                before
            },
            None => before,
        }
    }
}

/// Whether an attachment is an image.
pub fn is_channel_image_attachment(attachment: &ChannelMessageAttachment) -> (image: bool)
    ensures
        image == is_image(attachment@),
{
    match &attachment.mime_type {
        Some(mime_type) => {
            if starts_with(mime_type.as_str(), "image/") {
                return true;
            }
        },
        None => {},
    }
    same_text(attachment.kind.as_str(), "photo") || same_text(attachment.kind.as_str(), "image")
}

/// The images with a file among the attachments of a message.
pub fn channel_message_local_images(ev: &ChannelMessageEvent) -> (images: Vec<LocalImageAttachment>)
    ensures
        images.deep_view() == local_images(ev@.attachments),
{
    let n: usize = ev.attachments.len();
    let mut images: Vec<LocalImageAttachment> = Vec::new();
    let ghost all = ev@.attachments;
    let mut i: usize = 0;
    assert(all.take(0) =~= seq![]);
    assert(images.deep_view() =~= seq![]);
    while i < n
        invariant
            i <= n,
            n == ev.attachments@.len(),
            all == ev@.attachments,
            images@.len() <= i,
            images.deep_view() == local_images(all.take(i as int)),
        decreases n - i,
    {
        let attachment = &ev.attachments[i];
        let ghost before = images.deep_view();
        proof {
            assert(all.take(i + 1).drop_last() =~= all.take(i as int));
            assert(all.take(i + 1).last() == attachment@);
        }
        match &attachment.path {
            Some(path) => {
                if is_channel_image_attachment(attachment) {
                    let image = LocalImageAttachment {
                        label_number: images.len() + 1,
                        path: path.clone(),
                    };
                    images.push(image);
                    assert(images.deep_view() =~= before.push(image@));
                }
            },
            None => {},
        }
        i = i + 1;
    }
    assert(all.take(n as int) =~= all);
    images
}

} // verus!
