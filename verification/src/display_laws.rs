//! What a reader and the model see of a channel message, in terms of what the message says.

use crate::channel_event::{AttachmentModel, MessageModel};
use crate::channel_format::{
    attachment_line, attachment_lines, attachment_tree, display_text, envelope, is_image,
    local_images, model_text, LocalImageModel,
};
use crate::fragments::{context_text, fits_context};
use crate::json::JsonModel;
use crate::json_text::{json_text, pretty_text};
use crate::text::{
    component_len, component_name, is_verbatim, last_component, path_file_name, prefix_len, utf8_len,
    PathStyle, Separators,
};
use vstd::prelude::*;

verus! {

broadcast use vstd::string::group_string_axioms;

/// Whether a text holds neither separator of a path.
pub open spec fn undivided(name: Seq<char>) -> bool {
    forall|i: int| 0 <= i < name.len() ==> #[trigger] name[i] != '/' && name[i] != '\\'
}

/// Whether a text can be the name of a file: it is not empty, not divided, and none of the two names
/// that every directory has.
pub open spec fn names_a_file(name: Seq<char>) -> bool {
    name.len() > 0 && undivided(name) && name != seq!['.'] && name != seq!['.', '.']
}

proof fn lemma_last_component(separators: Separators, before: Seq<char>, name: Seq<char>)
    requires
        undivided(name),
        before.len() == 0 || before.last() == '/' && separators != Separators::Backslash
            || before.last() == '\\' && separators != Separators::Slash,
    ensures
        last_component(separators, before + name) == name,
    decreases name.len(),
{
    let path = before + name;
    if name.len() > 0 {
        assert(path.drop_last() =~= before + name.drop_last());
        assert(path.last() == name.last());
        assert(name[name.len() - 1] == name.last());
        assert forall|i: int| 0 <= i < name.drop_last().len() implies #[trigger] name.drop_last()[i]
            != '/' && name.drop_last()[i] != '\\' by {
            assert(name.drop_last()[i] == name[i]);
        }
        lemma_last_component(separators, before, name.drop_last());
        assert(name.drop_last().push(name.last()) =~= name);
    } else {
        assert(path =~= before);
        assert(name =~= Seq::<char>::empty());
    }
}

proof fn lemma_component_name(separators: Separators, before: Seq<char>, name: Seq<char>)
    requires
        names_a_file(name),
        before.len() == 0 || before.last() == '/' && separators != Separators::Backslash
            || before.last() == '\\' && separators != Separators::Slash,
    ensures
        component_name(separators, before + name) == Some(name),
{
    lemma_last_component(separators, before, name);
}

/// The name in a path is what stands behind its last slash.
pub proof fn the_name_stands_behind_the_slash(directory: Seq<char>, name: Seq<char>)
    requires
        names_a_file(name),
    ensures
        path_file_name(PathStyle::Unix, directory + seq!['/'] + name) == Some(name),
        path_file_name(PathStyle::Unix, name) == Some(name),
{
    let before = directory + seq!['/'];
    assert(before.last() == '/');
    lemma_component_name(Separators::Slash, before, name);
    let none: Seq<char> = seq![];
    lemma_component_name(Separators::Slash, none, name);
    assert(none + name =~= name);
}

/// The name in a path on a drive is what stands behind its last separator.
pub proof fn the_name_stands_behind_the_drive(letter: char, directory: Seq<char>, name: Seq<char>)
    requires
        'A' <= letter <= 'Z' || 'a' <= letter <= 'z',
        names_a_file(name),
    ensures
        path_file_name(
            PathStyle::Windows,
            seq![letter, ':', '\\'] + directory + seq!['\\'] + name,
        ) == Some(name),
        path_file_name(PathStyle::Windows, seq![letter, ':', '\\'] + name) == Some(name),
{
    let far = seq![letter, ':', '\\'] + directory + seq!['\\'] + name;
    let before = directory + seq!['\\'];
    assert(far[0] == letter && far[1] == ':' && far[2] == '\\');
    assert(far.skip(2)[0] == '\\');
    assert(far.skip(2).skip(1) =~= before + name);
    assert(before.last() == '\\');
    lemma_component_name(Separators::Either, before, name);
    let near = seq![letter, ':', '\\'] + name;
    let none: Seq<char> = seq![];
    assert(near[0] == letter && near[1] == ':' && near[2] == '\\');
    assert(near.skip(2)[0] == '\\');
    assert(near.skip(2).skip(1) =~= none + name);
    lemma_component_name(Separators::Either, none, name);
}

/// A path on a drive that starts where the drive stands, or on no drive at all, has a name too.
pub proof fn the_name_needs_no_root(letter: char, name: Seq<char>)
    requires
        'A' <= letter <= 'Z' || 'a' <= letter <= 'z',
        names_a_file(name),
    ensures
        path_file_name(PathStyle::Windows, seq![letter, ':'] + name) == Some(name),
        name.len() < 2 || name[1] != ':' ==> path_file_name(PathStyle::Windows, name) == Some(name),
{
    let none: Seq<char> = seq![];
    lemma_component_name(Separators::Either, none, name);
    assert(none + name =~= name);
    let path = seq![letter, ':'] + name;
    assert(path[0] == letter && path[1] == ':');
    assert(path.skip(2) =~= name);
    assert(name[0] != '/' && name[0] != '\\');
    assert(name.skip(0) =~= name);
}

/// The name in a verbatim path on a drive is what stands behind its last backslash.
pub proof fn the_name_stands_in_a_verbatim_path(
    letter: char,
    directory: Seq<char>,
    name: Seq<char>,
)
    requires
        'A' <= letter <= 'Z' || 'a' <= letter <= 'z',
        names_a_file(name),
    ensures
        path_file_name(
            PathStyle::Windows,
            seq!['\\', '\\', '?', '\\', letter, ':', '\\'] + directory + seq!['\\'] + name,
        ) == Some(name),
{
    let path = seq!['\\', '\\', '?', '\\', letter, ':', '\\'] + directory + seq!['\\'] + name;
    let before = directory + seq!['\\'];
    let rest = path.skip(4);
    assert(path[0] == '\\' && path[1] == '\\' && path[2] == '?' && path[3] == '\\');
    assert(rest[0] == letter && rest[1] == ':' && rest[2] == '\\');
    assert(path.skip(6)[0] == '\\');
    assert(path.skip(6).skip(1) =~= before + name);
    assert(before.last() == '\\');
    lemma_component_name(Separators::Backslash, before, name);
}

proof fn lemma_component_ends(part: Seq<char>, rest: Seq<char>)
    requires
        undivided(part),
        rest.len() > 0 ==> rest[0] == '\\',
    ensures
        component_len(Separators::Either, part + rest) == part.len(),
    decreases part.len(),
{
    let all = part + rest;
    if part.len() > 0 {
        assert(all[0] == part[0]);
        assert(all.drop_first() =~= part.drop_first() + rest);
        assert forall|i: int| 0 <= i < part.drop_first().len() implies #[trigger] part.drop_first()[i]
            != '/' && part.drop_first()[i] != '\\' by {
            assert(part.drop_first()[i] == part[i + 1]);
        }
        lemma_component_ends(part.drop_first(), rest);
    }
}

/// The name in a path on a share of the network is what stands behind the share; the share itself has
/// no name.
pub proof fn the_name_stands_behind_the_share(
    server: Seq<char>,
    share: Seq<char>,
    name: Seq<char>,
)
    requires
        names_a_file(name),
        server.len() > 0 && undivided(server),
        share.len() > 0 && undivided(share),
        server != seq!['?'] && server != seq!['.'],
    ensures
        path_file_name(
            PathStyle::Windows,
            seq!['\\', '\\'] + server + seq!['\\'] + share + seq!['\\'] + name,
        ) == Some(name),
        path_file_name(
            PathStyle::Windows,
            seq!['\\', '\\'] + server + seq!['\\'] + share,
        ) is None,
{
    let none: Seq<char> = seq![];
    let end = seq!['\\'] + name;
    lemma_component_name(Separators::Either, none, name);
    assert(none + name =~= name);
    lemma_share(server, share, end);
    lemma_share(server, share, none);
    let far = seq!['\\', '\\'] + server + seq!['\\'] + share + seq!['\\'] + name;
    let near = seq!['\\', '\\'] + server + seq!['\\'] + share;
    assert(far =~= seq!['\\', '\\'] + server + seq!['\\'] + share + end);
    assert(near =~= seq!['\\', '\\'] + server + seq!['\\'] + share + none);
    let n = 2 + server.len() + 1 + share.len();
    assert(far.skip(n as int) =~= end);
    assert(end.skip(1) =~= name);
    assert(near.skip(n as int) =~= none);
}

proof fn lemma_share(server: Seq<char>, share: Seq<char>, end: Seq<char>)
    requires
        server.len() > 0 && undivided(server),
        share.len() > 0 && undivided(share),
        server != seq!['?'] && server != seq!['.'],
        end.len() > 0 ==> end[0] == '\\',
    ensures
        ({
            let path = seq!['\\', '\\'] + server + seq!['\\'] + share + end;
            &&& prefix_len(path) == 2 + server.len() + 1 + share.len()
            &&& !is_verbatim(path)
        }),
{
    let path = seq!['\\', '\\'] + server + seq!['\\'] + share + end;
    let behind = seq!['\\'] + share + end;
    assert(path.skip(2) =~= server + behind);
    assert(path[0] == '\\' && path[1] == '\\');
    assert(path[2] == server[0]);
    if server.len() == 1 {
        assert(server =~= seq![server[0]]);
    } else {
        assert(path[3] == server[1]);
    }
    lemma_component_ends(server, behind);
    assert((server + behind).skip(server.len() as int + 1) =~= share + end);
    lemma_component_ends(share, end);
}

/// A slash at the end of a path does not count.
pub proof fn a_final_slash_does_not_count(path: Seq<char>)
    ensures
        path_file_name(PathStyle::Unix, path.push('/')) == path_file_name(PathStyle::Unix, path),
{
    assert(path.push('/').drop_last() =~= path);
    assert(path.push('/').last() == '/');
}

/// A component at the end of a path that stands for the directory itself does not count.
pub proof fn a_final_dot_does_not_count(path: Seq<char>)
    ensures
        path_file_name(PathStyle::Unix, path + seq!['/', '.']) == path_file_name(
            PathStyle::Unix,
            path,
        ),
{
    let before = path.push('/');
    let dot = seq!['.'];
    let whole = path + seq!['/', '.'];
    assert(before.last() == '/');
    lemma_last_component(Separators::Slash, before, dot);
    assert(before + dot =~= whole);
    assert(whole.take(whole.len() - 1) =~= before);
    a_final_slash_does_not_count(path);
}

/// The parent of a directory has no name.
pub proof fn a_parent_has_no_name(directory: Seq<char>)
    ensures
        path_file_name(PathStyle::Unix, directory + seq!['/', '.', '.']) is None,
        path_file_name(PathStyle::Unix, seq!['.', '.']) is None,
        path_file_name(PathStyle::Unix, seq!['/']) is None,
        path_file_name(PathStyle::Unix, seq![]) is None,
{
    let before = directory + seq!['/'];
    let none: Seq<char> = seq![];
    let dots = seq!['.', '.'];
    assert(before.last() == '/');
    lemma_last_component(Separators::Slash, before, dots);
    lemma_last_component(Separators::Slash, none, dots);
    assert(before + dots =~= directory + seq!['/', '.', '.']);
    assert(none + dots =~= dots);
    assert(dots != seq!['.']);
    assert(seq!['/'].drop_last() =~= none);
    assert(seq!['/'].last() == '/');
}

/// The line of an attachment that has a name of its own has that name, whatever its path is.
pub proof fn an_attachment_goes_by_its_name(attachment: AttachmentModel, paths: PathStyle)
    requires
        attachment.file_name is Some,
    ensures
        attachment.path is None ==> attachment_line(attachment, paths) == "\n- "@
            + attachment.file_name->Some_0,
        attachment.path is Some ==> attachment_line(attachment, paths) == "\n- "@
            + attachment.file_name->Some_0 + ": "@ + attachment.path->Some_0,
{
}

/// The line of an attachment without a name of its own has the name in its path, and its kind where
/// there is no such name.
pub proof fn an_attachment_without_a_name_goes_by_its_path(
    attachment: AttachmentModel,
    paths: PathStyle,
)
    requires
        attachment.file_name is None,
    ensures
        attachment.path is None ==> attachment_line(attachment, paths) == "\n- "@ + attachment.kind,
        attachment.path matches Some(path) ==> match path_file_name(paths, path) {
            Some(name) => attachment_line(attachment, paths) == "\n- "@ + name + ": "@ + path,
            None => attachment_line(attachment, paths) == "\n- "@ + attachment.kind + ": "@ + path,
        },
{
}

/// What the reader sees of a message: where it comes from, who sent it and all of its text.
pub open spec fn announces_text(
    shown: Seq<char>,
    from: Seq<char>,
    sender: Option<Seq<char>>,
    text: Seq<char>,
) -> bool {
    &&& sender is Some && sender->Some_0.len() > 0 ==> shown == "Inbound "@ + from
        + " message from "@ + sender->Some_0 + ":\n"@ + text
    &&& sender is None || sender->Some_0.len() == 0 ==> shown == "Inbound "@ + from
        + " message:\n"@ + text
}

/// A message without attachments is shown with its source, its sender and all of its text.
pub proof fn the_reader_sees_the_text(message: MessageModel, paths: PathStyle)
    requires
        message.attachments.len() == 0,
    ensures
        message.source is Some ==> announces_text(
            display_text(message, paths),
            message.source->Some_0,
            message.sender,
            message.text,
        ),
        message.source is None ==> announces_text(
            display_text(message, paths),
            message.server,
            message.sender,
            message.text,
        ),
{
    let source = match message.source {
        Some(source) => source,
        None => message.server,
    };
    match message.sender {
        Some(who) => {
            assert("Inbound "@ + source + (" message from "@ + who + ":\n"@) + message.text
                =~= "Inbound "@ + source + " message from "@ + who + ":\n"@ + message.text);
        },
        None => {},
    }
}

/// A message with one more attachment.
pub open spec fn with_attachment(message: MessageModel, attachment: AttachmentModel) -> MessageModel {
    MessageModel { attachments: message.attachments.push(attachment), ..message }
}

/// Each attachment adds its line, and the first one a heading.
pub proof fn every_attachment_has_its_line(
    message: MessageModel,
    attachment: AttachmentModel,
    paths: PathStyle,
)
    ensures
        message.attachments.len() == 0 ==> display_text(with_attachment(message, attachment), paths)
            == display_text(message, paths) + "\n\nAttachments:"@ + attachment_line(
            attachment,
            paths,
        ),
        message.attachments.len() > 0 ==> display_text(with_attachment(message, attachment), paths)
            == display_text(message, paths) + attachment_line(attachment, paths),
{
    let all = message.attachments.push(attachment);
    assert(all.drop_last() =~= message.attachments);
    assert(all.last() == attachment);
    let whole = display_text(with_attachment(message, attachment), paths);
    if message.attachments.len() == 0 {
        assert(attachment_lines(message.attachments, paths) =~= Seq::<char>::empty());
        assert(attachment_lines(all, paths) =~= attachment_line(attachment, paths));
    } else {
        assert(whole =~= display_text(message, paths) + attachment_line(attachment, paths));
    }
}

/// An image with a file, and only that, is handed to the model, after those before it and under the
/// next number.
pub proof fn every_image_with_a_file_is_shown(
    attachments: Seq<AttachmentModel>,
    attachment: AttachmentModel,
)
    ensures
        attachment.path is None ==> local_images(attachments.push(attachment)) == local_images(
            attachments,
        ),
        !is_image(attachment) ==> local_images(attachments.push(attachment)) == local_images(
            attachments,
        ),
        attachment.path is Some && is_image(attachment) ==> local_images(
            attachments.push(attachment),
        ) == local_images(attachments).push(
            LocalImageModel {
                label_number: local_images(attachments).len() + 1,
                path: attachment.path->Some_0,
            },
        ),
        local_images(seq![]).len() == 0,
{
    assert(attachments.push(attachment).drop_last() =~= attachments);
    assert(attachments.push(attachment).last() == attachment);
}

/// What makes an attachment an image: a media type that starts like one, or a kind that says so.
pub proof fn images_are_known_by_type_or_kind(attachment: AttachmentModel, rest: Seq<char>)
    ensures
        attachment.mime_type == Some("image/"@ + rest) ==> is_image(attachment),
        attachment.kind == "photo"@ ==> is_image(attachment),
        attachment.kind == "image"@ ==> is_image(attachment),
        is_image(attachment) && attachment.kind != "photo"@ && attachment.kind != "image"@
            ==> attachment.mime_type is Some && attachment.mime_type->Some_0.len() >= 6
            && attachment.mime_type->Some_0.take(6) == "image/"@,
{
    reveal_strlit("image/");
    assert("image/"@.len() == 6);
    assert("image/"@.is_prefix_of("image/"@ + rest)) by {
        assert(("image/"@ + rest).subrange(0, 6) =~= "image/"@);
    }
    match attachment.mime_type {
        Some(media) => {
            if "image/"@.is_prefix_of(media) {
                assert(media.take(6) =~= "image/"@);
            }
        },
        None => {},
    }
}

/// The value of a member that may be missing.
pub open spec fn holds(
    members: Map<Seq<char>, JsonModel>,
    key: Seq<char>,
    value: Option<JsonModel>,
) -> bool {
    match value {
        Some(tree) => members.contains_key(key) && members[key] == tree,
        None => !members.contains_key(key),
    }
}

/// The JSON of an attachment has what the attachment says, under these six keys, and nothing else.
pub proof fn the_json_of_an_attachment_is_whole(attachment: AttachmentModel)
    ensures
        ({
            let tree = attachment_tree(attachment);
            let members = tree->Object_0;
            &&& tree is Object
            &&& holds(members, "kind"@, Some(JsonModel::Text(attachment.kind)))
            &&& attachment.path is Some ==> holds(
                members,
                "path"@,
                Some(JsonModel::Text(attachment.path->Some_0)),
            )
            &&& attachment.path is None ==> holds(members, "path"@, None)
            &&& attachment.mime_type is Some ==> holds(
                members,
                "mime_type"@,
                Some(JsonModel::Text(attachment.mime_type->Some_0)),
            )
            &&& attachment.mime_type is None ==> holds(members, "mime_type"@, None)
            &&& attachment.file_name is Some ==> holds(
                members,
                "file_name"@,
                Some(JsonModel::Text(attachment.file_name->Some_0)),
            )
            &&& attachment.file_name is None ==> holds(members, "file_name"@, None)
            &&& attachment.file_size is Some ==> holds(
                members,
                "file_size"@,
                Some(JsonModel::Integer(attachment.file_size->Some_0 as int)),
            )
            &&& attachment.file_size is None ==> holds(members, "file_size"@, None)
            &&& holds(members, "metadata"@, attachment.metadata)
            &&& forall|key: Seq<char>| #[trigger]
                members.contains_key(key) ==> key == "kind"@ || key == "path"@ || key
                    == "mime_type"@ || key == "file_name"@ || key == "file_size"@ || key
                    == "metadata"@
        }),
{
    reveal_strlit("kind");
    reveal_strlit("path");
    reveal_strlit("mime_type");
    reveal_strlit("file_name");
    reveal_strlit("file_size");
    reveal_strlit("metadata");
    assert("kind"@.len() == 4 && "path"@.len() == 4 && "kind"@[0] == 'k' && "path"@[0] == 'p');
    assert("mime_type"@.len() == 9 && "file_name"@.len() == 9 && "file_size"@.len() == 9);
    assert("mime_type"@[0] == 'm' && "file_name"@[0] == 'f' && "file_size"@[0] == 'f');
    assert("file_name"@[5] == 'n' && "file_size"@[5] == 's' && "metadata"@.len() == 8);
}

/// A text that may be missing, as JSON has it.
pub open spec fn text_or_null(tree: JsonModel, text: Option<Seq<char>>) -> bool {
    match text {
        Some(t) => tree == JsonModel::Text(t),
        None => tree == JsonModel::Null,
    }
}

/// The envelope of a message has all that the message says, under these nine keys, and nothing else.
pub proof fn the_envelope_says_what_the_message_says(message: MessageModel)
    ensures
        ({
            let members = envelope(message)->Object_0;
            &&& envelope(message) is Object
            &&& holds(members, "type"@, Some(JsonModel::Text("channel_message"@)))
            &&& holds(
                members,
                "schema_version"@,
                Some(JsonModel::Integer(message.schema_version as int)),
            )
            &&& holds(members, "id"@, Some(JsonModel::Text(message.id)))
            &&& holds(members, "server"@, Some(JsonModel::Text(message.server)))
            &&& members.contains_key("source"@) && text_or_null(members["source"@], message.source)
            &&& members.contains_key("sender"@) && text_or_null(members["sender"@], message.sender)
            &&& holds(members, "text"@, Some(JsonModel::Text(message.text)))
            &&& message.metadata is Some ==> holds(members, "metadata"@, message.metadata)
            &&& message.metadata is None ==> holds(members, "metadata"@, Some(JsonModel::Null))
            &&& members.contains_key("attachments"@) && members["attachments"@] is Array
            &&& members["attachments"@]->Array_0.len() == message.attachments.len()
            &&& forall|i: int|
                0 <= i < message.attachments.len() ==> #[trigger] members["attachments"@]->Array_0[i]
                    == attachment_tree(message.attachments[i])
            &&& forall|key: Seq<char>| #[trigger]
                members.contains_key(key) ==> key == "type"@ || key == "schema_version"@ || key
                    == "id"@ || key == "server"@ || key == "source"@ || key == "sender"@ || key
                    == "text"@ || key == "attachments"@ || key == "metadata"@
        }),
{
    reveal_strlit("type");
    reveal_strlit("schema_version");
    reveal_strlit("id");
    reveal_strlit("server");
    reveal_strlit("source");
    reveal_strlit("sender");
    reveal_strlit("text");
    reveal_strlit("attachments");
    reveal_strlit("metadata");
    assert("id"@.len() == 2 && "server"@.len() == 6 && "text"@.len() == 4 && "attachments"@.len()
        == 11 && "metadata"@.len() == 8 && "source"@.len() == 6 && "sender"@.len() == 6);
    assert("type"@.len() == 4 && "schema_version"@.len() == 14);
    assert("sender"@[2] == 'n' && "server"@[2] == 'r' && "source"@[2] == 'u');
    assert("text"@[1] == 'e' && "type"@[1] == 'y');
}

/// The model reads the envelope of a message between two fixed marks, over several lines, or on one
/// line where it cannot be written so.
pub proof fn the_model_reads_the_envelope(message: MessageModel)
    ensures
        pretty_text(envelope(message)) is Some ==> model_text(message)
            == "Inbound channel message:\n```json\n"@ + pretty_text(envelope(message))->Some_0
            + "\n```"@,
        pretty_text(envelope(message)) is None ==> model_text(message)
            == "Inbound channel message:\n```json\n"@ + json_text(envelope(message)) + "\n```"@,
{
}

/// A message stands in the context whole, on one line between the marks, if that takes 8192 bytes at
/// most.
pub proof fn the_context_is_whole_or_refused(message: MessageModel)
    ensures
        context_text(message) == "Inbound channel message:\n```json\n"@ + json_text(
            envelope(message),
        ) + "\n```"@,
        fits_context(message) <==> utf8_len(context_text(message)) <= 8192,
{
}

} // verus!
