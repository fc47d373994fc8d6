//! Texts that enter the model's context on the user's behalf.

use crate::channel_event::{ChannelMessageEvent, MessageModel};
use crate::channel_format::{
    envelope, envelope_text, marked, CHANNEL_MESSAGE_END, CHANNEL_MESSAGE_START,
};
use crate::json_text::json_text;
use crate::text::{byte_len, lemma_utf8_concat, utf8_len};
use vstd::prelude::*;
use vstd::utf8::{is_ascii_chars, is_ascii_chars_encode_utf8};

verus! {

broadcast use vstd::string::group_string_axioms;

/// The number of bytes that a channel message may take in the context, markers included.
pub const MAX_CHANNEL_CONTEXT_BYTES: usize = 8192;

/// What the default continuation of a loop says.
pub const LOOP_CONTINUATION_TEXT: &'static str = "Continue working autonomously. Inspect the current project state, choose the next useful step toward the active goal, make progress, verify what you changed when possible, and report what you did. If there is no useful next step, explain that and wait for the user.";

/// The name of a kind of content.
#[derive(Debug)]
pub struct ContentItemKind(pub String);

/// A text between two markers that enters the context under a role.
pub trait ContextualUserFragment: Sized {
    /// The role under which the text enters.
    spec fn role_name(&self) -> Seq<char>;

    /// The kind of content that the text is.
    spec fn kind_name(&self) -> Seq<char>;

    /// What stands before the text and after it.
    spec fn marker_texts() -> (Seq<char>, Seq<char>);

    /// The text between the markers.
    spec fn body_text(&self) -> Seq<char>;

    /// The role under which the text enters.
    fn role(&self) -> (role: &'static str)
        ensures
            role@ == self.role_name(),
    ;

    /// The kind of content that the text is.
    fn content_kind(&self) -> (kind: ContentItemKind)
        ensures
            kind.0@ == self.kind_name(),
    ;

    /// What stands before the text and after it.
    fn markers(&self) -> (markers: (&'static str, &'static str))
        ensures
            (markers.0@, markers.1@) == Self::marker_texts(),
    ;

    /// What stands before the text and after it, for every text of this type.
    fn type_markers() -> (markers: (&'static str, &'static str))
        ensures
            (markers.0@, markers.1@) == Self::marker_texts(),
    ;

    /// The text between the markers.
    fn body(&self) -> (body: String)
        ensures
            body@ == self.body_text(),
    ;

    /// The text with its markers, as it enters the context.
    fn render(&self) -> (rendered: String)
        ensures
            rendered@ == Self::marker_texts().0 + self.body_text() + Self::marker_texts().1,
    {
        let (start, end) = self.markers();
        let mut rendered = start.to_owned();
        rendered.append(self.body().as_str());
        rendered.append(end);
        rendered
    }
}

/// Bounded channel input that keeps the sender's text and the structured reply routing.
///
/// A message that does not fit is refused: neither its routing identifiers nor its JSON are ever
/// cut. The rendered fragment, with its markers, takes at most `MAX_CHANNEL_CONTEXT_BYTES` bytes.
#[derive(Debug)]
pub struct ChannelMessageContext {
    body: String,
}

/// A message as it stands in the context: its envelope on one line, between the markers.
pub open spec fn context_text(message: MessageModel) -> Seq<char> {
    marked(json_text(envelope(message)))
}

/// Whether a message fits the context.
pub open spec fn fits_context(message: MessageModel) -> bool {
    utf8_len(context_text(message)) <= MAX_CHANNEL_CONTEXT_BYTES
}

/// The number of bytes of a marked text.
proof fn lemma_marked_len(json: Seq<char>)
    ensures
        utf8_len(CHANNEL_MESSAGE_START@) == 33,
        utf8_len(CHANNEL_MESSAGE_END@) == 4,
        utf8_len(marked(json)) == 33 + utf8_len(json) + 4,
{
    let start = "Inbound channel message:\n```json\n"@;
    let end = "\n```"@;
    assert(start.len() == 33 && is_ascii_chars(start)) by {
        reveal_strlit("Inbound channel message:\n```json\n");
    }
    assert(end.len() == 4 && is_ascii_chars(end)) by {
        reveal_strlit("\n```");
    }
    is_ascii_chars_encode_utf8(start);
    is_ascii_chars_encode_utf8(end);
    lemma_utf8_concat(start, json);
    lemma_utf8_concat(start + json, end);
}

impl ChannelMessageContext {
    /// Returns no fragment when the complete rendered envelope exceeds its byte budget.
    pub fn new(event: &ChannelMessageEvent) -> (context: Option<Self>)
        ensures
            context is Some <==> fits_context(event@),
            context matches Some(c) ==> c.body_text() == json_text(envelope(event@)),
    {
        Self::from_json(envelope_text(event))
    }

    /// The fragment of a message's JSON text. Returns no fragment when the text with its markers
    /// exceeds the byte budget.
    pub fn from_json(body: String) -> (context: Option<Self>)
        ensures
            context is Some <==> utf8_len(marked(body@)) <= MAX_CHANNEL_CONTEXT_BYTES,
            context matches Some(c) ==> c.body_text() == body@,
    {
        let (start, end) = Self::type_markers();
        proof {
            lemma_marked_len(body@);
        }
        if byte_len(body.as_str()) <= MAX_CHANNEL_CONTEXT_BYTES - byte_len(start) - byte_len(end) {
            Some(ChannelMessageContext { body })
        } else {
            None
        }
    }
}

impl ContextualUserFragment for ChannelMessageContext {
    open spec fn role_name(&self) -> Seq<char> {
        "user"@
    }

    open spec fn kind_name(&self) -> Seq<char> {
        "user.channel_message"@
    }

    open spec fn marker_texts() -> (Seq<char>, Seq<char>) {
        (CHANNEL_MESSAGE_START@, CHANNEL_MESSAGE_END@)
    }

    closed spec fn body_text(&self) -> Seq<char> {
        self.body@
    }

    fn role(&self) -> &'static str {
        "user"
    }

    fn content_kind(&self) -> ContentItemKind {
        ContentItemKind("user.channel_message".to_owned())
    }

    fn markers(&self) -> (&'static str, &'static str) {
        Self::type_markers()
    }

    fn type_markers() -> (&'static str, &'static str) {
        (CHANNEL_MESSAGE_START, CHANNEL_MESSAGE_END)
    }

    fn body(&self) -> String {
        self.body.clone()
    }
}

/// Default continuation requested by the user's local loop when no prompt was supplied.
#[derive(Debug, Clone, Copy, PartialEq, Eq)]
pub struct LoopContinuation;

impl ContextualUserFragment for LoopContinuation {
    open spec fn role_name(&self) -> Seq<char> {
        "user"@
    }

    open spec fn kind_name(&self) -> Seq<char> {
        "loop.continuation"@
    }

    open spec fn marker_texts() -> (Seq<char>, Seq<char>) {
        (""@, ""@)
    }

    open spec fn body_text(&self) -> Seq<char> {
        LOOP_CONTINUATION_TEXT@
    }

    fn role(&self) -> &'static str {
        "user"
    }

    fn content_kind(&self) -> ContentItemKind {
        ContentItemKind("loop.continuation".to_owned())
    }

    fn markers(&self) -> (&'static str, &'static str) {
        Self::type_markers()
    }

    fn type_markers() -> (&'static str, &'static str) {
        ("", "")
    }

    fn body(&self) -> String {
        LOOP_CONTINUATION_TEXT.to_owned()
    }
}

/// What a fragment renders to is the message's context text, and it is within the byte budget.
pub proof fn rendered_context_is_whole_and_bounded(
    message: MessageModel,
    context: ChannelMessageContext,
)
    requires
        fits_context(message),
        context.body_text() == json_text(envelope(message)),
    ensures
        ChannelMessageContext::marker_texts().0 + context.body_text()
            + ChannelMessageContext::marker_texts().1 == context_text(message),
        utf8_len(
            ChannelMessageContext::marker_texts().0 + context.body_text()
                + ChannelMessageContext::marker_texts().1,
        ) <= MAX_CHANNEL_CONTEXT_BYTES,
{
}

} // verus!
