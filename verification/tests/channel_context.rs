use codex_channels::channel_event::{ChannelMessageAttachment, ChannelMessageEvent};
use codex_channels::channel_format::{
    channel_message_local_images, format_channel_message_for_display,
    format_channel_message_for_model, is_channel_image_attachment, mark_message,
};
use codex_channels::chat_widget::{ChatWidget, ShellEscapePolicy, WidgetEffect, MESSAGE_SIZE_ERROR};
use codex_channels::fragments::{
    ChannelMessageContext, ContextualUserFragment, LoopContinuation, MAX_CHANNEL_CONTEXT_BYTES,
};
use codex_channels::json::Json;
use codex_channels::text::PathStyle;
use serde_json::Value;

fn parse(text: &str) -> Value {
    serde_json::from_str(text).expect("valid JSON")
}

fn json(text: &str) -> Json {
    Json::from_value(parse(text))
}

fn context_event() -> ChannelMessageEvent {
    ChannelMessageEvent {
        id: "telegram:123:456".to_string(),
        schema_version: 1,
        server: "telegram-channel".to_string(),
        source: Some("telegram".to_string()),
        sender: Some("123".to_string()),
        text: "x".repeat(4096),
        attachments: Vec::new(),
        metadata: Some(json(r#"{"chat_id": "123", "message_thread_id": 42}"#)),
    }
}

fn event() -> ChannelMessageEvent {
    ChannelMessageEvent {
        id: "telegram:123:456".to_string(),
        schema_version: 1,
        server: "telegram-channel".to_string(),
        source: Some("telegram".to_string()),
        sender: Some("123".to_string()),
        text: "ping".to_string(),
        attachments: Vec::new(),
        metadata: Some(json(r#"{ "chat_id": "123" }"#)),
    }
}

fn photo() -> ChannelMessageAttachment {
    ChannelMessageAttachment {
        kind: "photo".to_string(),
        path: Some("/tmp/photo.jpg".to_string()),
        mime_type: Some("image/jpeg".to_string()),
        file_name: Some("photo.jpg".to_string()),
        file_size: Some(123),
        metadata: None,
    }
}

fn plain(kind: &str, path: Option<&str>) -> ChannelMessageAttachment {
    ChannelMessageAttachment {
        kind: kind.to_string(),
        path: path.map(str::to_string),
        mime_type: None,
        file_name: None,
        file_size: None,
        metadata: None,
    }
}

#[test]
fn channel_context_preserves_maximum_ascii_telegram_text_and_routing() {
    let event = context_event();
    let context = ChannelMessageContext::new(&event).expect("bounded Telegram message");
    let rendered = context.render();
    let json = rendered
        .strip_prefix("Inbound channel message:\n```json\n")
        .expect("existing prefix")
        .strip_suffix("\n```")
        .expect("existing suffix");
    let mut expected = parse(
        r#"{
            "type": "channel_message",
            "schema_version": 1,
            "id": "telegram:123:456",
            "server": "telegram-channel",
            "source": "telegram",
            "sender": "123",
            "text": "",
            "attachments": [],
            "metadata": {"chat_id": "123", "message_thread_id": 42}
        }"#,
    );
    expected["text"] = Value::from("x".repeat(4096));
    assert_eq!(serde_json::from_str::<Value>(json).expect("valid JSON"), expected);
    assert!(rendered.len() <= MAX_CHANNEL_CONTEXT_BYTES);
}

#[test]
fn channel_context_bounds_final_render_including_escaped_nested_metadata() {
    let mut event = context_event();
    event.text = "hello".to_string();
    let mut metadata = parse(r#"{"route": {"chat_id": "123"}}"#);
    metadata["route"]["extra"] = Value::from("\"\\\n😀".repeat(100));
    event.metadata = Some(Json::from_value(metadata));
    let initial_len = ChannelMessageContext::new(&event)
        .expect("bounded nested metadata")
        .render()
        .len();
    event.text.push_str(&"x".repeat(MAX_CHANNEL_CONTEXT_BYTES - initial_len));
    assert_eq!(
        ChannelMessageContext::new(&event).expect("exact boundary").render().len(),
        MAX_CHANNEL_CONTEXT_BYTES
    );
    event.text.push('x');
    assert!(ChannelMessageContext::new(&event).is_none());

    event.text = "hello".to_string();
    let mut metadata = parse(r#"{"route": {}}"#);
    metadata["route"]["extra"] = Value::from("😀".repeat(MAX_CHANNEL_CONTEXT_BYTES));
    event.metadata = Some(Json::from_value(metadata));
    assert!(ChannelMessageContext::new(&event).is_none());
    assert_eq!(MAX_CHANNEL_CONTEXT_BYTES, 8 * 1024);
}

#[test]
fn channel_context_is_user_content_between_markers() {
    let context = ChannelMessageContext::new(&event()).expect("bounded message");
    assert_eq!(context.role(), "user");
    assert_eq!(context.content_kind().0, "user.channel_message");
    assert_eq!(context.markers(), ("Inbound channel message:\n```json\n", "\n```"));
    assert_eq!(ChannelMessageContext::type_markers(), context.markers());
    assert_eq!(
        context.body(),
        r#"{"attachments":[],"id":"telegram:123:456","metadata":{"chat_id":"123"},"schema_version":1,"sender":"123","server":"telegram-channel","source":"telegram","text":"ping","type":"channel_message"}"#
    );
    assert_eq!(
        context.render(),
        format!("Inbound channel message:\n```json\n{}\n```", context.body())
    );
}

#[test]
fn loop_continuation_is_user_content_without_markers() {
    assert_eq!(LoopContinuation.role(), "user");
    assert_eq!(LoopContinuation.content_kind().0, "loop.continuation");
    assert_eq!(LoopContinuation.markers(), ("", ""));
    assert_eq!(LoopContinuation::type_markers(), ("", ""));
    assert!(LoopContinuation.body().starts_with("Continue working autonomously."));
    assert_eq!(LoopContinuation.render(), LoopContinuation.body());
}

#[test]
fn model_payload_keeps_routing_metadata() {
    let model_text = format_channel_message_for_model(&event());
    assert!(model_text.contains("\"id\": \"telegram:123:456\""));
    assert!(model_text.contains("\"chat_id\": \"123\""));
    assert!(model_text.contains("\"text\": \"ping\""));
}

#[test]
fn model_payload_is_the_envelope_over_several_lines() {
    let mut event = event();
    event.source = None;
    event.metadata = None;
    event.attachments = vec![photo()];
    let text = format_channel_message_for_model(&event);
    let json = text
        .strip_prefix("Inbound channel message:\n```json\n")
        .and_then(|rest| rest.strip_suffix("\n```"))
        .expect("markers");
    assert!(json.starts_with("{\n  \"attachments\": [\n    {"));
    assert_eq!(
        parse(json),
        parse(
            r#"{
                "type": "channel_message",
                "schema_version": 1,
                "id": "telegram:123:456",
                "server": "telegram-channel",
                "source": null,
                "sender": "123",
                "text": "ping",
                "attachments": [{
                    "kind": "photo",
                    "path": "/tmp/photo.jpg",
                    "mime_type": "image/jpeg",
                    "file_name": "photo.jpg",
                    "file_size": 123
                }],
                "metadata": null
            }"#,
        )
    );
}

#[test]
fn display_hides_raw_routing_json() {
    let display_text = format_channel_message_for_display(&event(), PathStyle::Unix);
    assert_eq!(display_text, "Inbound telegram message from 123:\nping");
    assert!(!display_text.contains("```json"));
    assert!(!display_text.contains("chat_id"));
}

#[test]
fn display_does_not_depend_on_routing() {
    let mut other = event();
    other.id = "elsewhere".to_string();
    other.schema_version = 7;
    other.metadata = None;
    let mut image = photo();
    image.mime_type = None;
    image.file_size = None;
    image.metadata = Some(json("1"));
    other.attachments = vec![image];
    let mut message = event();
    message.attachments = vec![photo()];
    assert_eq!(
        format_channel_message_for_display(&other, PathStyle::Unix),
        format_channel_message_for_display(&message, PathStyle::Unix)
    );
}

#[test]
fn display_falls_back_to_the_server_and_drops_an_empty_sender() {
    let mut event = event();
    event.source = None;
    event.sender = Some(String::new());
    assert_eq!(
        format_channel_message_for_display(&event, PathStyle::Unix),
        "Inbound telegram-channel message:\nping"
    );
    event.sender = None;
    assert_eq!(
        format_channel_message_for_display(&event, PathStyle::Unix),
        "Inbound telegram-channel message:\nping"
    );
}

#[test]
fn display_labels_attachments_by_name_path_or_kind() {
    let mut event = event();
    event.attachments = vec![
        photo(),
        plain("document", Some("/tmp/dir/report.pdf/")),
        plain("voice", None),
        plain("odd", Some("/tmp/..")),
    ];
    assert_eq!(
        format_channel_message_for_display(&event, PathStyle::Unix),
        "Inbound telegram message from 123:\nping\n\nAttachments:\n- photo.jpg: /tmp/photo.jpg\n- report.pdf: /tmp/dir/report.pdf/\n- voice\n- odd: /tmp/.."
    );
}

#[test]
fn image_attachment_becomes_local_image() {
    let mut event = event();
    event.text = "photo".to_string();
    event.attachments = vec![photo()];
    let display_text = format_channel_message_for_display(&event, PathStyle::Unix);
    let local_images = channel_message_local_images(&event);
    assert!(display_text.contains("Attachments:"));
    assert!(display_text.contains("/tmp/photo.jpg"));
    assert_eq!(local_images.len(), 1);
    assert_eq!(local_images[0].path, "/tmp/photo.jpg");
    assert_eq!(local_images[0].label_number, 1);
}

#[test]
fn only_images_with_a_file_are_numbered() {
    let mut event = event();
    let mut typed = plain("document", Some("/tmp/a.png"));
    typed.mime_type = Some("image/png".to_string());
    event.attachments = vec![
        plain("voice", Some("/tmp/v.ogg")),
        typed,
        plain("photo", None),
        plain("image", Some("/tmp/b.png")),
    ];
    let images = channel_message_local_images(&event);
    assert_eq!(images.len(), 2);
    assert_eq!((images[0].label_number, images[0].path.as_str()), (1, "/tmp/a.png"));
    assert_eq!((images[1].label_number, images[1].path.as_str()), (2, "/tmp/b.png"));
    assert!(is_channel_image_attachment(&plain("photo", None)));
    assert!(!is_channel_image_attachment(&plain("document", Some("/tmp/a.png"))));
}

#[test]
fn inbound_messages_are_submitted_with_a_readable_history() {
    let mut widget = ChatWidget::new(PathStyle::Unix);
    let mut message = event();
    message.text = "!ls".to_string();
    message.attachments = vec![photo()];
    widget.on_channel_message(message);
    let effects = widget.take_effects();
    assert_eq!(effects.len(), 1);
    let WidgetEffect::SubmitMessage { text, local_images, history_text, shell_escapes } =
        &effects[0]
    else {
        panic!("expected a submission");
    };
    assert_eq!(*shell_escapes, ShellEscapePolicy::Disallow);
    assert!(text.contains("\"chat_id\": \"123\""));
    assert_eq!(local_images.len(), 1);
    assert!(history_text.starts_with("Inbound telegram message from 123:\n!ls"));
    assert!(widget.take_effects().is_empty());
}

#[test]
fn oversized_inbound_messages_are_refused_with_a_diagnostic() {
    let mut widget = ChatWidget::new(PathStyle::Unix);
    let mut message = event();
    message.text = String::new();
    let overhead = ChannelMessageContext::new(&message).expect("small message").body().len();
    message.text = "x".repeat(8000 - overhead);
    widget.on_channel_message(message);
    assert!(matches!(widget.take_effects()[0], WidgetEffect::SubmitMessage { .. }));
    let mut message = event();
    message.text = "x".repeat(8001 - overhead);
    widget.on_channel_message(message);
    let effects = widget.take_effects();
    assert_eq!(effects.len(), 1);
    assert!(matches!(&effects[0], WidgetEffect::Error(words) if words == MESSAGE_SIZE_ERROR));
}

#[test]
fn written_messages_are_held_to_their_budgets() {
    let fits = "x".repeat(MAX_CHANNEL_CONTEXT_BYTES - 37);
    let context = ChannelMessageContext::from_json(fits.clone()).expect("exact boundary");
    assert_eq!(context.render(), mark_message(&fits));
    assert_eq!(context.render().len(), MAX_CHANNEL_CONTEXT_BYTES);
    assert!(ChannelMessageContext::from_json(fits + "x").is_none());

    let mut widget = ChatWidget::new(PathStyle::Unix);
    let submit = |widget: &mut ChatWidget, bytes: usize| {
        widget.submit_channel_message(
            &"x".repeat(bytes),
            "text".to_string(),
            Vec::new(),
            "history".to_string(),
        );
        widget.take_effects()
    };
    assert!(matches!(&submit(&mut widget, 8000)[0], WidgetEffect::SubmitMessage {
        text, history_text, shell_escapes: ShellEscapePolicy::Disallow, ..
    } if text == "text" && history_text == "history"));
    assert!(matches!(&submit(&mut widget, 8001)[0], WidgetEffect::Error(_)));
}

#[test]
fn display_follows_the_paths_of_the_platform() {
    let mut event = event();
    event.attachments = vec![plain("document", Some("C:\\tmp\\report.pdf"))];
    assert!(format_channel_message_for_display(&event, PathStyle::Windows)
        .ends_with("\n- report.pdf: C:\\tmp\\report.pdf"));
    assert!(format_channel_message_for_display(&event, PathStyle::Unix)
        .ends_with("\n- C:\\tmp\\report.pdf: C:\\tmp\\report.pdf"));
}

#[test]
fn json_values_survive_being_copied_and_rebuilt() {
    let value = parse(r#"{"a": [1, -2, 1.5, null, true, "x"], "b": {"c": {}}, "d": 18446744073709551615}"#);
    let copy = Json::from_value(value.clone()).clone();
    assert_eq!(copy.to_value(), value);
    assert_eq!(copy.to_text(), value.to_string());
    assert_eq!(Json::Signed(-5).to_text(), "-5");
    assert_eq!(Json::Text("a\"b".to_string()).to_text(), "\"a\\\"b\"");
}
