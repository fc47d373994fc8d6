use codex_channels::channel_delivery::{
    ChannelDeliveryDecision, ChannelDeliveryState, McpServerChannelConfig, McpServerChannelMode,
};
use codex_channels::channel_event::{
    channel_message_event, fallback_channel_message_id, is_channel_notification, message_from_params, take_string, take_u32,
    take_u64, ChannelMessageEvent,
};
use codex_channels::channel_relay::{
    channel_capabilities, channel_mode_name, refusal_warning, ChannelRelay, RelayAction,
    MCP_CHANNEL_NOTIFICATIONS_CAPABILITY,
};
use codex_channels::json::{Json, JsonObject};
use serde_json::Value;

const PEER: &str = "other";

fn parse(text: &str) -> Value {
    serde_json::from_str(text).expect("valid JSON")
}

fn announced(method: &str, params: &str) -> Option<ChannelMessageEvent> {
    channel_message_event("telegram-channel", method, PEER, Some(parse(params)))
}

fn channel(params: &str) -> ChannelMessageEvent {
    announced("notifications/codex/channel", params).expect("expected channel event")
}

#[test]
fn accepted_notification_sender_emits_protocol_event() {
    let mut relay = ChannelRelay::new(
        "telegram-channel".to_string(),
        McpServerChannelConfig { enabled: true, ..Default::default() },
        PEER.to_string(),
    );
    let action = relay.on_notification(
        "notifications/codex/channel",
        Some(parse(
            r#"{"id": "telegram:101", "source": "telegram", "sender": "alice", "text": "ship it"}"#,
        )),
    );
    let RelayAction::Forward { event_id, message } = action else {
        panic!("expected channel message event");
    };
    assert_eq!(event_id, "mcp_channel_telegram:101");
    assert_eq!(message.server, "telegram-channel");
    assert_eq!(message.source.as_deref(), Some("telegram"));
    assert_eq!(message.sender.as_deref(), Some("alice"));
    assert_eq!(message.text, "ship it");
}

#[test]
fn parses_channel_notification_with_routing_metadata() {
    let event = channel(
        r#"{"source": "telegram", "text": "hello", "sender": 42, "chat_id": "1001"}"#,
    );
    assert_eq!(event.server, "telegram-channel");
    assert!(!event.id.is_empty());
    assert_eq!(event.schema_version, 1);
    assert_eq!(event.source.as_deref(), Some("telegram"));
    assert_eq!(event.sender.as_deref(), Some("42"));
    assert_eq!(event.text, "hello");
    assert_eq!(
        event.metadata.map(|metadata| metadata.to_value()),
        Some(parse(r#"{"chat_id": "1001"}"#))
    );
}

#[test]
fn parses_codex_channel_notification() {
    let event = channel(
        r#"{"source": "telegram", "text": "hello", "sender": 42, "chat_id": "1001"}"#,
    );
    assert_eq!(event.server, "telegram-channel");
    assert!(!event.id.is_empty());
    assert_eq!(event.schema_version, 1);
    assert_eq!(event.source.as_deref(), Some("telegram"));
    assert_eq!(event.sender.as_deref(), Some("42"));
    assert_eq!(event.text, "hello");
    let metadata = event.metadata.as_ref().map(|metadata| metadata.to_value());
    assert_eq!(
        metadata.as_ref().and_then(|value| value.get("chat_id")).and_then(|value| value.as_str()),
        Some("1001")
    );
}

#[test]
fn parses_image_attachment() {
    let event = channel(
        r#"{
            "text": "photo",
            "attachments": [{
                "kind": "photo",
                "path": "/tmp/photo.jpg",
                "mime_type": "image/jpeg",
                "file_name": "photo.jpg",
                "file_size": 123
            }]
        }"#,
    );
    assert_eq!(event.attachments.len(), 1);
    assert_eq!(event.attachments[0].kind, "photo");
    assert_eq!(event.attachments[0].mime_type.as_deref(), Some("image/jpeg"));
    assert_eq!(event.attachments[0].file_size, Some(123));
    assert_eq!(event.attachments[0].path.as_deref(), Some("/tmp/photo.jpg"));
    assert!(event.attachments[0].metadata.is_none());
    assert!(event.metadata.is_none());
}

#[test]
fn ignores_unrelated_and_empty_notifications() {
    assert!(announced("notifications/message", r#"{"text": "hello"}"#).is_none());
    assert!(announced("notifications/codex/channel", r#"{"text": "  "}"#).is_none());
}

#[test]
fn ignores_unrelated_custom_notification() {
    assert!(announced("notifications/message", r#"{"text": "hello"}"#).is_none());
}

#[test]
fn every_channel_method_announces_messages() {
    let params =
        r#"{"id": "telegram:123:456", "schema_version": 1, "source": "telegram", "channel": "telegram",
            "sender": "42", "text": "message text", "chat_id": "123", "telegram_message_id": 456}"#;
    for method in
        ["notifications/codex/channel", "notifications/other/channel", "notifications/channel"]
    {
        let event = channel_message_event("tg", method, "other", Some(parse(params)))
            .expect("expected channel event");
        assert_eq!(event.id, "telegram:123:456");
        assert_eq!(event.schema_version, 1);
        assert_eq!(event.server, "tg");
        assert_eq!(event.source.as_deref(), Some("telegram"));
        assert_eq!(event.sender.as_deref(), Some("42"));
        assert_eq!(event.text, "message text");
        assert!(event.attachments.is_empty());
        assert_eq!(
            event.metadata.map(|metadata| metadata.to_value()),
            Some(parse(r#"{"channel": "telegram", "chat_id": "123", "telegram_message_id": 456}"#))
        );
        assert!(is_channel_notification(method, "other"));
    }
    assert!(!is_channel_notification("notifications/other/channel", "another"));
    assert!(!is_channel_notification("notifications/message", "other"));
    let mut relay = ChannelRelay::new(
        "tg".to_string(),
        McpServerChannelConfig { enabled: true, ..Default::default() },
        "other".to_string(),
    );
    assert!(matches!(
        relay.on_notification("notifications/other/channel", Some(parse(params))),
        RelayAction::Forward { event_id, .. } if event_id == "mcp_channel_telegram:123:456"
    ));
}

#[test]
fn empty_text_is_ignored_and_the_message_member_stands_in() {
    assert!(announced("notifications/channel", r#"{"text": ""}"#).is_none());
    let event = channel(r#"{"text": "", "message": "hello"}"#);
    assert_eq!(event.text, "hello");
    assert!(announced("notifications/channel", r#"{"source": "telegram"}"#).is_none());
    assert!(announced("notifications/channel", "[1, 2]").is_none());
    assert!(channel_message_event("s", "notifications/channel", PEER, None).is_none());
}

#[test]
fn plain_text_parameters_are_a_message() {
    let event = channel(r#""ping""#);
    assert_eq!(event.text, "ping");
    assert_eq!(event.schema_version, 1);
    assert!(event.source.is_none() && event.sender.is_none() && event.metadata.is_none());
    assert_eq!(
        event.id,
        fallback_channel_message_id("telegram-channel", "notifications/codex/channel", "ping")
    );
    assert!(announced("notifications/channel", r#"" ""#).is_none());
}

#[test]
fn fallback_ids_are_sixteen_hex_digits_of_everything_hashed() {
    let id = fallback_channel_message_id("a", "b", "c");
    assert_eq!(id.len(), 16);
    assert!(id.chars().all(|c| c.is_ascii_digit() || ('a'..='f').contains(&c)));
    assert_eq!(id, fallback_channel_message_id("a", "b", "c"));
    assert_ne!(id, fallback_channel_message_id("x", "b", "c"));
    assert_ne!(id, fallback_channel_message_id("a", "x", "c"));
    assert_ne!(id, fallback_channel_message_id("a", "b", "x"));
}

#[test]
fn telegram_routing_gives_the_id() {
    let event = channel(r#"{"text": "hi", "chat_id": "1001", "telegram_message_id": 7}"#);
    assert_eq!(event.id, "\"1001\":7");
    assert_eq!(
        event.metadata.map(|metadata| metadata.to_value()),
        Some(parse(r#"{"chat_id": "1001", "telegram_message_id": 7}"#))
    );
    let named = channel(r#"{"text": "hi", "message_id": 12, "chat_id": 1, "telegram_message_id": 7}"#);
    assert_eq!(named.id, "12");
}

#[test]
fn versions_are_read_from_numbers_and_texts() {
    assert_eq!(channel(r#"{"text": "hi", "schema_version": 2}"#).schema_version, 2);
    assert_eq!(channel(r#"{"text": "hi", "schemaVersion": "3"}"#).schema_version, 3);
    assert_eq!(channel(r#"{"text": "hi", "schema_version": -1}"#).schema_version, 1);
    assert_eq!(channel(r#"{"text": "hi", "schema_version": 4294967296}"#).schema_version, 1);
    assert_eq!(channel(r#"{"text": "hi", "schema_version": 1.5}"#).schema_version, 1);
}

#[test]
fn attachments_have_defaults_and_keep_what_is_left() {
    let event = channel(
        r#"{"text": "hi", "attachments": [
            1,
            {"type": "voice", "mimeType": "audio/ogg", "fileName": "v.ogg", "fileSize": "9", "duration": 3},
            {}
        ]}"#,
    );
    assert_eq!(event.attachments.len(), 2);
    let voice = &event.attachments[0];
    assert_eq!(voice.kind, "voice");
    assert_eq!(voice.mime_type.as_deref(), Some("audio/ogg"));
    assert_eq!(voice.file_name.as_deref(), Some("v.ogg"));
    assert_eq!(voice.file_size, Some(9));
    assert_eq!(
        voice.metadata.as_ref().map(|metadata| metadata.to_value()),
        Some(parse(r#"{"duration": 3}"#))
    );
    assert_eq!(event.attachments[1].kind, "file");
    assert!(channel(r#"{"text": "hi", "attachments": "none"}"#).attachments.is_empty());
}

#[test]
fn plain_and_parsed_parameters_announce_the_same() {
    let mut object = JsonObject::new();
    object.insert("text".to_string(), Json::Text("hello".to_string()));
    object.insert("sender".to_string(), Json::Unsigned(42));
    object.insert("score".to_string(), Json::Signed(-3));
    let plain = message_from_params("telegram-channel", "notifications/codex/channel", PEER, Some(Json::Object(object)))
        .expect("expected channel event");
    let parsed = channel(r#"{"text": "hello", "sender": 42, "score": -3}"#);
    assert_eq!(plain.id, parsed.id);
    assert_eq!(plain.sender, parsed.sender);
    assert_eq!(
        plain.metadata.map(|metadata| metadata.to_value()),
        parsed.metadata.map(|metadata| metadata.to_value())
    );
}

#[test]
fn members_are_taken_as_texts_and_numbers() {
    let mut object = JsonObject::new();
    object.insert("a".to_string(), Json::Text("x".to_string()));
    object.insert("b".to_string(), Json::Bool(true));
    object.insert("c".to_string(), Json::Null);
    object.insert("d".to_string(), Json::Text(String::new()));
    object.insert("e".to_string(), Json::Text("17".to_string()));
    object.insert("f".to_string(), Json::Unsigned(u64::MAX));
    object.insert("g".to_string(), Json::Signed(-1));
    object.insert("h".to_string(), Json::Array(vec![Json::Unsigned(1), Json::Null]));
    assert_eq!(take_string(&mut object, "a").as_deref(), Some("x"));
    assert_eq!(take_string(&mut object, "a"), None);
    assert_eq!(take_string(&mut object, "b").as_deref(), Some("true"));
    assert_eq!(take_string(&mut object, "c"), None);
    assert_eq!(take_string(&mut object, "d").as_deref(), Some("\"\""));
    assert_eq!(take_u32(&mut object, "e"), Some(17));
    assert_eq!(take_u64(&mut object, "f"), Some(u64::MAX));
    assert_eq!(take_u64(&mut object, "g"), None);
    assert_eq!(take_string(&mut object, "h").as_deref(), Some("[1,null]"));
    assert!(object.is_empty());
}

#[test]
fn channel_policy_defaults_to_disabled_and_deduplicates_when_enabled() {
    let event = channel(r#"{"text": "hello", "id": "m1"}"#);
    let mut state = ChannelDeliveryState::new(10);
    assert_eq!(
        state.accept(&McpServerChannelConfig::default(), &event),
        ChannelDeliveryDecision::Disabled
    );
    let enabled = McpServerChannelConfig { enabled: true, ..Default::default() };
    assert_eq!(state.accept(&enabled, &event), ChannelDeliveryDecision::Accept);
    assert_eq!(state.accept(&enabled, &event), ChannelDeliveryDecision::Duplicate);
}

#[test]
fn channel_delivery_defaults_to_disabled() {
    let event = channel(r#"{"text": "hello", "id": "m1"}"#);
    let mut state = ChannelDeliveryState::new(10);
    assert_eq!(
        state.accept(&McpServerChannelConfig::default(), &event),
        ChannelDeliveryDecision::Disabled
    );
}

#[test]
fn channel_delivery_deduplicates_message_ids() {
    let config = McpServerChannelConfig { enabled: true, ..Default::default() };
    let event = channel(r#"{"text": "hello", "id": "m1"}"#);
    let mut state = ChannelDeliveryState::new(10);
    assert_eq!(state.accept(&config, &event), ChannelDeliveryDecision::Accept);
    assert_eq!(state.accept(&config, &event), ChannelDeliveryDecision::Duplicate);
}

#[test]
fn channel_delivery_applies_rate_limit() {
    let config = McpServerChannelConfig {
        enabled: true,
        rate_limit_per_minute: 1,
        ..Default::default()
    };
    let first = channel(r#"{"text": "hello", "id": "m1"}"#);
    let second = channel(r#"{"text": "world", "id": "m2"}"#);
    let mut state = ChannelDeliveryState::new(10);
    assert_eq!(state.accept(&config, &first), ChannelDeliveryDecision::Accept);
    assert_eq!(state.accept(&config, &second), ChannelDeliveryDecision::RateLimited);
}

#[test]
fn channel_policy_applies_burst_and_per_minute_limits() {
    let first = channel(r#"{"text": "one", "id": "m1"}"#);
    let second = channel(r#"{"text": "two", "id": "m2"}"#);
    let burst_config = McpServerChannelConfig {
        enabled: true,
        queue_capacity: 1,
        rate_limit_per_minute: 30,
        ..Default::default()
    };
    let mut burst_state = ChannelDeliveryState::new(10);
    assert_eq!(burst_state.accept(&burst_config, &first), ChannelDeliveryDecision::Accept);
    assert_eq!(burst_state.accept(&burst_config, &second), ChannelDeliveryDecision::QueueFull);

    let rate_config = McpServerChannelConfig {
        enabled: true,
        queue_capacity: 10,
        rate_limit_per_minute: 1,
        ..Default::default()
    };
    let mut rate_state = ChannelDeliveryState::new(10);
    assert_eq!(rate_state.accept(&rate_config, &first), ChannelDeliveryDecision::Accept);
    assert_eq!(rate_state.accept(&rate_config, &second), ChannelDeliveryDecision::RateLimited);
}

#[test]
fn windows_end_after_ten_and_sixty_seconds() {
    let second: u128 = 1_000_000_000;
    let burst = McpServerChannelConfig {
        enabled: true,
        queue_capacity: 1,
        rate_limit_per_minute: 2,
        ..Default::default()
    };
    let message = |id: &str| channel(&format!("{{\"text\": \"hi\", \"id\": \"{id}\"}}"));
    let mut state = ChannelDeliveryState::new(10);
    assert_eq!(state.accept_at(&burst, &message("a"), 0), ChannelDeliveryDecision::Accept);
    assert_eq!(
        state.accept_at(&burst, &message("b"), 10 * second - 1),
        ChannelDeliveryDecision::QueueFull
    );
    assert_eq!(
        state.accept_at(&burst, &message("b"), 10 * second),
        ChannelDeliveryDecision::Accept
    );
    assert_eq!(
        state.accept_at(&burst, &message("c"), 60 * second - 1),
        ChannelDeliveryDecision::RateLimited
    );
    assert_eq!(
        state.accept_at(&burst, &message("c"), 60 * second),
        ChannelDeliveryDecision::Accept
    );
}

#[test]
fn the_clock_never_runs_backwards() {
    let config = McpServerChannelConfig { enabled: true, queue_capacity: 1, ..Default::default() };
    let message = |id: &str| channel(&format!("{{\"text\": \"hi\", \"id\": \"{id}\"}}"));
    let mut state = ChannelDeliveryState::new(10);
    let far: u128 = 1_000_000_000_000_000_000_000;
    assert_eq!(state.accept_at(&config, &message("a"), far), ChannelDeliveryDecision::Accept);
    assert_eq!(state.accept(&config, &message("b")), ChannelDeliveryDecision::QueueFull);
}

#[test]
fn refused_messages_change_no_later_decision() {
    let config = McpServerChannelConfig {
        enabled: true,
        queue_capacity: 1,
        rate_limit_per_minute: 2,
        ..Default::default()
    };
    let second: u128 = 1_000_000_000;
    let message = |id: &str| channel(&format!("{{\"text\": \"hi\", \"id\": \"{id}\"}}"));
    let mut pestered = ChannelDeliveryState::new(10);
    let mut quiet = ChannelDeliveryState::new(10);
    for state in [&mut pestered, &mut quiet] {
        assert_eq!(state.accept_at(&config, &message("a"), 0), ChannelDeliveryDecision::Accept);
    }
    assert_eq!(
        pestered.accept_at(&config, &message("x"), second),
        ChannelDeliveryDecision::QueueFull
    );
    let off = McpServerChannelConfig { enabled: false, ..config };
    let wide = McpServerChannelConfig { queue_capacity: 5, rate_limit_per_minute: 0, ..config };
    for (id, at, policy) in [
        ("b", 10, &config),
        ("c", 20, &off),
        ("c", 21, &wide),
        ("x", 22, &config),
        ("x", 61, &wide),
        ("x", 62, &config),
        ("d", 80, &config),
    ] {
        assert_eq!(
            pestered.accept_at(policy, &message(id), at * second),
            quiet.accept_at(policy, &message(id), at * second)
        );
    }
}

#[test]
fn no_limits_and_no_memory_accept_everything() {
    let free = McpServerChannelConfig {
        enabled: true,
        mode: McpServerChannelMode::Queue,
        queue_capacity: 0,
        dedupe_capacity: 0,
        rate_limit_per_minute: 0,
    };
    let event = channel(r#"{"text": "hello", "id": "m1"}"#);
    let mut state = ChannelDeliveryState::new(0);
    for now in 0..100 {
        assert_eq!(state.accept_at(&free, &event, now), ChannelDeliveryDecision::Accept);
    }
}

#[test]
fn the_mode_changes_no_delivery() {
    for mode in [
        McpServerChannelMode::Ask,
        McpServerChannelMode::Queue,
        McpServerChannelMode::Immediate,
        McpServerChannelMode::Context,
    ] {
        let config = McpServerChannelConfig { enabled: true, mode, ..Default::default() };
        let event = channel(r#"{"text": "hello", "id": "m1"}"#);
        let mut state = ChannelDeliveryState::new(10);
        assert_eq!(state.accept(&config, &event), ChannelDeliveryDecision::Accept);
        assert_eq!(state.accept(&config, &event), ChannelDeliveryDecision::Duplicate);
    }
}

#[test]
fn only_the_newest_ids_are_remembered() {
    let config = McpServerChannelConfig {
        enabled: true,
        queue_capacity: 0,
        rate_limit_per_minute: 0,
        ..Default::default()
    };
    let message = |id: &str| channel(&format!("{{\"text\": \"hi\", \"id\": \"{id}\"}}"));
    let mut state = ChannelDeliveryState::new(2);
    for id in ["a", "b", "c"] {
        assert_eq!(state.accept(&config, &message(id)), ChannelDeliveryDecision::Accept);
    }
    assert_eq!(state.accept(&config, &message("b")), ChannelDeliveryDecision::Duplicate);
    assert_eq!(state.accept(&config, &message("c")), ChannelDeliveryDecision::Duplicate);
    assert_eq!(state.accept(&config, &message("a")), ChannelDeliveryDecision::Accept);
    let off = McpServerChannelConfig { enabled: false, ..config };
    assert_eq!(state.accept(&off, &message("d")), ChannelDeliveryDecision::Disabled);
    assert_eq!(state.accept(&config, &message("c")), ChannelDeliveryDecision::Duplicate);
    assert_eq!(state.accept(&config, &message("d")), ChannelDeliveryDecision::Accept);
    assert_eq!(state.accept(&config, &message("c")), ChannelDeliveryDecision::Accept);
}

#[test]
fn enabled_channel_capability_advertises_actual_mode_and_limits() {
    let config = McpServerChannelConfig {
        enabled: true,
        mode: McpServerChannelMode::Immediate,
        queue_capacity: 10,
        dedupe_capacity: 25,
        rate_limit_per_minute: 6,
    };
    let mut expected = serde_json::Map::new();
    expected.insert(
        MCP_CHANNEL_NOTIFICATIONS_CAPABILITY.to_string(),
        parse(
            r#"{"schemaVersion": 1, "mode": "immediate", "queueCapacity": 10, "dedupeCapacity": 25, "rateLimitPerMinute": 6}"#,
        ),
    );
    assert_eq!(
        channel_capabilities(&config).map(|object| Json::Object(object).to_value()),
        Some(Value::Object(expected))
    );
    assert!(channel_capabilities(&McpServerChannelConfig::default()).is_none());
    assert_eq!(MCP_CHANNEL_NOTIFICATIONS_CAPABILITY, "codex/channel-notifications");
}

#[test]
fn modes_have_their_names() {
    assert_eq!(channel_mode_name(McpServerChannelMode::Ask), "ask");
    assert_eq!(channel_mode_name(McpServerChannelMode::Queue), "queue");
    assert_eq!(channel_mode_name(McpServerChannelMode::Immediate), "immediate");
    assert_eq!(channel_mode_name(McpServerChannelMode::Context), "context");
}

#[test]
fn decisions_follow_the_clock() {
    let mut relay = ChannelRelay::new(
        "telegram-channel".to_string(),
        McpServerChannelConfig { enabled: true, queue_capacity: 1, ..Default::default() },
        PEER.to_string(),
    );
    let message = |id: &str| Some(channel(&format!("{{\"text\": \"hi\", \"id\": \"{id}\"}}")));
    assert!(matches!(relay.relay_at(None, 0), RelayAction::Ignore));
    assert!(matches!(relay.relay_at(message("a"), 0), RelayAction::Forward { event_id, .. }
        if event_id == "mcp_channel_a"));
    assert!(matches!(
        relay.relay_at(message("b"), 1),
        RelayAction::Refuse { verdict: ChannelDeliveryDecision::QueueFull, .. }
    ));
    assert!(matches!(
        relay.relay_at(message("b"), 10_000_000_000),
        RelayAction::Forward { .. }
    ));
}

#[test]
fn refused_notifications_come_with_a_warning() {
    let mut relay = ChannelRelay::new(
        "telegram-channel".to_string(),
        McpServerChannelConfig { enabled: true, ..Default::default() },
        PEER.to_string(),
    );
    let params = || Some(parse(r#"{"text": "hello"}"#));
    assert!(matches!(
        relay.on_notification("notifications/channel", params()),
        RelayAction::Forward { .. }
    ));
    let RelayAction::Refuse { verdict, message_id } =
        relay.on_notification("notifications/channel", params())
    else {
        panic!("expected a refusal");
    };
    assert_eq!(verdict, ChannelDeliveryDecision::Duplicate);
    assert_eq!(
        message_id,
        fallback_channel_message_id("telegram-channel", "notifications/channel", "hello")
    );
    assert_eq!(refusal_warning(verdict), Some("ignored duplicate MCP channel notification"));
    assert_eq!(refusal_warning(ChannelDeliveryDecision::Accept), None);
    assert_eq!(
        refusal_warning(ChannelDeliveryDecision::QueueFull),
        Some("ignored MCP channel notification because the channel queue is full")
    );
    assert!(matches!(
        relay.on_notification("notifications/message", params()),
        RelayAction::Ignore
    ));
}
