//! What a channel server is told of its channel, and what becomes of each of its notifications.

use crate::channel_delivery::{
    after, decision, nothing_seen, ChannelDeliveryDecision, ChannelDeliveryState, DeliveryModel,
    McpServerChannelConfig, McpServerChannelMode,
};
use crate::channel_event::{
    announced_message, channel_message_event, params_tree, ChannelMessageEvent, MessageModel,
};
use crate::json::{Json, JsonModel, JsonObject};
use vstd::prelude::*;

verus! {

broadcast use vstd::string::group_string_axioms;

/// The capability under which a client announces that it takes channel notifications.
pub const MCP_CHANNEL_NOTIFICATIONS_CAPABILITY: &'static str = "codex/channel-notifications";

/// The name of a mode in the announcement.
pub open spec fn mode_name(mode: McpServerChannelMode) -> Seq<char> {
    match mode {
        McpServerChannelMode::Ask => "ask"@,
        McpServerChannelMode::Queue => "queue"@,
        McpServerChannelMode::Immediate => "immediate"@,
        McpServerChannelMode::Context => "context"@,
    }
}

/// The name of a mode in the announcement.
pub fn channel_mode_name(mode: McpServerChannelMode) -> (name: &'static str)
    ensures
        name@ == mode_name(mode),
{
    match mode {
        McpServerChannelMode::Ask => "ask",
        McpServerChannelMode::Queue => "queue",
        McpServerChannelMode::Immediate => "immediate",
        McpServerChannelMode::Context => "context",
    }
}

/// What is announced of a channel: the version of the notifications, the mode and the limits.
pub open spec fn channel_announcement(config: McpServerChannelConfig) -> Map<Seq<char>, JsonModel> {
    map![
        "schemaVersion"@ => JsonModel::Integer(1),
        "mode"@ => JsonModel::Text(mode_name(config.mode)),
        "queueCapacity"@ => JsonModel::Integer(config.queue_capacity as int),
        "dedupeCapacity"@ => JsonModel::Integer(config.dedupe_capacity as int),
        "rateLimitPerMinute"@ => JsonModel::Integer(config.rate_limit_per_minute as int),
    ]
}

/// The experimental capabilities to announce to a server: the channel, if it is on.
pub fn channel_capabilities(channel_config: &McpServerChannelConfig) -> (capabilities: Option<
    JsonObject,
>)
    ensures
        match capabilities {
            Some(object) => channel_config.enabled && object@
                == map![MCP_CHANNEL_NOTIFICATIONS_CAPABILITY@ =>
                    JsonModel::Object(channel_announcement(*channel_config))],
            None => !channel_config.enabled,
        },
{
    if !channel_config.enabled {
        return None;
    }
    let mut value = JsonObject::new();
    value.insert("schemaVersion".to_owned(), Json::Unsigned(1));
    value.insert("mode".to_owned(), Json::Text(channel_mode_name(channel_config.mode).to_owned()));
    value.insert(
        "queueCapacity".to_owned(),
        Json::Unsigned(channel_config.queue_capacity as u64),
    );
    value.insert(
        "dedupeCapacity".to_owned(),
        Json::Unsigned(channel_config.dedupe_capacity as u64),
    );
    value.insert(
        "rateLimitPerMinute".to_owned(),
        Json::Unsigned(channel_config.rate_limit_per_minute as u64),
    );
    let mut capabilities = JsonObject::new();
    capabilities.insert(MCP_CHANNEL_NOTIFICATIONS_CAPABILITY.to_owned(), Json::Object(value));
    Some(capabilities)
}

/// What becomes of a notification.
pub enum RelayAction {
    /// It announces no message.
    Ignore,
    /// Its message is dropped, with a warning in the log.
    Refuse { verdict: ChannelDeliveryDecision, message_id: String },
    /// Its message goes to the session as an event with an id.
    Forward { event_id: String, message: ChannelMessageEvent },
}

/// What becomes of a notification.
pub enum RelayModel {
    Ignore,
    Refuse { verdict: ChannelDeliveryDecision, message_id: Seq<char> },
    Forward { event_id: Seq<char>, message: MessageModel },
}

impl View for RelayAction {
    type V = RelayModel;

    open spec fn view(&self) -> RelayModel {
        match self {
            RelayAction::Ignore => RelayModel::Ignore,
            RelayAction::Refuse { verdict, message_id } => RelayModel::Refuse {
                verdict: *verdict,
                message_id: message_id@,
            },
            RelayAction::Forward { event_id, message } => RelayModel::Forward {
                event_id: event_id@,
                message: message@,
            },
        }
    }
}

/// What the delivery decides to do with the message of a notification.
pub open spec fn relayed(
    state: DeliveryModel,
    config: McpServerChannelConfig,
    announced: Option<MessageModel>,
    now: u128,
) -> RelayModel {
    match announced {
        None => RelayModel::Ignore,
        Some(message) => {
            let verdict = decision(state, config, message.id, now);
            if verdict == ChannelDeliveryDecision::Accept {
                RelayModel::Forward { event_id: "mcp_channel_"@ + message.id, message }
            } else {
                RelayModel::Refuse { verdict, message_id: message.id }
            }
        },
    }
}

/// What the delivery remembers after a notification.
pub open spec fn state_after(
    state: DeliveryModel,
    config: McpServerChannelConfig,
    announced: Option<MessageModel>,
    now: u128,
) -> DeliveryModel {
    match announced {
        None => state,
        Some(message) => after(state, config, message.id, now),
    }
}

/// The warning with which a message is dropped.
pub open spec fn warning_text(verdict: ChannelDeliveryDecision) -> Option<Seq<char>> {
    match verdict {
        ChannelDeliveryDecision::Accept => None,
        ChannelDeliveryDecision::Disabled => Some(
            "ignored MCP channel notification because this server has channel.enabled=false"@,
        ),
        ChannelDeliveryDecision::Duplicate => Some("ignored duplicate MCP channel notification"@),
        ChannelDeliveryDecision::QueueFull => Some(
            "ignored MCP channel notification because the channel queue is full"@,
        ),
        ChannelDeliveryDecision::RateLimited => Some(
            "ignored MCP channel notification because the channel rate limit was reached"@,
        ),
    }
}

/// The warning with which a message is dropped.
pub fn refusal_warning(verdict: ChannelDeliveryDecision) -> (warning: Option<&'static str>)
    ensures
        warning.deep_view() == warning_text(verdict),
{
    match verdict {
        ChannelDeliveryDecision::Accept => None,
        ChannelDeliveryDecision::Disabled => Some(
            "ignored MCP channel notification because this server has channel.enabled=false",
        ),
        ChannelDeliveryDecision::Duplicate => Some("ignored duplicate MCP channel notification"),
        ChannelDeliveryDecision::QueueFull => Some(
            "ignored MCP channel notification because the channel queue is full",
        ),
        ChannelDeliveryDecision::RateLimited => Some(
            "ignored MCP channel notification because the channel rate limit was reached",
        ),
    }
}

/// The notifications of one server on their way to the session.
pub struct ChannelRelay {
    server_name: String,
    config: McpServerChannelConfig,
    peer: String,
    state: ChannelDeliveryState,
}

impl ChannelRelay {
    /// The name of the server.
    pub closed spec fn server(&self) -> Seq<char> {
        self.server_name@
    }

    /// The name of the client whose channel method is served beside this client's own.
    pub closed spec fn peer_name(&self) -> Seq<char> {
        self.peer@
    }

    /// The policy of the server.
    pub closed spec fn policy(&self) -> McpServerChannelConfig {
        self.config
    }

    /// What the delivery remembers.
    pub closed spec fn delivery(&self) -> DeliveryModel {
        self.state@
    }

    /// A relay that has seen nothing yet. `peer` is the name of the client whose channel method is
    /// served beside this client's own.
    pub fn new(
        server_name: String,
        config: McpServerChannelConfig,
        peer: String,
    ) -> (relay: Self)
        ensures
            relay.server() == server_name@,
            relay.peer_name() == peer@,
            relay.policy() == config,
            relay.delivery() == nothing_seen(config.dedupe_capacity as nat),
    {
        let state = ChannelDeliveryState::new(config.dedupe_capacity);
        ChannelRelay { server_name, config, peer, state }
    }

    /// Decides on a message that is announced `now`, a time in nanoseconds.
    pub fn relay_at(&mut self, announced: Option<ChannelMessageEvent>, now: u128) -> (action:
        RelayAction)
        ensures
            final(self).server() == old(self).server(),
            final(self).peer_name() == old(self).peer_name(),
            final(self).policy() == old(self).policy(),
            action@ == relayed(
                old(self).delivery(),
                old(self).policy(),
                announced.deep_view(),
                now,
            ),
            final(self).delivery() == state_after(
                old(self).delivery(),
                old(self).policy(),
                announced.deep_view(),
                now,
            ),
            old(self).delivery().well_formed() ==> final(self).delivery().well_formed(),
    {
        match announced {
            None => RelayAction::Ignore,
            Some(message) => {
                let verdict = self.state.accept_at(&self.config, &message, now);
                verdict_action(verdict, message)
            },
        }
    }

    /// Decides on a notification as the clock stands. The time that is used is never before one that
    /// was used earlier.
    pub fn on_notification(&mut self, method: &str, params: Option<serde_json::Value>) -> (action:
        RelayAction)
        ensures
            final(self).server() == old(self).server(),
            final(self).peer_name() == old(self).peer_name(),
            final(self).policy() == old(self).policy(),
            exists|now: u128|
                {
                    &&& action@ == #[trigger] relayed(
                        old(self).delivery(),
                        old(self).policy(),
                        announced_message(
                            old(self).server(),
                            method@,
                            old(self).peer_name(),
                            params_tree(params),
                        ),
                        now,
                    )
                    &&& final(self).delivery() == state_after(
                        old(self).delivery(),
                        old(self).policy(),
                        announced_message(
                            old(self).server(),
                            method@,
                            old(self).peer_name(),
                            params_tree(params),
                        ),
                        now,
                    )
                    &&& old(self).delivery().clock <= now
                },
            old(self).delivery().well_formed() ==> final(self).delivery().well_formed(),
    {
        match channel_message_event(
            self.server_name.as_str(),
            method,
            self.peer.as_str(),
            params,
        ) {
            None => {
                assert(RelayAction::Ignore@ == relayed(
                    self.delivery(),
                    self.policy(),
                    None,
                    self.delivery().clock,
                ));
                RelayAction::Ignore
            },
            Some(message) => {
                let verdict = self.state.accept(&self.config, &message);
                proof {
                    let now = choose|now: u128|
                        {
                            &&& verdict == #[trigger] decision(
                                old(self).delivery(),
                                self.config,
                                message@.id,
                                now,
                            )
                            &&& self.state@ == after(
                                old(self).delivery(),
                                self.config,
                                message@.id,
                                now,
                            )
                            &&& old(self).delivery().clock <= now
                        };
                    let model = relayed(
                        old(self).delivery(),
                        self.config,
                        Some(message@),
                        now,
                    );
                }
                verdict_action(verdict, message)
            },
        }
    }
}

/// What becomes of a message on which the delivery has decided.
fn verdict_action(verdict: ChannelDeliveryDecision, message: ChannelMessageEvent) -> (action:
    RelayAction)
    ensures
        action@ == (if verdict == ChannelDeliveryDecision::Accept {
            RelayModel::Forward { event_id: "mcp_channel_"@ + message@.id, message: message@ }
        } else {
            RelayModel::Refuse { verdict, message_id: message@.id }
        }),
{
    if verdict == ChannelDeliveryDecision::Accept {
        let mut event_id = "mcp_channel_".to_owned();
        event_id.append(message.id.as_str());
        RelayAction::Forward { event_id, message }
    } else {
        RelayAction::Refuse { verdict, message_id: message.id }
    }
}

} // verus!
