//! Channel delivery and local loop control for a coding agent session.

pub mod call_laws;
pub mod channel_delivery;
pub mod channel_event;
pub mod channel_format;
pub mod channel_laws;
pub mod channel_relay;
pub mod chat_widget;
pub mod command_laws;
pub mod delivery_laws;
pub mod display_laws;
pub mod fragments;
pub mod json;
pub mod json_text;
pub mod loop_laws;
pub mod loop_protocol;
pub mod mcp_startup;
pub mod mcp_tools;
pub mod message_laws;
pub mod numerals;
pub mod request_laws;
pub mod server_call_laws;
pub mod server_laws;
pub mod text;
pub mod text_call_laws;
pub mod text_laws;
pub mod window_laws;
