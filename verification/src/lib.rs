//! OpenCrust core library: the verified heart of a personal AI gateway.
//!
//! The modules here cover the durable session store, the heartbeat
//! scheduler, the plugin sandbox policy (filesystem scoping, network
//! allowlisting, resource limits, output classification), the WebSocket
//! gateway protocol, input validation, and the small text formats the
//! gateway speaks (RFC 3339 timestamps, JSON frames, AppleScript
//! literals).

mod banner;
mod chatdb;
mod config;
mod errors;
mod gateway;
mod imessage;
mod ip;
mod message;
mod migrations;
mod paths;
mod sandbox;
mod schedule;
mod store;
mod text;
mod timefmt;
mod validate;
mod vector;
mod wizard;

pub use chatdb::core_data_ns_to_unix;
pub use chatdb::{ChatDb, IncomingMessage};
pub use chatdb::CORE_DATA_EPOCH_OFFSET;
pub use message::MessageDirection;
pub use migrations::Migration;
pub use banner::{channels_label, gateway_url, mcp_label, pad_right_string, provider_label, repeat_string, skills_label};
pub use config::{config_format_for, event_touches_config, str_eq, AppConfig, ConfigFormat, GatewayConfig};
pub use errors::Error;
pub use errors::LibResult;
pub use gateway::{
    classify_text_frame, connected_frame, health_body, json_escape, message_frame,
    message_too_large_frame, prompt_injection_frame, resumed_frame, status_body,
    text_message_too_large, unknown_session_frame, AppState, ClientFrame, FrameDecision,
    GatewayServer, SessionState,
};
pub use sandbox::{
    capabilities, classify_outcome, effective_output_limit, epoch_deadline, filter_env,
    memory_limit_bytes, Capability, GuestOutcome, PluginInfo, PluginLimits, PluginManifest,
    PluginOutput, PluginPermissions,
};
pub use schedule::{
    lemma_fire_at_is_call_time_plus_delay, ScheduleHeartbeat, ToolContext, ToolOutput,
    MAX_DELAY_SECONDS, MAX_PENDING_PER_SESSION,
};
pub use store::{
    lemma_append_bumps_updated_at, lemma_append_preserves_history, lemma_delete_cascades,
    lemma_due_matches_clock, MessageRecord, SessionRecord, SessionStore, TaskRecord,
};
pub use timefmt::{
    format_rfc3339, lemma_rfc3339_preserves_order, lemma_rfc3339_roundtrip, parse_timestamp,
    MAX_UNIX_SECONDS,
};
pub use vector::VectorStore;
pub use wizard::{apply_vault_outcome, decide_key_storage, env_hint_for_provider, KeyStorage};
pub use imessage::applescript_escape;
pub use imessage::build_send_script;
pub use ip::{is_private_ip, screen_resolutions, socket_use_allowed, IpAddress, SocketUse};
pub use paths::{
    assemble_mounts, check_canonical_inside_root, join_under_root, plan_domain_queries,
    plan_mounts, validate_relative_path, MountPlan,
};
pub use validate::InputValidator;
