//! Telemetry for Source-engine game servers: the A2S wire codec, the
//! time-windowed poll cache and the up/down liveness rules built on it.
//!
//! Everything here is pure: callers perform the network exchange and read the
//! clock, and hand bytes and timestamps in.

pub mod down_detector;
pub mod info;
pub mod map_data;
pub mod name_filter;
pub mod players;
pub mod poll_cache;
pub mod request;
pub mod server_info;
pub mod servers;
pub mod settings;
pub mod status;
pub mod text;
pub mod updating;
pub mod wire;

pub use down_detector::{down_alert, down_detector};
pub use info::{ServerEnvironment, ServerInfo, ServerType, ServerVisibility, SourceTV, VAC};
pub use map_data::MapData;
pub use name_filter::{filter, replace_match};
pub use players::{Player, Players};
pub use poll_cache::PollCache;
pub use request::{first_request, next_step, Query, Step};
pub use server_info::{CacheError, Info, ServerDown, ServerState, ServerUp};
pub use servers::{create_server_help, Server};
pub use settings::{is_privileged, Settings};
pub use status::{
    clock_face, connect_link, connect_prefix, format_players, join_names, map_str, status_colour,
    StatusColour,
};
pub use updating::{create_usm_help, delete_usm_help, is_tracked, untrack};
pub use wire::{byte, float, long, long_long, short, string, DecodeError, Reader};
