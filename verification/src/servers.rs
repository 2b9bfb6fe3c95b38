//! A monitored server as it is configured.

use vstd::prelude::*;
use vstd::string::StringExecFns;

verus! {

/// Player slots assumed for a server that names none.
pub const DEFAULT_MAX_PLAYERS: i64 = 16;

/// A monitored server: where to reach it and how to present it.
#[derive(Debug, Clone)]
pub struct Server {
    pub name: String,
    pub addr: String,
    pub max_player_count: i64,
    pub legacy: bool,
    pub allow_upload_required: bool,
}

impl Server {
    /// A server from what an operator entered. What was left open is
    /// filled in: sixteen slots, a legacy server, no uploads required.
    pub fn new(
        name: String,
        addr: String,
        max_player_count: Option<u8>,
        legacy: Option<bool>,
        allow_upload_required: Option<bool>,
    ) -> (server: Server)
        ensures
            server.name == name,
            server.addr == addr,
            server.max_player_count == match max_player_count {
                Some(v) => v as i64,
                None => DEFAULT_MAX_PLAYERS,
            },
            server.legacy == match legacy {
                Some(v) => v,
                None => true,
            },
            server.allow_upload_required == match allow_upload_required {
                Some(v) => v,
                None => false,
            },
    {
        let max_player_count: i64 = match max_player_count {
            Some(v) => v as i64,
            None => DEFAULT_MAX_PLAYERS,
        };
        let legacy: bool = match legacy {
            Some(v) => v,
            None => true,
        };
        let allow_upload_required: bool = match allow_upload_required {
            Some(v) => v,
            None => false,
        };
        Server { name, addr, max_player_count, legacy, allow_upload_required }
    }
}

/// Help text of the command that adds a server.
pub fn create_server_help() -> (text: String)
    ensures
        text@ == "Adds a new server to the list, counterintuitively this also works for updating the address of an existing server.\nRequires admin privileges."@,
{
    String::from_str(
        "Adds a new server to the list, counterintuitively this also works for updating the address of an existing server.\nRequires admin privileges.",
    )
}

} // verus!
