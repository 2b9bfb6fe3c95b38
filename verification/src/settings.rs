//! Settings of the bot, and who may change them.

use crate::text::opt_text;
use vstd::prelude::*;
use vstd::string::StringExecFns;

verus! {

/// The settings, of which there is one set.
#[derive(Debug, Clone)]
pub struct Settings {
    /// The key of the only row: 1.
    pub id: i64,
    pub external_redirector_address: Option<String>,
    pub activity_server_identifier: Option<String>,
    pub activity_server_max_players: Option<i64>,
}

impl Settings {
    /// Settings as read from storage. The key is 1 whatever was stored.
    pub fn new(
        external_redirector_address: Option<String>,
        activity_server_identifier: Option<String>,
        activity_server_max_players: Option<i64>,
    ) -> (settings: Settings)
        ensures
            settings.id == 1,
            settings.external_redirector_address == external_redirector_address,
            settings.activity_server_identifier == activity_server_identifier,
            settings.activity_server_max_players == activity_server_max_players,
    {
        Settings {
            id: 1,
            external_redirector_address,
            activity_server_identifier,
            activity_server_max_players,
        }
    }
}

impl Default for Settings {
    fn default() -> (settings: Settings)
        ensures
            settings.id == 1,
            opt_text(settings.external_redirector_address) == Some("https://dz.kotiboksi.xyz"@),
            opt_text(settings.activity_server_identifier) == Some("meow"@),
            settings.activity_server_max_players == Some(16i64),
    {
        Settings {
            id: 1,
            external_redirector_address: Some(String::from_str("https://dz.kotiboksi.xyz")),
            activity_server_identifier: Some(String::from_str("meow")),
            activity_server_max_players: Some(16),
        }
    }
}

/// Whether the user of this id may run the commands that change the
/// configuration.
pub open spec fn spec_is_privileged(id: u64) -> bool {
    id == 349607458324348930 || id == 224271935989612545 || id == 270112207344369665
}

/// Whether the user of this id may run the commands that change the
/// configuration.
pub fn is_privileged(id: u64) -> (allowed: bool)
    ensures
        allowed == spec_is_privileged(id),
{
    let thunder = id == 349607458324348930;
    let yugge = id == 224271935989612545;
    let strawbarry = id == 270112207344369665;
    thunder || yugge || strawbarry
}

} // verus!
