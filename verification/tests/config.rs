use csgo_server::servers::DEFAULT_MAX_PLAYERS;
use csgo_server::updating::UPDATE_INTERVAL_SECS;
use csgo_server::{
    create_server_help, create_usm_help, delete_usm_help, is_privileged, is_tracked, untrack,
    Server, Settings,
};

#[test]
fn server_defaults_fill_what_was_left_open() {
    let s = Server::new("meow".to_string(), "127.0.0.1:27015".to_string(), None, None, None);
    assert_eq!(s.name, "meow");
    assert_eq!(s.addr, "127.0.0.1:27015");
    assert_eq!(s.max_player_count, 16);
    assert_eq!(DEFAULT_MAX_PLAYERS, 16);
    assert!(s.legacy);
    assert!(!s.allow_upload_required);
}

#[test]
fn server_keeps_what_was_entered() {
    let s = Server::new("a".to_string(), "b".to_string(), Some(255), Some(false), Some(true));
    assert_eq!(s.max_player_count, 255);
    assert!(!s.legacy);
    assert!(s.allow_upload_required);
    let zero = Server::new("a".to_string(), "b".to_string(), Some(0), None, None);
    assert_eq!(zero.max_player_count, 0);
}

#[test]
fn default_settings() {
    let s = Settings::default();
    assert_eq!(s.id, 1);
    assert_eq!(s.external_redirector_address.as_deref(), Some("https://dz.kotiboksi.xyz"));
    assert_eq!(s.activity_server_identifier.as_deref(), Some("meow"));
    assert_eq!(s.activity_server_max_players, Some(16));
}

#[test]
fn settings_from_storage() {
    let s = Settings::new(None, Some("meow2".to_string()), Some(10));
    assert_eq!(s.id, 1);
    assert_eq!(s.external_redirector_address, None);
    assert_eq!(s.activity_server_identifier.as_deref(), Some("meow2"));
    assert_eq!(s.activity_server_max_players, Some(10));
}

#[test]
fn privileges_go_by_id() {
    assert!(is_privileged(349607458324348930));
    assert!(is_privileged(224271935989612545));
    assert!(is_privileged(270112207344369665));
    assert!(!is_privileged(0));
    assert!(!is_privileged(349607458324348931));
    assert!(!is_privileged(u64::MAX));
}

#[test]
fn help_texts() {
    assert_eq!(
        create_server_help(),
        "Adds a new server to the list, counterintuitively this also works for updating the address of an existing server.\nRequires admin privileges."
    );
    assert_eq!(
        create_usm_help(),
        "Create a status message that will get continuously updated.\nThis requires admin privileges."
    );
    assert_eq!(
        delete_usm_help(),
        "Delete an updating status message, and remove it from the database.\nThis requires admin privileges."
    );
}

fn entries() -> Vec<(u64, u64, String)> {
    vec![
        (1, 10, "meow".to_string()),
        (1, 11, "meow2".to_string()),
        (2, 10, "meow".to_string()),
        (1, 10, "meow2".to_string()),
    ]
}

#[test]
fn tracked_messages_are_found_by_both_ids() {
    assert_eq!(UPDATE_INTERVAL_SECS, 15);
    let list = entries();
    assert!(is_tracked(&list, 1, 10));
    assert!(is_tracked(&list, 2, 10));
    assert!(!is_tracked(&list, 2, 11));
    assert!(!is_tracked(&list, 10, 1));
    assert!(!is_tracked(&Vec::new(), 1, 10));
}

#[test]
fn untrack_takes_out_every_entry_of_the_message() {
    let kept = untrack(entries(), 1, 10);
    assert_eq!(kept, vec![(1, 11, "meow2".to_string()), (2, 10, "meow".to_string())]);
    assert_eq!(untrack(entries(), 9, 9), entries());
    assert!(untrack(Vec::new(), 1, 10).is_empty());
}
