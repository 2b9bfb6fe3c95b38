use csgo_server::name_filter::REPLACEMENT;
use csgo_server::{
    clock_face, connect_link, connect_prefix, format_players, join_names, map_str, status_colour,
    StatusColour,
};

fn names(list: &[&str]) -> Vec<String> {
    list.iter().map(|s| s.to_string()).collect()
}

#[test]
fn names_are_joined_one_to_a_line() {
    assert_eq!(join_names(&names(&[])), "");
    assert_eq!(join_names(&names(&["Nomad"])), "Nomad");
    assert_eq!(join_names(&names(&["Nomad", "GlamuR", "Crasher"])), "Nomad\nGlamuR\nCrasher");
    assert_eq!(join_names(&names(&["", ""])), "\n");
}

#[test]
fn joined_names_are_censored() {
    assert_eq!(
        join_names(&names(&["Nomad", "xx retard xx"])),
        format!("Nomad\nxx {} xx", REPLACEMENT)
    );
}

#[test]
fn player_list_without_waiting_is_the_plain_list() {
    assert_eq!(format_players(&names(&["a", "b"]), &names(&[])), "a\nb");
    assert_eq!(format_players(&names(&[]), &names(&[])), "");
}

#[test]
fn player_list_with_waiting_has_a_heading() {
    assert_eq!(
        format_players(&names(&["a", "b"]), &names(&["c", "d"])),
        "\na\nb\n```\nWaiting for next match (estimated)\n```\nc\nd\n"
    );
    assert_eq!(
        format_players(&names(&[]), &names(&["c"])),
        "\n \n```\nWaiting for next match (estimated)\n```\nc\n"
    );
}

const SEC: u128 = 1_000_000_000;

#[test]
fn colour_goes_by_head_count() {
    assert_eq!(status_colour(0), None);
    assert_eq!(status_colour(5), None);
    assert_eq!(status_colour(6), Some(StatusColour::DarkGreen));
    assert_eq!(status_colour(17), Some(StatusColour::DarkGreen));
    assert_eq!(status_colour(18), Some(StatusColour::Purple));
    assert_eq!(status_colour(usize::MAX), Some(StatusColour::Purple));
}

#[test]
fn clock_shows_minutes_within_the_hour() {
    assert_eq!(clock_face(0), (0, 0));
    assert_eq!(clock_face(SEC - 1), (0, 0));
    assert_eq!(clock_face(59 * SEC), (0, 59));
    assert_eq!(clock_face(60 * SEC), (1, 0));
    assert_eq!(clock_face(754 * SEC + 5), (12, 34));
    assert_eq!(clock_face(3599 * SEC), (59, 59));
    assert_eq!(clock_face(3600 * SEC), (0, 0));
    assert_eq!(clock_face(3725 * SEC), (2, 5));
}

#[test]
fn connect_prefix_allows_uploads_where_required() {
    assert_eq!(connect_prefix(true), "sv_allowupload 1; ");
    assert_eq!(connect_prefix(false), "");
}

#[test]
fn connect_link_encodes_the_address() {
    assert_eq!(
        connect_link("https://dz.kotiboksi.xyz", "127.0.0.1:27015"),
        "https://dz.kotiboksi.xyz/127.0.0.1%3A27015"
    );
    assert_eq!(connect_link("r", "a-b_c.d~e"), "r/a-b_c.d~e");
    assert_eq!(connect_link("r", "a b/c?d"), "r/a%20b%2Fc%3Fd");
    assert_eq!(connect_link("", ""), "/");
    // Every byte of a character outside ASCII is written out.
    assert_eq!(connect_link("r", "\u{e9}"), "r/%C3%A9");
}

#[test]
fn map_title_drops_the_prefix() {
    assert_eq!(map_str("dz_sirocco"), "Sirocco");
    assert_eq!(map_str("de_dust2"), "Dust2");
    assert_eq!(map_str("dz_Ember"), "Ember");
    assert_eq!(map_str("dz_x"), "X");
}

#[test]
fn map_title_keeps_other_names() {
    assert_eq!(map_str("sirocco"), "sirocco");
    assert_eq!(map_str("aim_map"), "aim_map");
    assert_eq!(map_str(""), "");
    assert_eq!(map_str("dz"), "dz");
    assert_eq!(map_str("dz_"), "dz_");
}

#[test]
fn map_title_capital_follows_unicode() {
    assert_eq!(map_str("dz_\u{e9}t\u{e9}"), "\u{c9}t\u{e9}");
    // One character may take several in upper case.
    assert_eq!(map_str("dz_\u{df}en"), "SSen");
}
