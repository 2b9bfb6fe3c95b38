use csgo_server::name_filter::{PATTERN, REPLACEMENT};
use csgo_server::{filter, replace_match};

#[test]
fn slurs() {
    let test = [
        "hi nigga",
        "nigger",
        "CS2 TSHIRT, orders +51997696358",
        "fuck you retard",
    ];

    let expected = [
        "hi \u{11f}\u{178}\u{2c6} censored \u{11f}\u{178}\u{2c6}",
        "\u{11f}\u{178}\u{2c6} censored \u{11f}\u{178}\u{2c6}",
        "CS2 TSHIRT, orders \u{11f}\u{178}\u{2c6} censored \u{11f}\u{178}\u{2c6}",
        "fuck you \u{11f}\u{178}\u{2c6} censored \u{11f}\u{178}\u{2c6}",
    ];

    for (t, e) in test.iter().zip(expected.iter()) {
        assert!(filter(t) == *e);
    }
}

#[test]
fn replacement_is_the_fixed_text() {
    assert_eq!(REPLACEMENT.as_bytes(), b"\xc4\x9f\xc5\xb8\xcb\x86 censored \xc4\x9f\xc5\xb8\xcb\x86");
    assert!(PATTERN.starts_with("(?i)("));
}

#[test]
fn clean_names_pass_unchanged() {
    assert_eq!(filter("Nomad"), "Nomad");
    assert_eq!(filter(""), "");
    assert_eq!(filter("$tillPalmTrees\u{2122}"), "$tillPalmTrees\u{2122}");
    // Six digits are no phone number.
    assert_eq!(filter("call +123456"), "call +123456");
}

#[test]
fn every_match_is_replaced() {
    let r = REPLACEMENT;
    assert_eq!(filter("retard and RETARD"), format!("{} and {}", r, r));
    assert_eq!(filter("+1234567 +7654321"), format!("{} {}", r, r));
    assert_eq!(filter("xfagx"), format!("x{}x", r));
}

#[test]
fn match_after_multibyte_text_is_replaced() {
    let r = REPLACEMENT;
    assert_eq!(filter("\u{2122}\u{e9} troon \u{e9}"), format!("\u{2122}\u{e9} {} \u{e9}", r));
}

#[test]
fn replace_match_splices_on_boundaries() {
    let r = REPLACEMENT;
    assert_eq!(replace_match("hello", 1, 3), format!("h{}lo", r));
    assert_eq!(replace_match("hello", 0, 5), r);
    assert_eq!(replace_match("hello", 2, 2), format!("he{}llo", r));
    assert_eq!(replace_match("a\u{e9}b", 1, 3), format!("a{}b", r));
}

#[test]
fn replace_match_leaves_bad_ranges_alone() {
    assert_eq!(replace_match("hello", 3, 1), "hello");
    assert_eq!(replace_match("hello", 2, 9), "hello");
    assert_eq!(replace_match("hello", 7, 9), "hello");
    // Inside the two bytes of one character.
    assert_eq!(replace_match("a\u{e9}b", 2, 3), "a\u{e9}b");
    assert_eq!(replace_match("a\u{e9}b", 1, 2), "a\u{e9}b");
}
