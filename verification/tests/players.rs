use csgo_server::{DecodeError, Player, Players, Reader};

/// A captured player list of eight entries.
fn captured() -> Vec<u8> {
    vec![
        255, 255, 255, 255, 68, 8, 0, 68, 97, 116, 72, 111, 115, 116, 32, 45, 32, 71, 79, 84, 86,
        0, 0, 0, 0, 0, 204, 97, 175, 70, 0, 0, 0, 0, 0, 0, 21, 145, 89, 70, 0, 112, 111, 107, 105,
        115, 52, 52, 52, 118, 50, 0, 29, 0, 0, 0, 199, 245, 219, 69, 0, 78, 111, 109, 97, 100, 0,
        36, 0, 0, 0, 38, 198, 218, 69, 0, 71, 108, 97, 109, 117, 82, 0, 37, 0, 0, 0, 245, 204,
        101, 69, 0, 36, 116, 105, 108, 108, 80, 97, 108, 109, 84, 114, 101, 101, 115, 226, 132,
        162, 0, 0, 0, 0, 0, 143, 38, 193, 67, 0, 67, 114, 97, 115, 104, 101, 114, 0, 0, 0, 0, 0,
        112, 127, 17, 67, 0, 67, 117, 112, 111, 102, 106, 117, 105, 99, 101, 0, 0, 0, 0, 0, 114,
        71, 17, 67,
    ]
}

#[test]
fn captured_list_decodes() {
    let players = Players::try_from(&captured()).unwrap().0;
    let names: Vec<&str> = players.iter().map(|p| p.name.as_str()).collect();
    assert_eq!(
        names,
        vec![
            "DatHost - GOTV",
            "",
            "pokis444v2",
            "Nomad",
            "GlamuR",
            "$tillPalmTrees\u{2122}",
            "Crasher",
            "Cupofjuice"
        ]
    );
    let scores: Vec<i32> = players.iter().map(|p| p.score).collect();
    assert_eq!(scores, vec![0, 0, 29, 36, 37, 0, 0, 0]);
    assert!(players.iter().all(|p| p.index == 0));
    assert_eq!(players[0].duration_bits, 0x46AF_61CC);
    assert_eq!(f32::from_bits(players[0].duration_bits), 22448.8984375);
    assert_eq!(f32::from_bits(players[7].duration_bits), 145.27908325195312);
}

#[test]
fn real_players_drops_relay_and_nameless() {
    let kept = Players::try_from(&captured()).unwrap().real_players().0;
    let names: Vec<&str> = kept.iter().map(|p| p.name.as_str()).collect();
    assert_eq!(
        names,
        vec!["pokis444v2", "Nomad", "GlamuR", "$tillPalmTrees\u{2122}", "Crasher", "Cupofjuice"]
    );
    assert_eq!(kept[1].score, 36);
}

#[test]
fn real_players_of_none_is_none() {
    assert!(Players(Vec::new()).real_players().0.is_empty());
}

#[test]
fn is_real_tells_people_apart() {
    let p = |name: &str| Player { index: 3, name: name.to_string(), score: 1, duration_bits: 0 };
    assert!(p("Nomad").is_real());
    assert!(!p("").is_real());
    assert!(!p("DatHost - GOTV").is_real());
    assert!(p("DatHost - GOTV ").is_real());
    assert!(p("dathost - gotv").is_real());
}

#[test]
fn empty_list_decodes() {
    let players = Players::try_from(&[0xFF, 0xFF, 0xFF, 0xFF, b'D', 0]).unwrap();
    assert!(players.0.is_empty());
    // Bytes after the announced records are ignored.
    let players = Players::try_from(&[0xFF, 0xFF, 0xFF, 0xFF, b'D', 0, 9, 9]).unwrap();
    assert!(players.0.is_empty());
}

#[test]
fn one_record_decodes() {
    let mut r = Reader::new(&[4, b'a', b'b', 0, 0xFF, 0xFF, 0xFF, 0xFF, 0, 0, 0x80, 0x3F, 7]);
    let p = Player::make(&mut r).unwrap();
    assert_eq!(p.index, 4);
    assert_eq!(p.name, "ab");
    assert_eq!(p.score, -1);
    assert_eq!(f32::from_bits(p.duration_bits), 1.0);
    assert_eq!(r.len(), 1);
}

#[test]
fn list_shorter_than_announced_fails() {
    let full = captured();
    for cut in 0..full.len() {
        assert_eq!(
            Players::try_from(&full[..cut]).unwrap_err(),
            DecodeError::UnexpectedEnd,
            "cut at {}",
            cut
        );
    }
    let mut more = full.clone();
    more[5] = 9;
    assert_eq!(Players::try_from(&more).unwrap_err(), DecodeError::UnexpectedEnd);
}

#[test]
fn list_with_invalid_name_fails() {
    let mut bad = captured();
    bad[8] = 0xC0;
    assert_eq!(Players::try_from(&bad).unwrap_err(), DecodeError::InvalidUtf8);
}
