use csgo_server::text::same_text;
use csgo_server::MapData;

const T: u128 = 1_700_000_000_123_456_789;

#[test]
fn image_is_selected_by_the_instant() {
    assert_eq!(MapData::get_image("dz_sirocco", T).as_deref(), Some("sirocco2.jpg"));
    assert_eq!(MapData::get_image("dz_blacksite", T).as_deref(), Some("blacksite3.jpg"));
    assert_eq!(MapData::get_image("dz_ember", T).as_deref(), Some("ember5.jpg"));
    assert_eq!(MapData::get_image("dz_vineyard", T).as_deref(), Some("vineyard3.jpg"));
    assert_eq!(MapData::get_image("dz_county", T).as_deref(), Some("county3.jpg"));
}

#[test]
fn image_walks_through_the_variants() {
    assert_eq!(MapData::get_image("dz_sirocco", 0).as_deref(), Some("sirocco1.jpg"));
    assert_eq!(MapData::get_image("dz_sirocco", 1).as_deref(), Some("sirocco2.jpg"));
    assert_eq!(MapData::get_image("dz_sirocco", 2).as_deref(), Some("sirocco3.jpg"));
    assert_eq!(MapData::get_image("dz_sirocco", 3).as_deref(), Some("sirocco4.jpg"));
    assert_eq!(MapData::get_image("dz_sirocco", 4).as_deref(), Some("sirocco1.jpg"));
    assert_eq!(MapData::get_image("dz_ember", 4).as_deref(), Some("ember5.jpg"));
}

#[test]
fn image_goes_by_the_low_64_bits() {
    let wrapped: u128 = (1u128 << 64) * 7 + 10;
    assert_eq!(MapData::get_image("dz_county", wrapped).as_deref(), Some("county2.jpg"));
    assert_eq!(
        MapData::get_image("dz_county", wrapped),
        MapData::get_image("dz_county", 10)
    );
    assert_eq!(MapData::get_image("dz_blacksite", u128::MAX).as_deref(), Some("blacksite1.jpg"));
}

#[test]
fn image_is_reproducible() {
    assert_eq!(MapData::get_image("dz_ember", T), MapData::get_image("dz_ember", T));
}

#[test]
fn map_without_pictures_has_none() {
    assert_eq!(MapData::get_image("de_dust2", T), None);
    assert_eq!(MapData::get_image("", T), None);
    assert_eq!(MapData::get_image("DZ_SIROCCO", T), None);
    assert_eq!(MapData::get_image("dz_sirocco ", T), None);
}

#[test]
fn new_state_holds_map_time_and_image() {
    let m = MapData::new("dz_sirocco", T);
    assert_eq!(m.map(), "dz_sirocco");
    assert_eq!(m.time(), T);
    assert_eq!(m.image().as_deref(), Some("sirocco2.jpg"));
    let plain = MapData::new("de_dust2", 5);
    assert_eq!(plain.map(), "de_dust2");
    assert_eq!(plain.time(), 5);
    assert_eq!(*plain.image(), None);
}

#[test]
fn update_restarts_the_state() {
    let mut m = MapData::new("dz_sirocco", T);
    m.update("dz_ember", T + 3);
    assert_eq!(m.map(), "dz_ember");
    assert_eq!(m.time(), T + 3);
    assert_eq!(m.image().as_deref(), Some("ember3.jpg"));
    m.update("de_dust2", T + 4);
    assert_eq!(*m.image(), None);
}

#[test]
fn same_text_compares_contents() {
    assert!(same_text("dz_ember", "dz_ember"));
    assert!(!same_text("dz_ember", "dz_embers"));
    assert!(same_text("", ""));
}
