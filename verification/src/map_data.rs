//! Per-server map state: the current map, when it was first seen, and the
//! picture chosen for it.
//!
//! Instants are nanoseconds since the Unix epoch, read by the caller.

use crate::text::{opt_text, same_text};
use vstd::prelude::*;
use vstd::string::StringExecFns;

verus! {

/// Nanoseconds in a second.
pub const NANOS_PER_SEC: u128 = 1_000_000_000;

/// The pictures on hand for a map, in the order they are numbered. Empty for
/// a map that has none.
pub open spec fn images_for(map: Seq<char>) -> Seq<Seq<char>> {
    if map == "dz_sirocco"@ {
        seq!["sirocco1.jpg"@, "sirocco2.jpg"@, "sirocco3.jpg"@, "sirocco4.jpg"@]
    } else if map == "dz_blacksite"@ {
        seq!["blacksite1.jpg"@, "blacksite2.jpg"@, "blacksite3.jpg"@]
    } else if map == "dz_ember"@ {
        seq!["ember1.jpg"@, "ember2.jpg"@, "ember3.jpg"@, "ember4.jpg"@, "ember5.jpg"@]
    } else if map == "dz_vineyard"@ {
        seq!["vineyard1.jpg"@, "vineyard2.jpg"@, "vineyard3.jpg"@]
    } else if map == "dz_county"@ {
        seq!["county1.jpg"@, "county2.jpg"@, "county3.jpg"@]
    } else {
        Seq::empty()
    }
}

/// Which of `count` pictures an instant selects: its low 64 bits, modulo
/// `count`.
pub open spec fn image_index(time: u128, count: int) -> int
    recommends
        count > 0,
{
    (time as int % 0x1_0000_0000_0000_0000) % count
}

/// The picture for `map` as of `time`, where the map has any.
pub open spec fn spec_image(map: Seq<char>, time: u128) -> Option<Seq<char>> {
    let images = images_for(map);
    if images.len() == 0 {
        None
    } else {
        Some(images[image_index(time, images.len() as int)])
    }
}

/// The views of a run of string slices.
pub open spec fn texts(items: Seq<&'static str>) -> Seq<Seq<char>> {
    items.map_values(|s: &'static str| s@)
}

/// The pictures on hand for `map`.
fn images(map: &str) -> (list: Vec<&'static str>)
    ensures
        texts(list@) == images_for(map@),
{
    let list: Vec<&'static str> = if same_text(map, "dz_sirocco") {
        vec!["sirocco1.jpg", "sirocco2.jpg", "sirocco3.jpg", "sirocco4.jpg"]
    } else if same_text(map, "dz_blacksite") {
        vec!["blacksite1.jpg", "blacksite2.jpg", "blacksite3.jpg"]
    } else if same_text(map, "dz_ember") {
        vec!["ember1.jpg", "ember2.jpg", "ember3.jpg", "ember4.jpg", "ember5.jpg"]
    } else if same_text(map, "dz_vineyard") {
        vec!["vineyard1.jpg", "vineyard2.jpg", "vineyard3.jpg"]
    } else if same_text(map, "dz_county") {
        vec!["county1.jpg", "county2.jpg", "county3.jpg"]
    } else {
        Vec::new()
    };
    assert(texts(list@) == images_for(map@));
    list
}

/// What a [`MapData`] holds.
pub struct MapDataView {
    pub map: Seq<char>,
    pub time: u128,
    pub image: Option<Seq<char>>,
}

/// The state of a server first seen on `map` at `now`.
pub open spec fn first_seen(map: Seq<char>, now: u128) -> MapDataView {
    MapDataView { map, time: now, image: spec_image(map, now) }
}

/// The map a server runs, since when, and the picture chosen for it.
#[derive(Debug, Clone)]
pub struct MapData {
    map: String,
    time: u128,
    image: Option<String>,
}

impl View for MapData {
    type V = MapDataView;

    closed spec fn view(&self) -> MapDataView {
        MapDataView { map: self.map@, time: self.time, image: opt_text(self.image) }
    }
}

impl MapData {
    /// The state of a server first seen on `map` at `now`.
    pub fn new(map: &str, now: u128) -> (data: Self)
        ensures
            data@ == first_seen(map@, now),
    {
        Self { map: String::from_str(map), time: now, image: Self::get_image(map, now) }
    }

    /// Records a change to `map` at `now` and picks the picture anew.
    pub fn update(&mut self, map: &str, now: u128)
        ensures
            final(self)@ == first_seen(map@, now),
    {
        self.map = String::from_str(map);
        self.image = Self::get_image(map, now);
        self.time = now;
    }

    /// The picture for `map` as of `time`: none for a map without pictures,
    /// else the one that the instant selects.
    pub fn get_image(map: &str, time: u128) -> (image: Option<String>)
        ensures
            opt_text(image) == spec_image(map@, time),
    {
        let list = images(map);
        if list.len() == 0 {
            return None;
        }
        let low: u128 = time % 0x1_0000_0000_0000_0000;
        let index: usize = (low % (list.len() as u128)) as usize;
        proof {
            assert(texts(list@).len() == list@.len());
            assert(texts(list@)[index as int] == list@[index as int]@);
        }
        Some(String::from_str(list[index]))
    }

    /// The current map.
    pub fn map(&self) -> (map: &str)
        ensures
            map@ == self@.map,
    {
        self.map.as_str()
    }

    /// When the current map was first seen.
    pub fn time(&self) -> (time: u128)
        ensures
            time == self@.time,
    {
        self.time
    }

    /// The picture chosen for the current map.
    pub fn image(&self) -> (image: &Option<String>)
        ensures
            opt_text(*image) == self@.image,
    {
        &self.image
    }
}

} // verus!
