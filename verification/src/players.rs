//! The `A2S_PLAYER` response: its records and its decoder.

use crate::info::HEADER_LEN;
use crate::wire::{
    byte, cut, cut_field, float, lemma_byte_cut, lemma_float_cut, lemma_long_cut,
    lemma_string_cut, lemma_string_rest, long, rest, spec_byte, spec_float, spec_long,
    spec_string, string, value, DecodeError, Reader,
};
use vstd::prelude::*;
use vstd::string::StringExecFns;

verus! {

/// One entry of the player list.
#[derive(Debug, Clone)]
pub struct Player {
    /// Slot of the player on the server.
    pub index: u8,
    pub name: String,
    pub score: i32,
    /// Seconds connected: the bit pattern of an IEEE 754 single.
    pub duration_bits: u32,
}

/// What a [`Player`] holds.
pub struct PlayerView {
    pub index: u8,
    pub name: Seq<char>,
    pub score: i32,
    pub duration_bits: u32,
}

impl View for Player {
    type V = PlayerView;

    open spec fn view(&self) -> PlayerView {
        PlayerView {
            index: self.index,
            name: self.name@,
            score: self.score,
            duration_bits: self.duration_bits,
        }
    }
}

/// What [`Player::make`] makes of the unread bytes: slot, name, score and
/// duration, in that order.
pub open spec fn spec_player(s: Seq<u8>) -> Result<(PlayerView, Seq<u8>), DecodeError> {
    let index = spec_byte(s);
    let name = spec_string(rest(index));
    let score = spec_long(rest(name));
    let duration = spec_float(rest(score));
    if index is Err {
        Err(index->Err_0)
    } else if name is Err {
        Err(name->Err_0)
    } else if score is Err {
        Err(score->Err_0)
    } else if duration is Err {
        Err(duration->Err_0)
    } else {
        Ok(
            (
                PlayerView {
                    index: value(index),
                    name: value(name),
                    score: value(score),
                    duration_bits: value(duration),
                },
                rest(duration),
            ),
        )
    }
}

/// `count` player records read one after another from `s`, and the bytes
/// behind the last of them.
pub open spec fn spec_player_list(count: nat, s: Seq<u8>) -> Result<
    (Seq<PlayerView>, Seq<u8>),
    DecodeError,
>
    decreases count,
{
    if count == 0 {
        Ok((Seq::empty(), s))
    } else {
        match spec_player(s) {
            Err(e) => Err(e),
            Ok((first, after)) => match spec_player_list((count - 1) as nat, after) {
                Err(e) => Err(e),
                Ok((others, unread)) => Ok((seq![first] + others, unread)),
            },
        }
    }
}

/// The list that a whole `A2S_PLAYER` datagram decodes to, and the bytes
/// behind its last record, which are not read: after marker and tag, a count
/// and that many records.
pub open spec fn spec_players(bytes: Seq<u8>) -> Result<(Seq<PlayerView>, Seq<u8>), DecodeError> {
    if bytes.len() < HEADER_LEN {
        Err(DecodeError::UnexpectedEnd)
    } else {
        match spec_byte(bytes.skip(HEADER_LEN as int)) {
            Err(e) => Err(e),
            Ok((count, after)) => spec_player_list(count as nat, after),
        }
    }
}

/// A player record is read alike from input cut short behind it, and not at
/// all from input cut short inside it.
pub proof fn lemma_player_cut(s: Seq<u8>, d: int)
    requires
        spec_player(s) is Ok,
        0 <= d <= s.len(),
    ensures
        spec_player(cut(s, d)) == cut_field(spec_player(s), d),
        rest(spec_player(s)).len() < s.len(),
{
    let index = spec_byte(s);
    let name = spec_string(rest(index));
    let score = spec_long(rest(name));
    lemma_string_rest(rest(index));
    lemma_byte_cut(s, d);
    if d <= rest(index).len() {
        lemma_string_cut(rest(index), d);
    }
    if d <= rest(name).len() {
        lemma_long_cut(rest(name), d);
    }
    if d <= rest(score).len() {
        lemma_float_cut(rest(score), d);
    }
}

/// A run of player records is read alike from input cut short behind it,
/// and not at all from input cut short inside it.
pub proof fn lemma_player_list_cut(count: nat, s: Seq<u8>, d: int)
    requires
        spec_player_list(count, s) is Ok,
        0 <= d <= s.len(),
    ensures
        spec_player_list(count, cut(s, d)) == cut_field(spec_player_list(count, s), d),
        rest(spec_player_list(count, s)).len() <= s.len(),
    decreases count,
{
    if count == 0 {
    } else {
        lemma_player_cut(s, d);
        let after = rest(spec_player(s));
        lemma_player_list_cut((count - 1) as nat, after, 0);
        if d <= after.len() {
            lemma_player_list_cut((count - 1) as nat, after, d);
        }
    }
}

/// A player list that decodes, cut short by `d` bytes: while the cut takes
/// unread bytes only, it decodes to the same list; once it reaches into the
/// last record or further, decoding fails with
/// [`DecodeError::UnexpectedEnd`].
pub proof fn lemma_truncated_players(bytes: Seq<u8>, d: int)
    requires
        spec_players(bytes) is Ok,
        0 <= d <= bytes.len(),
    ensures
        spec_players(cut(bytes, d)) == cut_field(spec_players(bytes), d),
{
    let body = bytes.skip(HEADER_LEN as int);
    let count = spec_byte(body);
    lemma_player_list_cut(value(count) as nat, rest(count), 0);
    if d <= body.len() {
        assert(cut(bytes, d).skip(HEADER_LEN as int) == cut(body, d));
        lemma_byte_cut(body, d);
    }
    if d <= rest(count).len() {
        lemma_player_list_cut(value(count) as nat, rest(count), d);
    }
}

/// Name under which the spectator relay shows up in the player list.
pub open spec fn relay_name() -> Seq<char> {
    "DatHost - GOTV"@
}

/// Whether an entry stands for a person: it has a name, and not the relay's.
pub open spec fn is_real(p: PlayerView) -> bool {
    p.name.len() != 0 && p.name != relay_name()
}

/// The entries of `list` that stand for people, in their order.
pub open spec fn real_players_of(list: Seq<PlayerView>) -> Seq<PlayerView> {
    list.filter(|p: PlayerView| is_real(p))
}

/// The views of a run of players.
pub open spec fn views(players: Seq<Player>) -> Seq<PlayerView> {
    players.map_values(|p: Player| p@)
}

impl Player {
    /// Reads one record of the player list.
    pub fn make(data: &mut Reader) -> (res: Result<Player, DecodeError>)
        ensures
            match spec_player(old(data).remaining()) {
                Ok((p, after)) => res matches Ok(player) && player@ == p && final(
                    data
                ).remaining() == after,
                Err(e) => res == Err::<Player, DecodeError>(e),
            },
    {
        let index: u8 = byte(data)?;
        let name = string(data)?;
        let score: i32 = long(data)?;
        let duration_bits: u32 = float(data)?;
        Ok(Player { index, name, score, duration_bits })
    }

    /// Whether this entry stands for a person.
    pub fn is_real(&self) -> (person: bool)
        ensures
            person == is_real(self@),
    {
        let relay = String::from_str("DatHost - GOTV");
        !self.name.as_str().is_empty() && self.name != relay
    }
}

/// A decoded `A2S_PLAYER` response.
#[derive(Debug, Clone)]
pub struct Players(pub Vec<Player>);

impl View for Players {
    type V = Seq<PlayerView>;

    open spec fn view(&self) -> Seq<PlayerView> {
        views(self.0@)
    }
}

impl Players {
    /// Decodes a whole `A2S_PLAYER` datagram, marker and tag included.
    ///
    /// Fails where the datagram ends before the announced number of records
    /// has been read, and where a name is not well-formed UTF-8.
    pub fn try_from(data: &[u8]) -> (res: Result<Players, DecodeError>)
        ensures
            match spec_players(data@) {
                Ok((list, _)) => res matches Ok(players) && players@ == list,
                Err(e) => res == Err::<Players, DecodeError>(e),
            },
    {
        let mut reader = Reader::new(data);
        reader.advance(HEADER_LEN)?;
        let count: u8 = byte(&mut reader)?;
        let mut players: Vec<Player> = Vec::new();
        let mut read: u8 = 0;
        while read < count
            invariant
                read <= count,
                match spec_player_list((count - read) as nat, reader.remaining()) {
                    Ok((others, unread)) => spec_players(data@) == Ok::<
                        (Seq<PlayerView>, Seq<u8>),
                        DecodeError,
                    >((views(players@) + others, unread)),
                    Err(e) => spec_players(data@) == Err::<
                        (Seq<PlayerView>, Seq<u8>),
                        DecodeError,
                    >(e),
                },
            decreases count - read,
        {
            let ghost before = views(players@);
            let p = Player::make(&mut reader)?;
            players.push(p);
            read = read + 1;
            proof {
                assert(views(players@) == before.push(p@));
                match spec_player_list((count - read) as nat, reader.remaining()) {
                    Ok((others, _)) => {
                        assert(before + (seq![p@] + others) == views(players@) + others);
                    },
                    Err(_) => {},
                }
            }
        }
        proof {
            assert(views(players@) + Seq::<PlayerView>::empty() == views(players@));
        }
        Ok(Players(players))
    }

    /// The entries that stand for people, in their order: those without a
    /// name and the spectator relay are left out.
    pub fn real_players(self) -> (kept: Self)
        ensures
            kept@ == real_players_of(self@),
    {
        let ghost all = self.0@;
        let mut kept: Vec<Player> = Vec::new();
        proof {
            reveal(Seq::filter);
            assert(views(all.take(0)) == Seq::<PlayerView>::empty());
        }
        for p in it: self.0.into_iter()
            invariant
                it.seq() == all,
                views(kept@) == real_players_of(views(all.take(it.index() as int))),
        {
            let ghost i = it.index() as int;
            let ghost before = views(kept@);
            proof {
                reveal(Seq::filter);
                let seen = views(all.take(i));
                let next = views(all.take(i + 1));
                assert(next.drop_last() == seen);
                assert(next.last() == p@);
                assert(real_players_of(next) == if is_real(p@) {
                    real_players_of(seen).push(p@)
                } else {
                    real_players_of(seen)
                });
            }
            if p.is_real() {
                kept.push(p);
                proof {
                    assert(views(kept@) == before.push(p@));
                }
            }
        }
        proof {
            assert(all.take(all.len() as int) == all);
        }
        Players(kept)
    }
}

} // verus!
