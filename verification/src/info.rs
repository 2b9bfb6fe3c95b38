//! The `A2S_INFO` response: its record and its decoder.

use crate::wire::{
    byte, cut, cut_field, first_nul, has_nul, lemma_byte_cut, lemma_long_long_cut, lemma_short_cut,
    lemma_string_cut, lemma_string_rest, long_long, rest, short, spec_byte, spec_long_long, spec_short,
    spec_string, string, value, DecodeError, Reader,
};
use vstd::prelude::*;
use vstd::utf8::valid_utf8;
use vstd::std_specs::convert::FromSpec;

verus! {

/// Kind of server, told by the first letter of its name.
#[derive(Debug, Clone, Copy, PartialEq, Eq, Structural)]
pub enum ServerType {
    Dedicated,
    NonDedicated,
    Proxy,
    Invalid,
}

impl From<u8> for ServerType {
    fn from(i: u8) -> (t: Self) {
        match i {
            // 'd'
            0x64 => Self::Dedicated,
            // 'l'
            0x6C => Self::NonDedicated,
            // 'p'
            0x70 => Self::Proxy,
            _ => Self::Invalid,
        }
    }
}

impl vstd::std_specs::convert::FromSpecImpl<u8> for ServerType {
    open spec fn obeys_from_spec() -> bool {
        true
    }

    open spec fn from_spec(i: u8) -> Self {
        if i == 0x64 {
            Self::Dedicated
        } else if i == 0x6C {
            Self::NonDedicated
        } else if i == 0x70 {
            Self::Proxy
        } else {
            Self::Invalid
        }
    }
}

/// Operating system of the server, told by its first letter.
#[derive(Debug, Clone, Copy, PartialEq, Eq, Structural)]
pub enum ServerEnvironment {
    Linux,
    Windows,
    Mac,
    Invalid,
}

impl From<u8> for ServerEnvironment {
    fn from(i: u8) -> (e: Self) {
        match i {
            // 'l'
            0x6C => Self::Linux,
            // 'w'
            0x77 => Self::Windows,
            // 'm' or 'o'
            0x6D | 0x6F => Self::Mac,
            _ => Self::Invalid,
        }
    }
}

impl vstd::std_specs::convert::FromSpecImpl<u8> for ServerEnvironment {
    open spec fn obeys_from_spec() -> bool {
        true
    }

    open spec fn from_spec(i: u8) -> Self {
        if i == 0x6C {
            Self::Linux
        } else if i == 0x77 {
            Self::Windows
        } else if i == 0x6D || i == 0x6F {
            Self::Mac
        } else {
            Self::Invalid
        }
    }
}

/// Whether a password is needed to join.
#[derive(Debug, Clone, Copy, PartialEq, Eq, Structural)]
pub enum ServerVisibility {
    Public,
    Private,
    Invalid,
}

impl From<u8> for ServerVisibility {
    fn from(i: u8) -> (v: Self) {
        match i {
            0 => Self::Public,
            1 => Self::Private,
            _ => Self::Invalid,
        }
    }
}

impl vstd::std_specs::convert::FromSpecImpl<u8> for ServerVisibility {
    open spec fn obeys_from_spec() -> bool {
        true
    }

    open spec fn from_spec(i: u8) -> Self {
        if i == 0 {
            Self::Public
        } else if i == 1 {
            Self::Private
        } else {
            Self::Invalid
        }
    }
}

/// Whether the server runs Valve Anti-Cheat.
#[derive(Debug, Clone, Copy, PartialEq, Eq, Structural)]
pub enum VAC {
    Unsecured,
    Secured,
    Invalid,
}

impl From<u8> for VAC {
    fn from(i: u8) -> (v: Self) {
        match i {
            0 => Self::Unsecured,
            1 => Self::Secured,
            _ => Self::Invalid,
        }
    }
}

impl vstd::std_specs::convert::FromSpecImpl<u8> for VAC {
    open spec fn obeys_from_spec() -> bool {
        true
    }

    open spec fn from_spec(i: u8) -> Self {
        if i == 0 {
            Self::Unsecured
        } else if i == 1 {
            Self::Secured
        } else {
            Self::Invalid
        }
    }
}

/// The spectator relay of a server.
#[derive(Debug, Clone)]
pub struct SourceTV {
    pub port: i16,
    pub name: String,
}

/// What a [`SourceTV`] holds.
pub struct SourceTVView {
    pub port: i16,
    pub name: Seq<char>,
}

impl View for SourceTV {
    type V = SourceTVView;

    open spec fn view(&self) -> SourceTVView {
        SourceTVView { port: self.port, name: self.name@ }
    }
}

/// A decoded `A2S_INFO` response.
#[derive(Debug, Clone)]
pub struct ServerInfo {
    pub protocol: u8,
    pub name: String,
    pub map: String,
    pub folder: String,
    pub game: String,
    pub id: i16,
    pub players: u8,
    pub max_players: u8,
    pub bots: u8,
    pub server_type: ServerType,
    pub server_environment: ServerEnvironment,
    pub public: bool,
    pub vac: bool,
    pub version: String,
    pub edf: u8,
    pub port: Option<i16>,
    pub steam_id: Option<u64>,
    pub source_tv: Option<SourceTV>,
    pub keywords: Option<String>,
    pub game_id: Option<u64>,
}

/// What a [`ServerInfo`] holds.
pub struct ServerInfoView {
    pub protocol: u8,
    pub name: Seq<char>,
    pub map: Seq<char>,
    pub folder: Seq<char>,
    pub game: Seq<char>,
    pub id: i16,
    pub players: u8,
    pub max_players: u8,
    pub bots: u8,
    pub server_type: ServerType,
    pub server_environment: ServerEnvironment,
    pub public: bool,
    pub vac: bool,
    pub version: Seq<char>,
    pub edf: u8,
    pub port: Option<i16>,
    pub steam_id: Option<u64>,
    pub source_tv: Option<SourceTVView>,
    pub keywords: Option<Seq<char>>,
    pub game_id: Option<u64>,
}

impl View for ServerInfo {
    type V = ServerInfoView;

    open spec fn view(&self) -> ServerInfoView {
        ServerInfoView {
            protocol: self.protocol,
            name: self.name@,
            map: self.map@,
            folder: self.folder@,
            game: self.game@,
            id: self.id,
            players: self.players,
            max_players: self.max_players,
            bots: self.bots,
            server_type: self.server_type,
            server_environment: self.server_environment,
            public: self.public,
            vac: self.vac,
            version: self.version@,
            edf: self.edf,
            port: self.port,
            steam_id: self.steam_id,
            source_tv: match self.source_tv {
                Some(tv) => Some(tv@),
                None => None,
            },
            keywords: match self.keywords {
                Some(k) => Some(k@),
                None => None,
            },
            game_id: self.game_id,
        }
    }
}

/// Bytes before the first field: the marker and the response tag.
pub const HEADER_LEN: usize = 5;

/// Flag of the extra-data byte: the game port follows.
pub const EDF_PORT: u8 = 0x80;

/// Flag of the extra-data byte: the Steam id follows, and the game id after
/// the keywords.
pub const EDF_STEAM_ID: u8 = 0x10;

/// Flag of the extra-data byte: the spectator relay follows.
pub const EDF_SOURCE_TV: u8 = 0x40;

/// Flag of the extra-data byte: the keywords follow.
pub const EDF_KEYWORDS: u8 = 0x20;

/// Whether the extra-data byte `edf` announces the field of `flag`.
pub open spec fn announces(edf: u8, flag: u8) -> bool {
    edf & flag != 0
}

/// A 16-bit field that is there only where `present`.
pub open spec fn spec_optional_short(present: bool, s: Seq<u8>) -> Result<
    (Option<i16>, Seq<u8>),
    DecodeError,
> {
    if !present {
        Ok((None, s))
    } else {
        match spec_short(s) {
            Ok((v, after)) => Ok((Some(v), after)),
            Err(e) => Err(e),
        }
    }
}

/// A 64-bit field that is there only where `present`.
pub open spec fn spec_optional_long_long(present: bool, s: Seq<u8>) -> Result<
    (Option<u64>, Seq<u8>),
    DecodeError,
> {
    if !present {
        Ok((None, s))
    } else {
        match spec_long_long(s) {
            Ok((v, after)) => Ok((Some(v), after)),
            Err(e) => Err(e),
        }
    }
}

/// A string field that is there only where `present`.
pub open spec fn spec_optional_string(present: bool, s: Seq<u8>) -> Result<
    (Option<Seq<char>>, Seq<u8>),
    DecodeError,
> {
    if !present {
        Ok((None, s))
    } else {
        match spec_string(s) {
            Ok((v, after)) => Ok((Some(v), after)),
            Err(e) => Err(e),
        }
    }
}

/// The spectator relay, a port and a name, there only where `present`.
pub open spec fn spec_optional_source_tv(present: bool, s: Seq<u8>) -> Result<
    (Option<SourceTVView>, Seq<u8>),
    DecodeError,
> {
    if !present {
        Ok((None, s))
    } else {
        match spec_short(s) {
            Err(e) => Err(e),
            Ok((port, after_port)) => match spec_string(after_port) {
                Err(e) => Err(e),
                Ok((name, after)) => Ok((Some(SourceTVView { port, name }), after)),
            },
        }
    }
}

/// The record that a whole `A2S_INFO` datagram decodes to, and the bytes
/// behind its last field, which are not read.
///
/// The fields stand in wire order. The first one that cannot be read gives
/// the error.
pub open spec fn spec_server_info(bytes: Seq<u8>) -> Result<
    (ServerInfoView, Seq<u8>),
    DecodeError,
> {
    let protocol = spec_byte(bytes.skip(HEADER_LEN as int));
    let name = spec_string(rest(protocol));
    let map = spec_string(rest(name));
    let folder = spec_string(rest(map));
    let game = spec_string(rest(folder));
    let id = spec_short(rest(game));
    let players = spec_byte(rest(id));
    let max_players = spec_byte(rest(players));
    let bots = spec_byte(rest(max_players));
    let server_type = spec_byte(rest(bots));
    let server_environment = spec_byte(rest(server_type));
    let visibility = spec_byte(rest(server_environment));
    let vac = spec_byte(rest(visibility));
    let version = spec_string(rest(vac));
    let edf = spec_byte(rest(version));
    let flags = value(edf);
    let port = spec_optional_short(announces(flags, EDF_PORT), rest(edf));
    let steam_id = spec_optional_long_long(announces(flags, EDF_STEAM_ID), rest(port));
    let source_tv = spec_optional_source_tv(announces(flags, EDF_SOURCE_TV), rest(steam_id));
    let keywords = spec_optional_string(announces(flags, EDF_KEYWORDS), rest(source_tv));
    let game_id = spec_optional_long_long(announces(flags, EDF_STEAM_ID), rest(keywords));
    if bytes.len() < HEADER_LEN {
        Err(DecodeError::UnexpectedEnd)
    } else if protocol is Err {
        Err(protocol->Err_0)
    } else if name is Err {
        Err(name->Err_0)
    } else if map is Err {
        Err(map->Err_0)
    } else if folder is Err {
        Err(folder->Err_0)
    } else if game is Err {
        Err(game->Err_0)
    } else if id is Err {
        Err(id->Err_0)
    } else if players is Err {
        Err(players->Err_0)
    } else if max_players is Err {
        Err(max_players->Err_0)
    } else if bots is Err {
        Err(bots->Err_0)
    } else if server_type is Err {
        Err(server_type->Err_0)
    } else if server_environment is Err {
        Err(server_environment->Err_0)
    } else if visibility is Err {
        Err(visibility->Err_0)
    } else if vac is Err {
        Err(vac->Err_0)
    } else if version is Err {
        Err(version->Err_0)
    } else if edf is Err {
        Err(edf->Err_0)
    } else if port is Err {
        Err(port->Err_0)
    } else if steam_id is Err {
        Err(steam_id->Err_0)
    } else if source_tv is Err {
        Err(source_tv->Err_0)
    } else if keywords is Err {
        Err(keywords->Err_0)
    } else if game_id is Err {
        Err(game_id->Err_0)
    } else {
        Ok(
            (ServerInfoView {
                protocol: value(protocol),
                name: value(name),
                map: value(map),
                folder: value(folder),
                game: value(game),
                id: value(id),
                players: value(players),
                max_players: value(max_players),
                bots: value(bots),
                server_type: ServerType::from_spec(value(server_type)),
                server_environment: ServerEnvironment::from_spec(value(server_environment)),
                public: value(visibility) == 0,
                vac: value(vac) != 0,
                version: value(version),
                edf: flags,
                port: value(port),
                steam_id: value(steam_id),
                source_tv: value(source_tv),
                keywords: value(keywords),
                game_id: value(game_id),
            }, rest(game_id)),
        )
    }
}

/// An optional 16-bit field survives a cut behind it and fails on a cut into
/// it.
proof fn lemma_optional_short_cut(present: bool, s: Seq<u8>, d: int)
    requires
        spec_optional_short(present, s) is Ok,
        0 <= d <= s.len(),
    ensures
        spec_optional_short(present, cut(s, d)) == cut_field(spec_optional_short(present, s), d),
{
    if present {
        lemma_short_cut(s, d);
    }
}

/// An optional 64-bit field survives a cut behind it and fails on a cut into
/// it.
proof fn lemma_optional_long_long_cut(present: bool, s: Seq<u8>, d: int)
    requires
        spec_optional_long_long(present, s) is Ok,
        0 <= d <= s.len(),
    ensures
        spec_optional_long_long(present, cut(s, d)) == cut_field(
            spec_optional_long_long(present, s),
            d,
        ),
{
    if present {
        lemma_long_long_cut(s, d);
    }
}

/// An optional string survives a cut behind it and fails on a cut into it.
proof fn lemma_optional_string_cut(present: bool, s: Seq<u8>, d: int)
    requires
        spec_optional_string(present, s) is Ok,
        0 <= d <= s.len(),
    ensures
        spec_optional_string(present, cut(s, d)) == cut_field(
            spec_optional_string(present, s),
            d,
        ),
{
    if present {
        lemma_string_cut(s, d);
    }
}

/// The spectator relay survives a cut behind it and fails on a cut into it.
proof fn lemma_optional_source_tv_cut(present: bool, s: Seq<u8>, d: int)
    requires
        spec_optional_source_tv(present, s) is Ok,
        0 <= d <= s.len(),
    ensures
        spec_optional_source_tv(present, cut(s, d)) == cut_field(
            spec_optional_source_tv(present, s),
            d,
        ),
{
    if present {
        lemma_short_cut(s, d);
        let after_port = rest(spec_short(s));
        lemma_string_rest(after_port);
        if d <= after_port.len() {
            lemma_string_cut(after_port, d);
        }
    }
}

/// An optional string that was read left no more unread than it found.
proof fn lemma_optional_string_rest(present: bool, s: Seq<u8>)
    requires
        spec_optional_string(present, s) is Ok,
    ensures
        rest(spec_optional_string(present, s)).len() <= s.len(),
{
    if present {
        lemma_string_rest(s);
    }
}

/// The spectator relay, where read, left no more unread than it found.
proof fn lemma_optional_source_tv_rest(present: bool, s: Seq<u8>)
    requires
        spec_optional_source_tv(present, s) is Ok,
    ensures
        rest(spec_optional_source_tv(present, s)).len() <= s.len(),
{
    if present {
        lemma_string_rest(rest(spec_short(s)));
    }
}

/// A response whose server name is terminated but not well-formed UTF-8
/// fails with [`DecodeError::InvalidUtf8`].
pub proof fn lemma_invalid_name(bytes: Seq<u8>)
    requires
        bytes.len() > HEADER_LEN,
        has_nul(bytes.skip(HEADER_LEN + 1)),
        !valid_utf8(bytes.skip(HEADER_LEN + 1).take(first_nul(bytes.skip(HEADER_LEN + 1)))),
    ensures
        spec_server_info(bytes) == Err::<(ServerInfoView, Seq<u8>), DecodeError>(
            DecodeError::InvalidUtf8,
        ),
{
    reveal(spec_string);
    assert(bytes.skip(HEADER_LEN as int).skip(1) == bytes.skip(HEADER_LEN + 1));
}

/// A response that decodes, cut short by `d` bytes: while the cut takes
/// unread bytes only, it decodes to the same record; once it reaches into
/// the last field or further, be it inside a string or a number, decoding
/// fails with [`DecodeError::UnexpectedEnd`].
#[verifier::rlimit(60)]
pub proof fn lemma_truncated_info(bytes: Seq<u8>, d: int)
    requires
        spec_server_info(bytes) is Ok,
        0 <= d <= bytes.len(),
    ensures
        spec_server_info(cut(bytes, d)) == cut_field(spec_server_info(bytes), d),
{
    let body = bytes.skip(HEADER_LEN as int);
    let protocol = spec_byte(body);
    let name = spec_string(rest(protocol));
    let map = spec_string(rest(name));
    let folder = spec_string(rest(map));
    let game = spec_string(rest(folder));
    let id = spec_short(rest(game));
    let players = spec_byte(rest(id));
    let max_players = spec_byte(rest(players));
    let bots = spec_byte(rest(max_players));
    let server_type = spec_byte(rest(bots));
    let server_environment = spec_byte(rest(server_type));
    let visibility = spec_byte(rest(server_environment));
    let vac = spec_byte(rest(visibility));
    let version = spec_string(rest(vac));
    let edf = spec_byte(rest(version));
    let flags = value(edf);
    let port = spec_optional_short(announces(flags, EDF_PORT), rest(edf));
    let steam_id = spec_optional_long_long(announces(flags, EDF_STEAM_ID), rest(port));
    let source_tv = spec_optional_source_tv(announces(flags, EDF_SOURCE_TV), rest(steam_id));
    let keywords = spec_optional_string(announces(flags, EDF_KEYWORDS), rest(source_tv));
    let game_id = spec_optional_long_long(announces(flags, EDF_STEAM_ID), rest(keywords));
    // Each field leaves no more unread than it found.
    assert(rest(protocol).len() <= body.len());
    lemma_string_rest(rest(protocol));
    assert(rest(name).len() <= rest(protocol).len());
    lemma_string_rest(rest(name));
    assert(rest(map).len() <= rest(name).len());
    lemma_string_rest(rest(map));
    assert(rest(folder).len() <= rest(map).len());
    lemma_string_rest(rest(folder));
    assert(rest(game).len() <= rest(folder).len());
    assert(rest(id).len() <= rest(game).len());
    assert(rest(players).len() <= rest(id).len());
    assert(rest(max_players).len() <= rest(players).len());
    assert(rest(bots).len() <= rest(max_players).len());
    assert(rest(server_type).len() <= rest(bots).len());
    assert(rest(server_environment).len() <= rest(server_type).len());
    assert(rest(visibility).len() <= rest(server_environment).len());
    assert(rest(vac).len() <= rest(visibility).len());
    lemma_string_rest(rest(vac));
    assert(rest(version).len() <= rest(vac).len());
    assert(rest(edf).len() <= rest(version).len());
    assert(rest(port).len() <= rest(edf).len());
    assert(rest(steam_id).len() <= rest(port).len());
    lemma_optional_source_tv_rest(announces(flags, EDF_SOURCE_TV), rest(steam_id));
    assert(rest(source_tv).len() <= rest(steam_id).len());
    lemma_optional_string_rest(announces(flags, EDF_KEYWORDS), rest(source_tv));
    assert(rest(keywords).len() <= rest(source_tv).len());
    assert(rest(game_id).len() <= rest(keywords).len());
    if d <= body.len() {
        assert(cut(bytes, d).skip(HEADER_LEN as int) == cut(body, d));
    }
    // Cut behind a field, the field reads alike; cut into it, it fails.
    if d <= body.len() {
        lemma_byte_cut(body, d);
    }
    if d <= rest(protocol).len() {
        lemma_string_cut(rest(protocol), d);
    }
    if d <= rest(name).len() {
        lemma_string_cut(rest(name), d);
    }
    if d <= rest(map).len() {
        lemma_string_cut(rest(map), d);
    }
    if d <= rest(folder).len() {
        lemma_string_cut(rest(folder), d);
    }
    if d <= rest(game).len() {
        lemma_short_cut(rest(game), d);
    }
    if d <= rest(id).len() {
        lemma_byte_cut(rest(id), d);
    }
    if d <= rest(players).len() {
        lemma_byte_cut(rest(players), d);
    }
    if d <= rest(max_players).len() {
        lemma_byte_cut(rest(max_players), d);
    }
    if d <= rest(bots).len() {
        lemma_byte_cut(rest(bots), d);
    }
    if d <= rest(server_type).len() {
        lemma_byte_cut(rest(server_type), d);
    }
    if d <= rest(server_environment).len() {
        lemma_byte_cut(rest(server_environment), d);
    }
    if d <= rest(visibility).len() {
        lemma_byte_cut(rest(visibility), d);
    }
    if d <= rest(vac).len() {
        lemma_string_cut(rest(vac), d);
    }
    if d <= rest(version).len() {
        lemma_byte_cut(rest(version), d);
    }
    if d <= rest(edf).len() {
        lemma_optional_short_cut(announces(flags, EDF_PORT), rest(edf), d);
    }
    if d <= rest(port).len() {
        lemma_optional_long_long_cut(announces(flags, EDF_STEAM_ID), rest(port), d);
    }
    if d <= rest(steam_id).len() {
        lemma_optional_source_tv_cut(announces(flags, EDF_SOURCE_TV), rest(steam_id), d);
    }
    if d <= rest(source_tv).len() {
        lemma_optional_string_cut(announces(flags, EDF_KEYWORDS), rest(source_tv), d);
    }
    if d <= rest(keywords).len() {
        lemma_optional_long_long_cut(announces(flags, EDF_STEAM_ID), rest(keywords), d);
    }
}

/// Reads a 16-bit field where `present`, and nothing where not.
fn optional_short(present: bool, data: &mut Reader) -> (res: Result<Option<i16>, DecodeError>)
    ensures
        match spec_optional_short(present, old(data).remaining()) {
            Ok((v, after)) => res == Ok::<Option<i16>, DecodeError>(v)
                && final(data).remaining() == after,
            Err(e) => res == Err::<Option<i16>, DecodeError>(e),
        },
{
    if present {
        Ok(Some(short(data)?))
    } else {
        Ok(None)
    }
}

/// Reads a 64-bit field where `present`, and nothing where not.
fn optional_long_long(present: bool, data: &mut Reader) -> (res: Result<Option<u64>, DecodeError>)
    ensures
        match spec_optional_long_long(present, old(data).remaining()) {
            Ok((v, after)) => res == Ok::<Option<u64>, DecodeError>(v)
                && final(data).remaining() == after,
            Err(e) => res == Err::<Option<u64>, DecodeError>(e),
        },
{
    if present {
        Ok(Some(long_long(data)?))
    } else {
        Ok(None)
    }
}

/// Reads a string field where `present`, and nothing where not.
fn optional_string(present: bool, data: &mut Reader) -> (res: Result<Option<String>, DecodeError>)
    ensures
        match spec_optional_string(present, old(data).remaining()) {
            Ok((v, after)) => res matches Ok(got) && final(data).remaining() == after && match v {
                Some(text) => got matches Some(s) && s@ == text,
                None => got is None,
            },
            Err(e) => res == Err::<Option<String>, DecodeError>(e),
        },
{
    if present {
        Ok(Some(string(data)?))
    } else {
        Ok(None)
    }
}

/// Reads the spectator relay where `present`, and nothing where not.
fn optional_source_tv(present: bool, data: &mut Reader) -> (res: Result<
    Option<SourceTV>,
    DecodeError,
>)
    ensures
        match spec_optional_source_tv(present, old(data).remaining()) {
            Ok((v, after)) => res matches Ok(got) && final(data).remaining() == after && match v {
                Some(tv) => got matches Some(t) && t@ == tv,
                None => got is None,
            },
            Err(e) => res == Err::<Option<SourceTV>, DecodeError>(e),
        },
{
    if present {
        let port = short(data)?;
        let name = string(data)?;
        Ok(Some(SourceTV { port, name }))
    } else {
        Ok(None)
    }
}

impl ServerInfo {
    /// Decodes a whole `A2S_INFO` datagram, marker and tag included.
    ///
    /// Fails where the datagram ends inside a field, where a string has no
    /// terminator, and where a string is not well-formed UTF-8. Bytes after
    /// the last field are ignored.
    pub fn try_from(data: &[u8]) -> (res: Result<ServerInfo, DecodeError>)
        ensures
            match spec_server_info(data@) {
                Ok((v, _)) => res matches Ok(info) && info@ == v,
                Err(e) => res == Err::<ServerInfo, DecodeError>(e),
            },
    {
        let mut data = Reader::new(data);
        data.advance(HEADER_LEN)?;
        let protocol: u8 = byte(&mut data)?;
        let name = string(&mut data)?;
        let map = string(&mut data)?;
        let folder = string(&mut data)?;
        let game = string(&mut data)?;
        let id: i16 = short(&mut data)?;
        let players: u8 = byte(&mut data)?;
        let max_players: u8 = byte(&mut data)?;
        let bots: u8 = byte(&mut data)?;
        let server_type = ServerType::from(byte(&mut data)?);
        let server_environment = ServerEnvironment::from(byte(&mut data)?);
        let public: bool = byte(&mut data)? == 0;
        let vac: bool = byte(&mut data)? != 0;
        let version = string(&mut data)?;
        let edf: u8 = byte(&mut data)?;
        let port = optional_short((edf & EDF_PORT) != 0, &mut data)?;
        let steam_id = optional_long_long((edf & EDF_STEAM_ID) != 0, &mut data)?;
        let source_tv = optional_source_tv((edf & EDF_SOURCE_TV) != 0, &mut data)?;
        let keywords = optional_string((edf & EDF_KEYWORDS) != 0, &mut data)?;
        let game_id = optional_long_long((edf & EDF_STEAM_ID) != 0, &mut data)?;
        Ok(
            ServerInfo {
                protocol,
                name,
                map,
                folder,
                game,
                id,
                players,
                max_players,
                bots,
                server_type,
                server_environment,
                public,
                vac,
                version,
                edf,
                port,
                steam_id,
                source_tv,
                keywords,
                game_id,
            },
        )
    }
}

} // verus!
