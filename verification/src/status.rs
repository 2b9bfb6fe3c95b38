//! The rules behind a status message: its colour, its clock, the link that
//! connects to the server, and the title a map goes by.

use crate::name_filter::{censored, filter};
use vstd::prelude::*;
use vstd::string::{StrSliceExecFns, StringExecFns, StringSliceAdditionalSpecFns};

verus! {

/// Colour of a status message.
#[derive(Debug, Clone, Copy, PartialEq, Eq, Structural)]
pub enum StatusColour {
    /// The server is filling up.
    DarkGreen,
    /// The server is crowded.
    Purple,
    /// The server is down.
    DarkRed,
}

/// The colour for a server that is up with `players` people on it: none up
/// to five, dark green from six to seventeen, purple beyond.
pub open spec fn spec_status_colour(players: int) -> Option<StatusColour> {
    if players > 17 {
        Some(StatusColour::Purple)
    } else if players > 5 {
        Some(StatusColour::DarkGreen)
    } else {
        None
    }
}

/// The colour for a server that is up with `players` people on it.
pub fn status_colour(players: usize) -> (colour: Option<StatusColour>)
    ensures
        colour == spec_status_colour(players as int),
{
    if players > 17 {
        Some(StatusColour::Purple)
    } else if players > 5 {
        Some(StatusColour::DarkGreen)
    } else {
        None
    }
}

/// Minutes and seconds that a clock shows for a span of `elapsed`
/// nanoseconds: whole seconds, and minutes within the hour.
pub open spec fn spec_clock_face(elapsed: u128) -> (int, int) {
    let secs = elapsed as int / 1_000_000_000;
    ((secs / 60) % 60, secs % 60)
}

/// Minutes and seconds that a clock shows for a span of `elapsed`
/// nanoseconds.
pub fn clock_face(elapsed: u128) -> (face: (u8, u8))
    ensures
        (face.0 as int, face.1 as int) == spec_clock_face(elapsed),
        face.0 < 60,
        face.1 < 60,
{
    let secs: u128 = elapsed / 1_000_000_000;
    (((secs / 60) % 60) as u8, (secs % 60) as u8)
}

/// What a console command starts with on a server that wants uploads
/// allowed.
pub fn connect_prefix(allow_upload_required: bool) -> (prefix: &'static str)
    ensures
        prefix@ == if allow_upload_required {
            "sv_allowupload 1; "@
        } else {
            ""@
        },
{
    if allow_upload_required {
        "sv_allowupload 1; "
    } else {
        ""
    }
}

/// Whether a byte stands for itself in a percent-encoded text: letters,
/// digits, `-`, `.`, `_` and `~`.
pub open spec fn is_unreserved(b: u8) -> bool {
    ||| 0x30 <= b <= 0x39
    ||| 0x41 <= b <= 0x5A
    ||| 0x61 <= b <= 0x7A
    ||| b == 0x2D
    ||| b == 0x2E
    ||| b == 0x5F
    ||| b == 0x7E
}

/// The upper-case hexadecimal digit for a value below sixteen.
pub open spec fn hex_digit(d: int) -> char {
    if d < 10 {
        (0x30 + d) as char
    } else {
        (0x41 + d - 10) as char
    }
}

/// One byte, percent-encoded.
pub open spec fn encoded_byte(b: u8) -> Seq<char> {
    if is_unreserved(b) {
        seq![b as char]
    } else {
        seq!['%', hex_digit(b as int / 16), hex_digit(b as int % 16)]
    }
}

/// A run of bytes, percent-encoded byte by byte.
pub open spec fn percent_encoded(bytes: Seq<u8>) -> Seq<char>
    decreases bytes.len(),
{
    if bytes.len() == 0 {
        Seq::empty()
    } else {
        encoded_byte(bytes[0]) + percent_encoded(bytes.skip(1))
    }
}

/// `urlencoding::encode`: every byte of the text's UTF-8 encoding stands for
/// itself where it is a letter, a digit or one of `-._~`, and is written as
/// `%` and two upper-case hexadecimal digits where it is not.
#[verifier::external_body]
fn url_encode(text: &str) -> (out: String)
    ensures
        out@ == percent_encoded(text.spec_bytes()),
{
    urlencoding::encode(text).into_owned()
}

/// The link of the connect button: the redirector's address, a slash, and
/// the server's address percent-encoded.
pub open spec fn spec_connect_link(redirector: Seq<char>, addr: &str) -> Seq<char> {
    redirector + seq!['/'] + percent_encoded(addr.spec_bytes())
}

/// The link of the connect button.
pub fn connect_link(redirector: &str, addr: &str) -> (link: String)
    ensures
        link@ == spec_connect_link(redirector@, addr),
{
    let mut link = String::from_str(redirector);
    proof {
        reveal_strlit("/");
        assert("/"@ == seq!['/']);
    }
    link.append("/");
    let encoded = url_encode(addr);
    link.append(encoded.as_str());
    link
}

/// What `str::to_uppercase` makes of a text.
pub uninterp spec fn uppercase(text: Seq<char>) -> Seq<char>;

/// `str::to_uppercase`: the text in upper case, as Unicode defines it. The
/// result depends on the text alone; nothing more is claimed of it.
#[verifier::external_body]
fn to_upper(text: &str) -> (out: String)
    ensures
        out@ == uppercase(text@),
{
    text.to_uppercase()
}

/// The title that `map` goes by, given the upper case of its fourth
/// character: a map named with a two-letter prefix and an underscore loses
/// the prefix and gets a capital, any other keeps its name.
pub open spec fn spec_map_title(map: Seq<char>, capital: Seq<char>) -> Seq<char> {
    if map.len() > 3 && map[2] == '_' {
        capital + map.skip(4)
    } else {
        map
    }
}

/// The title of a prefixed map from its parts: the capital, then what
/// follows the fourth character.
pub fn join_title(capital: &str, tail: &str) -> (title: String)
    ensures
        title@ == capital@ + tail@,
{
    let mut title = String::from_str(capital);
    title.append(tail);
    title
}

/// The title that `map` goes by: `dz_sirocco` is shown as `Sirocco`.
pub fn map_str(map: &str) -> (title: String)
    ensures
        title@ == spec_map_title(map@, uppercase(map@.subrange(3, 4))),
{
    let len = map.unicode_len();
    if len > 3 && map.get_char(2) == '_' {
        let capital = to_upper(map.substring_char(3, 4));
        let title = join_title(capital.as_str(), map.substring_char(4, len));
        proof {
            assert(map@.subrange(4, len as int) == map@.skip(4));
        }
        title
    } else {
        String::from_str(map)
    }
}

/// The names, each censored, one to a line.
pub open spec fn censored_lines(names: Seq<String>) -> Seq<char>
    decreases names.len(),
{
    if names.len() == 0 {
        Seq::empty()
    } else if names.len() == 1 {
        censored(names[0]@, names[0]@.len())
    } else {
        censored_lines(names.drop_last()) + "\n"@ + censored(names.last()@, names.last()@.len())
    }
}

/// The player list of a status message: those in the match and, where there
/// are any, those waiting for the next one under a heading of their own.
pub open spec fn spec_format_players(playing: Seq<String>, not_playing: Seq<String>) -> Seq<
    char,
> {
    if not_playing.len() > 0 {
        "\n"@ + (if playing.len() > 0 {
            censored_lines(playing)
        } else {
            " "@
        }) + "\n```\nWaiting for next match (estimated)\n```\n"@ + censored_lines(not_playing)
            + "\n"@
    } else {
        censored_lines(playing)
    }
}

/// Censors each name and puts one to a line.
pub fn join_names(names: &Vec<String>) -> (lines: String)
    ensures
        lines@ == censored_lines(names@),
{
    let mut lines = String::new();
    let mut i: usize = 0;
    while i < names.len()
        invariant
            i <= names@.len(),
            lines@ == censored_lines(names@.take(i as int)),
        decreases names@.len() - i,
    {
        proof {
            let next = names@.take(i + 1);
            assert(next.drop_last() == names@.take(i as int));
            assert(next.last() == names@[i as int]);
            assert(next[0] == names@[0]);
        }
        if i > 0 {
            lines.append("\n");
        }
        let name = filter(names[i].as_str());
        lines.append(name.as_str());
        i = i + 1;
    }
    proof {
        assert(names@.take(names@.len() as int) == names@);
    }
    lines
}

/// Lays out the player list of a status message from the names of those in
/// the match and of those waiting for the next one.
pub fn format_players(playing: &Vec<String>, not_playing: &Vec<String>) -> (text: String)
    ensures
        text@ == spec_format_players(playing@, not_playing@),
{
    if not_playing.len() > 0 {
        let mut text = String::from_str("\n");
        if playing.len() > 0 {
            let lines = join_names(playing);
            text.append(lines.as_str());
        } else {
            text.append(" ");
        }
        text.append("\n```\nWaiting for next match (estimated)\n```\n");
        let waiting = join_names(not_playing);
        text.append(waiting.as_str());
        text.append("\n");
        text
    } else {
        join_names(playing)
    }
}

} // verus!
