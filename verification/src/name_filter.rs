//! The filter that players' names pass before they are shown.
//!
//! Whatever the pattern matches is replaced by a fixed text. The search is
//! the `regex` crate's; taking the match out and putting the replacement in
//! is done here.

use vstd::prelude::*;
use vstd::string::{StrSliceExecFns, StringExecFns, StringSliceAdditionalSpecFns};
use vstd::utf8::{decode_utf8, encode_utf8, is_char_boundary};

verus! {

/// What is taken out of a name: a list of slurs, in any case, and anything
/// that looks like a phone number.
pub const PATTERN: &'static str =
    "(?i)(nigger|nigga|faggot|fag|retard|tranny|troon|\\+\\d{7,15})";

/// What is put in its place.
pub const REPLACEMENT: &'static str = "\u{11f}\u{178}\u{2c6} censored \u{11f}\u{178}\u{2c6}";

/// What a search of `haystack` for `pattern` with the `regex` crate gives:
/// `None` where the pattern does not compile, else the byte offsets of the
/// first match, if there is one.
pub uninterp spec fn regex_find(pattern: Seq<char>, haystack: Seq<char>) -> Option<
    Option<(usize, usize)>,
>;

/// `regex::Regex::new`, then `Regex::find` on the compiled pattern, with
/// `Match::start` and `Match::end` of what it found. The result depends on
/// pattern and haystack alone; nothing more is claimed of it.
#[verifier::external_body]
fn find_first(pattern: &str, haystack: &str) -> (found: Option<Option<(usize, usize)>>)
    ensures
        found == regex_find(pattern@, haystack@),
{
    match regex::Regex::new(pattern) {
        Ok(re) => match re.find(haystack) {
            Some(m) => Some(Some((m.start(), m.end()))),
            None => Some(None),
        },
        Err(_) => None,
    }
}

/// Whether `start..end` is a range of whole characters of `text`, counted in
/// bytes of its UTF-8 encoding.
pub open spec fn is_span(text: Seq<char>, start: int, end: int) -> bool {
    &&& start <= end
    &&& is_char_boundary(encode_utf8(text), start)
    &&& is_char_boundary(encode_utf8(text), end)
}

/// `text` with the bytes `start..end` of its encoding replaced by `with`.
pub open spec fn splice(text: Seq<char>, start: int, end: int, with: Seq<char>) -> Seq<char> {
    let bytes = encode_utf8(text);
    decode_utf8(bytes.subrange(0, start)) + with + decode_utf8(
        bytes.subrange(end, bytes.len() as int),
    )
}

/// `text` with the span `start..end` censored; `text` itself where that is
/// no span of it.
pub open spec fn spec_replace(text: Seq<char>, start: int, end: int) -> Seq<char> {
    if is_span(text, start, end) {
        splice(text, start, end, REPLACEMENT@)
    } else {
        text
    }
}

/// `text` after one search: censored at the first match, or `None` where
/// nothing matches.
pub open spec fn censor_step(text: Seq<char>) -> Option<Seq<char>> {
    match regex_find(PATTERN@, text) {
        Some(Some((start, end))) => Some(spec_replace(text, start as int, end as int)),
        _ => None,
    }
}

/// `text` after searching and censoring over and over, until nothing
/// matches or `rounds` searches have matched.
pub open spec fn censored(text: Seq<char>, rounds: nat) -> Seq<char>
    decreases rounds,
{
    if rounds == 0 {
        text
    } else {
        match censor_step(text) {
            Some(next) => censored(next, (rounds - 1) as nat),
            None => text,
        }
    }
}

/// Replaces the bytes `start..end` of `text` by the replacement text. Leaves
/// `text` as it is where the range does not lie on character boundaries
/// within it.
pub fn replace_match(text: &str, start: usize, end: usize) -> (out: String)
    ensures
        out@ == spec_replace(text@, start as int, end as int),
{
    if start <= end && text.is_char_boundary(start) && text.is_char_boundary(end) {
        let (head, _) = text.split_at(start);
        let (_, tail) = text.split_at(end);
        let mut out = String::from_str(head);
        out.append(REPLACEMENT);
        out.append(tail);
        proof {
            let bytes = encode_utf8(text@);
            vstd::utf8::encode_utf8_decode_utf8(head@);
            vstd::utf8::encode_utf8_decode_utf8(tail@);
            assert(head.spec_bytes() == bytes.subrange(0, start as int));
            assert(tail.spec_bytes() == bytes.subrange(end as int, bytes.len() as int));
            assert(head@ == decode_utf8(bytes.subrange(0, start as int)));
            assert(tail@ == decode_utf8(bytes.subrange(end as int, bytes.len() as int)));
        }
        out
    } else {
        String::from_str(text)
    }
}

/// Censors `name`: the first match of the pattern is replaced, then the
/// search starts over on the result, until nothing matches. There are at
/// most as many rounds as `name` has characters.
pub fn filter(name: &str) -> (out: String)
    ensures
        out@ == censored(name@, name@.len()),
{
    let mut new_name = String::from_str(name);
    let mut rounds: usize = name.unicode_len();
    while rounds > 0
        invariant
            censored(new_name@, rounds as nat) == censored(name@, name@.len()),
        decreases rounds,
    {
        match find_first(PATTERN, new_name.as_str()) {
            Some(Some((start, end))) => {
                new_name = replace_match(new_name.as_str(), start, end);
                rounds = rounds - 1;
            },
            _ => {
                return new_name;
            },
        }
    }
    new_name
}

} // verus!
