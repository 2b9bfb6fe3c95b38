//! Request datagrams and the challenge step of an A2S exchange.
//!
//! A server may answer a request with a challenge instead of data. The
//! request is then sent again with the challenge attached, for as long as the
//! server keeps challenging. Sending and receiving are the caller's part;
//! which datagram goes out next is decided here.

use vstd::prelude::*;

verus! {

/// Tag byte of a response that carries a challenge instead of data.
pub const CHALLENGE_TAG: u8 = 0x41;

/// Seconds that each single send and each single receive may take.
pub const TIMEOUT_SECS: u64 = 5;

/// The two queries a server is asked.
#[derive(Debug, Clone, Copy, PartialEq, Eq, Structural)]
pub enum Query {
    /// `A2S_INFO`
    Info,
    /// `A2S_PLAYER`
    Player,
}

/// The four `0xFF` bytes that open every datagram.
pub open spec fn marker() -> Seq<u8> {
    seq![0xFFu8, 0xFFu8, 0xFFu8, 0xFFu8]
}

/// `TSource Engine Query`, NUL-terminated.
pub open spec fn info_payload() -> Seq<u8> {
    seq![
        0x54u8, 0x53u8, 0x6Fu8, 0x75u8, 0x72u8, 0x63u8, 0x65u8, 0x20u8, 0x45u8, 0x6Eu8, 0x67u8,
        0x69u8, 0x6Eu8, 0x65u8, 0x20u8, 0x51u8, 0x75u8, 0x65u8, 0x72u8, 0x79u8, 0x00u8,
    ]
}

/// The tag `U` and a four-byte placeholder where a challenge would stand.
pub open spec fn player_payload() -> Seq<u8> {
    seq![0x55u8, 0xFFu8, 0xFFu8, 0xFFu8, 0xFFu8]
}

/// The first datagram of an exchange: the marker, then the query's payload.
pub open spec fn request_bytes(query: Query) -> Seq<u8> {
    marker() + query.payload()
}

/// Whether `response` asks for a challenge to be echoed: its fifth byte is
/// the challenge tag.
pub open spec fn is_challenge(response: Seq<u8>) -> bool {
    response.len() > 4 && response[4] == CHALLENGE_TAG
}

/// The challenge that `response` carries: everything after its fifth byte.
pub open spec fn challenge_of(response: Seq<u8>) -> Seq<u8> {
    if response.len() > 5 {
        response.skip(5)
    } else {
        Seq::empty()
    }
}

/// The datagram that answers a challenge. For `Info` the challenge follows
/// the first request; for `Player` it takes the placeholder's place.
pub open spec fn challenge_reply(query: Query, challenge: Seq<u8>) -> Seq<u8> {
    match query {
        Query::Info => request_bytes(Query::Info) + challenge,
        Query::Player => marker() + seq![0x55u8] + challenge,
    }
}

/// What to do once a response has arrived.
pub enum Step {
    /// The server challenged: send these bytes and await the next response.
    Resend(Vec<u8>),
    /// The response carries the data: decode it.
    Decode,
}

/// The step that `response` calls for.
pub open spec fn step_after(query: Query, response: Seq<u8>) -> Option<Seq<u8>> {
    if is_challenge(response) {
        Some(challenge_reply(query, challenge_of(response)))
    } else {
        None
    }
}

impl Query {
    /// The payload that follows the marker in the first request.
    pub open spec fn payload(self) -> Seq<u8> {
        match self {
            Query::Info => info_payload(),
            Query::Player => player_payload(),
        }
    }

    /// The payload that follows the marker in the first request.
    #[must_use]
    pub fn get(&self) -> (payload: &'static [u8])
        ensures
            payload@ == self.payload(),
    {
        match self {
            Query::Info => {
                let bytes: &'static [u8; 21] = &[
                    0x54u8, 0x53u8, 0x6Fu8, 0x75u8, 0x72u8, 0x63u8, 0x65u8, 0x20u8, 0x45u8,
                    0x6Eu8, 0x67u8, 0x69u8, 0x6Eu8, 0x65u8, 0x20u8, 0x51u8, 0x75u8, 0x65u8,
                    0x72u8, 0x79u8, 0x00u8,
                ];
                bytes.as_slice()
            },
            Query::Player => {
                let bytes: &'static [u8; 5] = &[0x55u8, 0xFFu8, 0xFFu8, 0xFFu8, 0xFFu8];
                bytes.as_slice()
            },
        }
    }
}

/// Appends `bytes[from..]` to `out`.
fn extend_from(out: &mut Vec<u8>, bytes: &[u8], from: usize)
    requires
        from <= bytes@.len(),
    ensures
        final(out)@ == old(out)@ + bytes@.skip(from as int),
{
    let mut i: usize = from;
    while i < bytes.len()
        invariant
            from <= i <= bytes@.len(),
            out@ == old(out)@ + bytes@.subrange(from as int, i as int),
        decreases bytes@.len() - i,
    {
        out.push(bytes[i]);
        i = i + 1;
    }
}

/// The first datagram of an exchange.
pub fn first_request(query: Query) -> (request: Vec<u8>)
    ensures
        request@ == request_bytes(query),
{
    let mut request: Vec<u8> = vec![0xFFu8, 0xFFu8, 0xFFu8, 0xFFu8];
    extend_from(&mut request, query.get(), 0);
    request
}

/// Decides what follows a response: resend with the challenge attached, or
/// decode.
pub fn next_step(query: Query, response: &[u8]) -> (step: Step)
    ensures
        match step_after(query, response@) {
            Some(bytes) => step matches Step::Resend(request) && request@ == bytes,
            None => step is Decode,
        },
{
    if response.len() <= 4 || response[4] != CHALLENGE_TAG {
        return Step::Decode;
    }
    let mut request: Vec<u8> = match query {
        Query::Info => first_request(Query::Info),
        Query::Player => vec![0xFFu8, 0xFFu8, 0xFFu8, 0xFFu8, 0x55u8],
    };
    if response.len() > 5 {
        extend_from(&mut request, response, 5);
    }
    Step::Resend(request)
}

} // verus!
