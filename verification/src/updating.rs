//! The status messages that are kept up to date, each known by its channel,
//! its message id and the server it shows.

use vstd::prelude::*;
use vstd::string::StringExecFns;

verus! {

/// Seconds between two updates of the messages.
pub const UPDATE_INTERVAL_SECS: u64 = 15;

/// Whether an entry is the message `message_id` in channel `channel_id`.
pub open spec fn is_message(entry: (u64, u64, String), channel_id: u64, message_id: u64) -> bool {
    entry.0 == channel_id && entry.1 == message_id
}

/// The entries that are not the given message, in their order.
pub open spec fn without_message(
    entries: Seq<(u64, u64, String)>,
    channel_id: u64,
    message_id: u64,
) -> Seq<(u64, u64, String)> {
    entries.filter(|e: (u64, u64, String)| !is_message(e, channel_id, message_id))
}

/// Whether the given message is one of those kept up to date.
pub fn is_tracked(entries: &Vec<(u64, u64, String)>, channel_id: u64, message_id: u64) -> (found:
    bool)
    ensures
        found == exists|i: int|
            0 <= i < entries@.len() && is_message(#[trigger] entries@[i], channel_id, message_id),
{
    let mut i: usize = 0;
    while i < entries.len()
        invariant
            i <= entries@.len(),
            forall|j: int| 0 <= j < i ==> !is_message(#[trigger] entries@[j], channel_id, message_id),
        decreases entries@.len() - i,
    {
        if entries[i].0 == channel_id && entries[i].1 == message_id {
            return true;
        }
        i = i + 1;
    }
    false
}

/// Takes the given message out of those kept up to date. The others stay,
/// in their order.
pub fn untrack(entries: Vec<(u64, u64, String)>, channel_id: u64, message_id: u64) -> (kept: Vec<
    (u64, u64, String),
>)
    ensures
        kept@ == without_message(entries@, channel_id, message_id),
{
    let ghost all = entries@;
    let mut kept: Vec<(u64, u64, String)> = Vec::new();
    proof {
        reveal(Seq::filter);
        assert(all.take(0) == Seq::<(u64, u64, String)>::empty());
    }
    for e in it: entries.into_iter()
        invariant
            it.seq() == all,
            kept@ == without_message(all.take(it.index() as int), channel_id, message_id),
    {
        let ghost i = it.index() as int;
        proof {
            reveal(Seq::filter);
            let next = all.take(i + 1);
            assert(next.drop_last() == all.take(i));
            assert(next.last() == e);
            assert(without_message(next, channel_id, message_id) == if !is_message(
                e,
                channel_id,
                message_id,
            ) {
                without_message(all.take(i), channel_id, message_id).push(e)
            } else {
                without_message(all.take(i), channel_id, message_id)
            });
        }
        if !(e.0 == channel_id && e.1 == message_id) {
            kept.push(e);
        }
    }
    proof {
        assert(all.take(all.len() as int) == all);
    }
    kept
}

/// Help text of the command that creates an updating status message.
pub fn create_usm_help() -> (text: String)
    ensures
        text@ == "Create a status message that will get continuously updated.\nThis requires admin privileges."@,
{
    String::from_str(
        "Create a status message that will get continuously updated.\nThis requires admin privileges.",
    )
}

/// Help text of the command that deletes an updating status message.
pub fn delete_usm_help() -> (text: String)
    ensures
        text@ == "Delete an updating status message, and remove it from the database.\nThis requires admin privileges."@,
{
    String::from_str(
        "Delete an updating status message, and remove it from the database.\nThis requires admin privileges.",
    )
}

} // verus!
