use vstd::prelude::*;

use crate::numfmt::{spec_dec, u64_to_dec};

verus! {

/// Whether a channel message is cleaned away, given who wrote it, the bot's
/// own identity, and the room's live status message (if any).  With a live
/// status message, everything except that one message goes; without one,
/// the bot's own messages go.
pub open spec fn spec_clean_takes(msg: (u64, u64), me: u64, status: Option<u64>) -> bool {
    match status {
        Some(mid) => msg.1 == me || msg.0 != mid,
        None => msg.1 == me,
    }
}

/// The identifiers of the messages to clean away, rendered in decimal.
pub open spec fn spec_messages_to_clean(
    msgs: Seq<(u64, u64)>,
    me: u64,
    status: Option<u64>,
) -> Seq<Seq<char>>
    decreases msgs.len(),
{
    if msgs.len() == 0 {
        Seq::empty()
    } else if spec_clean_takes(msgs.last(), me, status) {
        spec_messages_to_clean(msgs.drop_last(), me, status).push(spec_dec(msgs.last().0 as int))
    } else {
        spec_messages_to_clean(msgs.drop_last(), me, status)
    }
}

/// Selects which channel messages the clean command deletes: each message
/// given as (message identifier, author identifier), against the bot's own
/// identity and the room's live status message.
#[verifier::loop_isolation(false)]
pub fn messages_to_clean(msgs: &Vec<(u64, u64)>, me: u64, status: Option<u64>) -> (r: Vec<
    String,
>)
    ensures
        r.deep_view() == spec_messages_to_clean(msgs@, me, status),
{
    let mut r: Vec<String> = Vec::new();
    let n = msgs.len();
    let mut i: usize = 0;
    while i < n
        invariant
            0 <= i <= n,
            r.deep_view() =~= spec_messages_to_clean(msgs@.take(i as int), me, status),
        decreases n - i,
    {
        let ghost rold = r.deep_view();
        let (id, author) = msgs[i];
        let takes = match status {
            Some(mid) => author == me || id != mid,
            None => author == me,
        };
        if takes {
            r.push(u64_to_dec(id));
        }
        i = i + 1;
        proof {
            assert(msgs@.take(i as int).drop_last() =~= msgs@.take(i - 1));
            if takes {
                assert(r.deep_view() =~= rold.push(spec_dec(id as int)));
            }
            assert(r.deep_view() =~= spec_messages_to_clean(msgs@.take(i as int), me, status));
        }
    }
    proof {
        assert(msgs@.take(n as int) =~= msgs@);
    }
    r
}

} // verus!
