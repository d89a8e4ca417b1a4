use vstd::prelude::*;

use crate::errors::BeatError;
use crate::events::{spec_on_track_ended, EndedAction};
use crate::queue::QueueView;
use crate::render::spec_window;
use crate::track::TrackView;
use crate::transport::{
    spec_insert_track, spec_previous, spec_skip, spec_stop, spec_toggle_pause, spec_toggle_repeat,
    StatusUpdate,
};

verus! {

/// At most one status message exists per room at any observation point: the
/// state records at most one reference, an insertion requests a fresh
/// message only while none is recorded, every other transition keeps the
/// recorded reference, and stop or teardown hands back exactly the reference
/// that existed and records none.
pub proof fn lemma_single_status_message(v: QueueView, t: TrackView)
    ensures
        spec_insert_track(v, t) matches Ok((v2, update)) ==> {
            &&& update == StatusUpdate::Create ==> v.message_id is None
            &&& update matches StatusUpdate::Edit(id) ==> v.message_id == Some(id)
            &&& v2.message_id == v.message_id
        },
        spec_stop(v).0.message_id is None,
        spec_stop(v).1 == v.message_id,
        spec_on_track_ended(v).1 matches EndedAction::Teardown { delete_message } ==> {
            &&& delete_message == v.message_id
            &&& spec_on_track_ended(v).0.message_id is None
        },
        spec_on_track_ended(v).1 == EndedAction::Advance ==> spec_on_track_ended(v).0.message_id
            == v.message_id,
        spec_toggle_pause(v).message_id == v.message_id,
        spec_toggle_repeat(v).message_id == v.message_id,
{
}

/// No double advance, manual-skip case: a skip leaves the index untouched,
/// so the track-ended event it provokes advances the index exactly once.
pub proof fn lemma_no_double_advance_skip(v: QueueView)
    requires
        v.wf(),
        !v.is_last(),
        !v.did_skip,
    ensures
        spec_on_track_ended(spec_skip(v)).0.playing_index == v.playing_index + 1,
{
}

/// No double advance, previous case: a successful previous already moved the
/// index (one step back, floored at zero) and set `did_skip`, so the ended
/// event of the replaced track does not move the index again — the net
/// change is the manual operation's alone, never one more.
pub proof fn lemma_no_double_advance_previous(v: QueueView)
    requires
        v.wf(),
        spec_previous(v) is Ok,
    ensures
        (spec_previous(v)->Ok_0).0.did_skip,
        (spec_previous(v)->Ok_0).0.playing_index == if v.playing_index >= 1 {
            v.playing_index - 1
        } else {
            0int
        },
        !(spec_previous(v)->Ok_0).0.is_last() ==> spec_on_track_ended(
            (spec_previous(v)->Ok_0).0,
        ).0.playing_index == (spec_previous(v)->Ok_0).0.playing_index,
{
}

/// Windowing: whenever the track list is too long to show whole, the window
/// around any active position still shows the first and the last position
/// as anchors, and never more than `2 * split + 3` rows in all.
pub proof fn lemma_window_anchors(index: int, len: int, split: int)
    requires
        0 <= index < len,
        len > 2 * split + 1,
        split >= 1,
    ensures
        spec_window(index, len, split).contains(0),
        spec_window(index, len, split).contains(len - 1),
        spec_window(index, len, split).len() <= 2 * split + 3,
{
    let w = spec_window(index, len, split);
    assert(w.contains(0)) by {
        assert(w[0] == 0);
    }
    assert(w.contains(len - 1)) by {
        assert(w[w.len() - 1] == len - 1);
    }
}

/// Stop wins over a racing insertion, whichever order the room's exclusive
/// access serializes them in: insertion then stop ends in the initial
/// stopping state, and stop then insertion rejects the insertion with
/// `Stopping`, leaving the initial state in place.
pub proof fn lemma_stop_wins(v: QueueView, t: TrackView)
    ensures
        spec_insert_track(v, t) matches Ok((v1, update)) ==> spec_stop(v1).0
            == QueueView::initial(),
        spec_insert_track(spec_stop(v).0, t) == Err::<(QueueView, StatusUpdate), BeatError>(
            BeatError::Stopping,
        ),
{
}

} // verus!
