use vstd::prelude::*;

use crate::errors::BeatError;
use crate::queue::{Queue, QueueView};
use crate::track::{TrackMetadata, TrackView};
use std::collections::VecDeque;

verus! {

/// How the status message must be brought up to date after an insertion:
/// either no message exists yet and one must be sent (`Create`), or the
/// existing message with the given identifier must be edited (`Edit`).
#[derive(Debug, Clone, Copy, PartialEq, Eq)]
pub enum StatusUpdate {
    Create,
    Edit(u64),
}

/// What the `previous` command asks of the voice engine: append the given
/// sources at the tail of its play queue in order, move those `rotate` tail
/// entries to the front of the pending queue (right behind the active slot),
/// then skip the active track.
#[derive(Debug)]
pub struct PrevPlan {
    pub urls: Vec<String>,
    pub rotate: usize,
}

/// What `insert_track` does to the state: rejected while stopping; otherwise
/// the track is appended and the status message must be created or edited.
pub open spec fn spec_insert_track(v: QueueView, t: TrackView) -> Result<
    (QueueView, StatusUpdate),
    BeatError,
> {
    if v.stopping {
        Err(BeatError::Stopping)
    } else {
        let update = match v.message_id {
            Some(id) => StatusUpdate::Edit(id),
            None => StatusUpdate::Create,
        };
        Ok((QueueView { tracks: v.tracks.push(t), ..v }, update))
    }
}

/// What `toggle_pause` does to the state.
pub open spec fn spec_toggle_pause(v: QueueView) -> QueueView {
    QueueView { pause: !v.pause, ..v }
}

/// What `toggle_repeat` does to the state.
pub open spec fn spec_toggle_repeat(v: QueueView) -> QueueView {
    QueueView { repeat: !v.repeat, ..v }
}

/// What `skip` does to the state: nothing.  The index advance happens on the
/// resulting track-ended event alone.
pub open spec fn spec_skip(v: QueueView) -> QueueView {
    v
}

/// What `stop` does to the state: back to the initial, stopping state.
pub open spec fn spec_stop(v: QueueView) -> (QueueView, Option<u64>) {
    (QueueView::initial(), v.message_id)
}

/// What `previous` does to the state, and which sources it re-enqueues:
/// `[previous, current]` when a previous track exists, `[current]` alone at
/// the left boundary (restarting the active track).  The playing index moves
/// one step back, floored at zero, and `did_skip` is set so that the stale
/// active track's ended event does not advance the index again.  On any
/// error the state is unchanged.
pub open spec fn spec_previous(v: QueueView) -> Result<
    (QueueView, Seq<Seq<char>>),
    BeatError,
> {
    if v.tracks.len() == 0 {
        Err(BeatError::NoCurrentTrack)
    } else {
        let current = v.tracks[v.playing_index];
        if v.playing_index >= 1 {
            let previous = v.tracks[v.playing_index - 1];
            match previous.source_url {
                None => Err(BeatError::NoPreviousSourceUrl),
                Some(prev_url) => match current.source_url {
                    None => Err(BeatError::NoCurrentSourceUrl),
                    Some(cur_url) => Ok(
                        (
                            QueueView {
                                playing_index: v.playing_index - 1,
                                did_skip: true,
                                ..v
                            },
                            seq![prev_url, cur_url],
                        ),
                    ),
                },
            }
        } else {
            match current.source_url {
                None => Err(BeatError::NoCurrentSourceUrl),
                Some(cur_url) => Ok((QueueView { did_skip: true, ..v }, seq![cur_url])),
            }
        }
    }
}

impl Queue {
    /// Appends a resolved track, unless a teardown is in progress.
    ///
    /// On success the caller must update the status display as the returned
    /// `StatusUpdate` says: send a fresh message and record its identifier
    /// with `record_status_message`, or edit the existing one.
    pub fn insert_track(&mut self, track: TrackMetadata) -> (r: Result<
        StatusUpdate,
        BeatError,
    >)
        requires
            old(self).wf(),
        ensures
            final(self).wf(),
            match spec_insert_track(old(self)@, track@) {
                Ok((v2, update)) => r == Ok::<StatusUpdate, BeatError>(update) && final(self)@
                    == v2,
                Err(e) => r == Err::<StatusUpdate, BeatError>(e) && final(self)@ == old(self)@,
            },
    {
        if self.stopping {
            return Err(BeatError::Stopping);
        }
        let update = match self.message_id {
            Some(id) => StatusUpdate::Edit(id),
            None => StatusUpdate::Create,
        };
        self.queue.push(track);
        proof {
            assert(self.queue.deep_view() =~= old(self).queue.deep_view().push(track@));
            assert(self@ =~= (QueueView { tracks: old(self)@.tracks.push(track@), ..old(self)@ }));
        }
        Ok(update)
    }

    /// Records the identifier of the status message just sent for this room.
    /// Only legal while no status message exists, which keeps the number of
    /// live status messages per room at one.
    pub fn record_status_message(&mut self, id: u64)
        requires
            old(self).wf(),
            old(self)@.message_id is None,
        ensures
            final(self).wf(),
            final(self)@ == (QueueView { message_id: Some(id), ..old(self)@ }),
    {
        self.message_id = Some(id);
    }

    /// Flips the pause flag and reports the new value; the caller must then
    /// pause (`true`) or resume (`false`) the voice engine and re-render.
    pub fn toggle_pause(&mut self) -> (now_paused: bool)
        requires
            old(self).wf(),
        ensures
            final(self).wf(),
            final(self)@ == spec_toggle_pause(old(self)@),
            now_paused == final(self)@.pause,
    {
        self.pause = !self.pause;
        self.pause
    }

    /// Flips the repeat flag and reports the new value.  Repeat only changes
    /// how the status display renders its loop control; the index advance on
    /// a natural track end does not consult it.
    pub fn toggle_repeat(&mut self) -> (now_repeat: bool)
        requires
            old(self).wf(),
        ensures
            final(self).wf(),
            final(self)@ == spec_toggle_repeat(old(self)@),
            now_repeat == final(self)@.repeat,
    {
        self.repeat = !self.repeat;
        self.repeat
    }

    /// The "next" command.  The controller only issues a skip to the voice
    /// engine; it deliberately leaves `playing_index` untouched.  Advancing
    /// is owned by the track-ended event, so a manual skip racing an
    /// in-flight end event can never advance the index twice.
    pub fn skip(&mut self)
        requires
            old(self).wf(),
        ensures
            final(self).wf(),
            final(self)@ == spec_skip(old(self)@),
    {
    }

    /// The "previous" command: steps the playing index one track back
    /// (floored at zero) and plans the engine-side reorder that makes the
    /// FIFO play queue start with the previous track, then the current one.
    /// Sets `did_skip` so the replaced track's ended event does not advance
    /// the index on top of this adjustment.  Fails without changing anything
    /// when the queue is empty or a needed source URL is missing.
    pub fn previous(&mut self) -> (r: Result<PrevPlan, BeatError>)
        requires
            old(self).wf(),
        ensures
            final(self).wf(),
            match spec_previous(old(self)@) {
                Ok((v2, urls)) => {
                    &&& final(self)@ == v2
                    &&& r matches Ok(plan) && plan.urls.deep_view() == urls && plan.rotate
                        == urls.len()
                },
                Err(e) => r == Err::<PrevPlan, BeatError>(e) && final(self)@ == old(self)@,
            },
    {
        proof {
            assert(self.queue.deep_view().len() == self.queue@.len());
        }
        if self.queue.len() == 0 {
            return Err(BeatError::NoCurrentTrack);
        }
        let current_url = match &self.queue[self.playing_index].source_url {
            Some(u) => u.clone(),
            None => {
                if self.playing_index >= 1 {
                    // The previous track's URL is inspected first, so its
                    // absence takes precedence over the current one's.
                    if self.queue[self.playing_index - 1].source_url.is_none() {
                        return Err(BeatError::NoPreviousSourceUrl);
                    }
                }
                return Err(BeatError::NoCurrentSourceUrl);
            },
        };
        if self.playing_index >= 1 {
            let prev_url = match &self.queue[self.playing_index - 1].source_url {
                Some(u) => u.clone(),
                None => {
                    return Err(BeatError::NoPreviousSourceUrl);
                },
            };
            self.playing_index = self.playing_index - 1;
            self.did_skip = true;
            let mut urls: Vec<String> = Vec::new();
            urls.push(prev_url);
            urls.push(current_url);
            proof {
                let ghost spec_urls = spec_previous(old(self)@)->Ok_0.1;
                assert(urls.deep_view() =~= spec_urls);
                assert(final(self)@ =~= spec_previous(old(self)@)->Ok_0.0);
            }
            Ok(PrevPlan { urls, rotate: 2 })
        } else {
            self.did_skip = true;
            let mut urls: Vec<String> = Vec::new();
            urls.push(current_url);
            proof {
                let ghost spec_urls = spec_previous(old(self)@)->Ok_0.1;
                assert(urls.deep_view() =~= spec_urls);
                assert(final(self)@ =~= spec_previous(old(self)@)->Ok_0.0);
            }
            Ok(PrevPlan { urls, rotate: 1 })
        }
    }

    /// The "stop" command: reports which status message to delete, and
    /// resets the room to the initial, stopping state.  The caller must also
    /// release the room's voice-engine resources.
    pub fn stop(&mut self) -> (delete_message: Option<u64>)
        ensures
            final(self).wf(),
            (final(self)@, delete_message) == spec_stop(old(self)@),
    {
        let delete_message = self.message_id;
        self.reset();
        delete_message
    }
}

/// The reorder step of the "previous" command, on a play queue that only
/// supports appending at the tail: moves the `n` most recently appended
/// entries to the front of the pending queue — positions 1 through `n`,
/// right behind the active entry at position 0 — keeping their order.
pub fn rotate_tail_to_front<T>(q: &mut VecDeque<T>, n: usize)
    requires
        n + 1 <= old(q).len(),
    ensures
        final(q)@ == old(q)@.subrange(0, 1) + old(q)@.subrange(
            old(q)@.len() - n,
            old(q)@.len() as int,
        ) + old(q)@.subrange(1, old(q)@.len() - n),
{
    let ghost orig = q@;
    let mut tail: Vec<T> = Vec::new();
    let mut i: usize = 0;
    while i < n
        invariant
            i <= n,
            n + 1 <= orig.len(),
            q@ =~= orig.subrange(0, orig.len() - i),
            tail@.len() == i,
            forall|k: int| 0 <= k < i ==> tail@[k] == orig[orig.len() - 1 - k],
        decreases n - i,
    {
        let item = q.pop_back().unwrap();
        tail.push(item);
        i = i + 1;
        proof {
            assert(q@ =~= orig.subrange(0, orig.len() - i));
        }
    }
    let ghost tail_full = tail@;
    let mut j: usize = 0;
    while j < n
        invariant
            j <= n,
            n + 1 <= orig.len(),
            tail_full.len() == n,
            forall|k: int| 0 <= k < n ==> tail_full[k] == orig[orig.len() - 1 - k],
            tail@ =~= tail_full.subrange(j as int, n as int),
            q@ =~= orig.subrange(0, 1) + orig.subrange(
                orig.len() - j,
                orig.len() as int,
            ) + orig.subrange(1, orig.len() - n),
        decreases n - j,
    {
        let item = tail.remove(0);
        q.insert(1, item);
        j = j + 1;
        proof {
            assert(tail@ =~= tail_full.subrange(j as int, n as int));
            assert(q@ =~= orig.subrange(0, 1) + orig.subrange(
                orig.len() - j,
                orig.len() as int,
            ) + orig.subrange(1, orig.len() - n));
        }
    }
    proof {
        assert(q@ =~= orig.subrange(0, 1) + orig.subrange(orig.len() - n, orig.len() as int)
            + orig.subrange(1, orig.len() - n));
    }
}

} // verus!
