use vstd::prelude::*;

use crate::queue::{Queue, QueueView};

verus! {

/// What the caller must do after a track-ended event has been reconciled:
/// tear the room down (delete the given status message, if any, and release
/// the voice engine's resources), or resume playback of the next track and
/// re-render the status message.
#[derive(Debug, Clone, Copy, PartialEq, Eq)]
pub enum EndedAction {
    Teardown { delete_message: Option<u64> },
    Advance,
}

/// What a track-ended event does to the state.
///
/// When the ended track was the last one (or the list is empty), the room is
/// torn down.  Otherwise the playing index advances by one — unless a manual
/// skip or previous already adjusted it, which it announces through
/// `did_skip`; checking that flag before incrementing is what prevents a
/// double advance when a manual command races the end event of the track it
/// replaced.  Either way `did_skip` is consumed and the pause and repeat
/// flags fall back to their defaults before playback resumes.
pub open spec fn spec_on_track_ended(v: QueueView) -> (QueueView, EndedAction) {
    if v.is_last() {
        (QueueView::initial(), EndedAction::Teardown { delete_message: v.message_id })
    } else {
        (
            QueueView {
                playing_index: if v.did_skip {
                    v.playing_index
                } else {
                    v.playing_index + 1
                },
                did_skip: false,
                pause: false,
                repeat: false,
                ..v
            },
            EndedAction::Advance,
        )
    }
}

impl Queue {
    /// Reconciles an asynchronous "track ended" notification from the voice
    /// engine with this room's state.
    pub fn on_track_ended(&mut self) -> (action: EndedAction)
        requires
            old(self).wf(),
        ensures
            final(self).wf(),
            (final(self)@, action) == spec_on_track_ended(old(self)@),
    {
        if self.is_last() {
            let delete_message = self.message_id;
            self.reset();
            EndedAction::Teardown { delete_message }
        } else {
            let len = self.queue.len();
            proof {
                assert(self.queue.deep_view().len() == len);
            }
            if !self.did_skip {
                self.playing_index = self.playing_index + 1;
            }
            self.did_skip = false;
            self.repeat = false;
            self.pause = false;
            proof {
                assert(self@ =~= spec_on_track_ended(old(self)@).0);
            }
            EndedAction::Advance
        }
    }

    /// Reconciles a "track started" notification: reports which status
    /// message to re-render, if one exists.  The state does not change; the
    /// event is safe to deliver redundantly.
    pub fn on_track_started(&self) -> (message: Option<u64>)
        ensures
            message == self@.message_id,
    {
        self.message_id
    }
}

} // verus!
