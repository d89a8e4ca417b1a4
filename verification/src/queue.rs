use vstd::prelude::*;

use crate::track::{TrackMetadata, TrackView};

verus! {

/// The mathematical value of one room's playback state.
#[verifier::ext_equal]
pub ghost struct QueueView {
    pub did_skip: bool,
    pub pause: bool,
    pub repeat: bool,
    pub stopping: bool,
    pub playing_index: int,
    pub message_id: Option<u64>,
    pub tracks: Seq<TrackView>,
}

impl QueueView {
    /// The state a queue is created with and reset to: empty, not playing,
    /// refusing insertions (`stopping`), with no status message outstanding.
    pub open spec fn initial() -> QueueView {
        QueueView {
            did_skip: false,
            pause: false,
            repeat: false,
            stopping: true,
            playing_index: 0,
            message_id: None,
            tracks: Seq::empty(),
        }
    }

    /// Well-formedness: the playing index stays inside the track list, and
    /// sits at zero while the list is empty.
    pub open spec fn wf(self) -> bool {
        &&& 0 <= self.playing_index
        &&& self.tracks.len() == 0 ==> self.playing_index == 0
        &&& self.tracks.len() > 0 ==> self.playing_index < self.tracks.len()
    }

    /// Whether the active track is the last one (or the list is empty), in
    /// which case the next track-ended event tears the room down.
    pub open spec fn is_last(self) -> bool {
        self.playing_index + 1 >= self.tracks.len()
    }
}

/// One room's playback state: the ordered track list, the playing position,
/// the user-toggled mode flags, and the reference to the single live status
/// message.  Exactly one task may mutate it at a time; the surrounding
/// process serializes access per room.
#[derive(Debug)]
pub struct Queue {
    pub did_skip: bool,
    pub pause: bool,
    pub repeat: bool,
    pub stopping: bool,
    pub playing_index: usize,
    pub message_id: Option<u64>,
    pub queue: Vec<TrackMetadata>,
}

impl View for Queue {
    type V = QueueView;

    open spec fn view(&self) -> QueueView {
        QueueView {
            did_skip: self.did_skip,
            pause: self.pause,
            repeat: self.repeat,
            stopping: self.stopping,
            playing_index: self.playing_index as int,
            message_id: self.message_id,
            tracks: self.queue.deep_view(),
        }
    }
}

impl Queue {
    /// Abbreviation for well-formedness of the state this queue denotes.
    pub open spec fn wf(&self) -> bool {
        self@.wf()
    }

    /// Whether the active track is the last one (or the list is empty).
    pub fn is_last(&self) -> (r: bool)
        requires
            self.wf(),
        ensures
            r == self@.is_last(),
    {
        let len = self.queue.len();
        proof {
            assert(self.queue.deep_view().len() == self.queue@.len());
        }
        self.playing_index + 1 >= len
    }

    /// Returns the queue to the initial state: empty, `stopping` set.
    pub fn reset(&mut self)
        ensures
            final(self)@ == QueueView::initial(),
    {
        self.did_skip = false;
        self.repeat = false;
        self.pause = false;
        self.stopping = true;
        self.playing_index = 0;
        self.message_id = None;
        self.queue = Vec::new();
        proof {
            assert(self.queue.deep_view() =~= Seq::<TrackView>::empty());
        }
    }

    /// Resets the queue and immediately reopens it for insertions.
    pub fn reset_for_play(&mut self)
        ensures
            final(self)@ == (QueueView { stopping: false, ..QueueView::initial() }),
    {
        self.reset();
        self.stopping = false;
    }
}

impl Default for Queue {
    /// A fresh room state; identical to what `reset` leaves behind.
    fn default() -> (q: Queue)
        ensures
            q@ == QueueView::initial(),
    {
        let q = Queue {
            did_skip: false,
            repeat: false,
            pause: false,
            stopping: true,
            playing_index: 0,
            message_id: None,
            queue: Vec::new(),
        };
        proof {
            assert(q.queue.deep_view() =~= Seq::<TrackView>::empty());
        }
        q
    }
}

} // verus!
