use vstd::prelude::*;

use crate::queue::{Queue, QueueView};
use std::collections::HashMap;

verus! {

broadcast use vstd::std_specs::hash::group_hash_axioms;

/// The single point of truth for per-room playback state: a map from room
/// identifier to queue state.
///
/// Exclusive mutation discipline: the surrounding process serializes access
/// per room (one task at a time takes a room's state out with `take_room`,
/// mutates it through the queue's operations, and puts it back with
/// `put_room`), and finishes any long-running external call before taking
/// the state, so exclusivity windows stay short.  Absence of a room's state
/// is an ordinary, retrievable condition.
pub struct QueueStore {
    rooms: HashMap<u64, Queue>,
}

impl View for QueueStore {
    type V = Map<u64, QueueView>;

    closed spec fn view(&self) -> Map<u64, QueueView> {
        self.rooms@.map_values(|q: Queue| q@)
    }
}

impl QueueStore {
    /// Every queue held by the store is well-formed.
    pub open spec fn wf(&self) -> bool {
        forall|room: u64| self@.contains_key(room) ==> (#[trigger] self@[room]).wf()
    }

    /// An empty store, tracking no rooms.
    pub fn new() -> (s: QueueStore)
        ensures
            s@ == Map::<u64, QueueView>::empty(),
            s.wf(),
    {
        let s = QueueStore { rooms: HashMap::new() };
        proof {
            assert(s@ =~= Map::<u64, QueueView>::empty());
        }
        s
    }

    /// Whether a room is tracked.
    pub fn contains_room(&self, room: u64) -> (b: bool)
        ensures
            b == self@.contains_key(room),
    {
        self.rooms.contains_key(&room)
    }

    /// Starts tracking a room with a fresh, stopped queue (the state of a
    /// room first observed), replacing whatever was recorded before.
    pub fn init_room(&mut self, room: u64)
        requires
            old(self).wf(),
        ensures
            final(self).wf(),
            final(self)@ == old(self)@.insert(room, QueueView::initial()),
    {
        self.rooms.insert(room, Queue::default());
        proof {
            assert(self@ =~= old(self)@.insert(room, QueueView::initial()));
        }
    }

    /// Takes a room's state out for exclusive mutation; the caller must put
    /// it back with `put_room` when done.  Reports `None`, leaving the store
    /// unchanged, when the room is not tracked.
    pub fn take_room(&mut self, room: u64) -> (r: Option<Queue>)
        requires
            old(self).wf(),
        ensures
            final(self).wf(),
            match r {
                Some(q) => {
                    &&& old(self)@.contains_key(room)
                    &&& q@ == old(self)@[room]
                    &&& q.wf()
                    &&& final(self)@ == old(self)@.remove(room)
                },
                None => {
                    &&& !old(self)@.contains_key(room)
                    &&& final(self)@ == old(self)@
                },
            },
    {
        let r = self.rooms.remove(&room);
        proof {
            if r is Some {
                assert(self@ =~= old(self)@.remove(room));
            } else {
                assert(self@ =~= old(self)@);
            }
        }
        r
    }

    /// Puts a room's state back after exclusive mutation.
    pub fn put_room(&mut self, room: u64, q: Queue)
        requires
            old(self).wf(),
            q.wf(),
        ensures
            final(self).wf(),
            final(self)@ == old(self)@.insert(room, q@),
    {
        let ghost qv = q@;
        self.rooms.insert(room, q);
        proof {
            assert(self@ =~= old(self)@.insert(room, qv));
        }
    }

    /// Stops tracking a room entirely (the stop command's final step, after
    /// the room's resources are released).
    pub fn remove_room(&mut self, room: u64)
        requires
            old(self).wf(),
        ensures
            final(self).wf(),
            final(self)@ == old(self)@.remove(room),
    {
        self.rooms.remove(&room);
        proof {
            assert(self@ =~= old(self)@.remove(room));
        }
    }
}

} // verus!
