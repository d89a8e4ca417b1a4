use vstd::prelude::*;

verus! {

/// Every way a playback command or queue operation can fail.
///
/// The first group reports missing context (no guild, no connection, no
/// queue); the second reports a track whose source reference cannot be
/// recovered; `Stopping` is the policy error returned when an insertion is
/// attempted while the room's queue is being torn down.
#[derive(Clone, Copy, Debug, PartialEq, Eq)]
pub enum BeatError {
    Other(&'static str),
    NoSongbird,
    NoGuild,
    NoQueue,
    NoQueues,
    NoManager,
    NoHttp,
    NoPreviousTrack,
    NoPreviousSourceUrl,
    NoCurrentTrack,
    NoCurrentSourceUrl,
    NoValidCommand,
    Stopping,
}

impl BeatError {
    /// The human-readable description of the error, as shown to users.
    pub fn message(&self) -> (r: &'static str)
        ensures
            r@ == self.spec_message(),
    {
        match self {
            BeatError::Other(msg) => msg,
            BeatError::NoSongbird => "No Songbird for that context",
            BeatError::NoGuild => "No guild ID on that interaction",
            BeatError::NoQueue => "No queue for that guild",
            BeatError::NoQueues => "Queues not initialized",
            BeatError::NoManager => "No active connection",
            BeatError::NoHttp => "No HTTP client",
            BeatError::NoPreviousTrack => "No previous track to load",
            BeatError::NoPreviousSourceUrl => "Previous track has no source URL",
            BeatError::NoCurrentTrack => "No current track to load",
            BeatError::NoCurrentSourceUrl => "Current track has no source URL",
            BeatError::NoValidCommand => "Not a valid command",
            BeatError::Stopping => "The queue is stopping",
        }
    }

    /// What `message` returns for each variant.
    pub open spec fn spec_message(&self) -> Seq<char> {
        match self {
            BeatError::Other(msg) => msg@,
            BeatError::NoSongbird => "No Songbird for that context"@,
            BeatError::NoGuild => "No guild ID on that interaction"@,
            BeatError::NoQueue => "No queue for that guild"@,
            BeatError::NoQueues => "Queues not initialized"@,
            BeatError::NoManager => "No active connection"@,
            BeatError::NoHttp => "No HTTP client"@,
            BeatError::NoPreviousTrack => "No previous track to load"@,
            BeatError::NoPreviousSourceUrl => "Previous track has no source URL"@,
            BeatError::NoCurrentTrack => "No current track to load"@,
            BeatError::NoCurrentSourceUrl => "Current track has no source URL"@,
            BeatError::NoValidCommand => "Not a valid command"@,
            BeatError::Stopping => "The queue is stopping"@,
        }
    }
}

} // verus!
