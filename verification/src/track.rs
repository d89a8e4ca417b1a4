use vstd::prelude::*;

verus! {

/// The mathematical value of a resolved track: what the queue logic and the
/// renderer read of it.
#[verifier::ext_equal]
pub ghost struct TrackView {
    pub title: Seq<char>,
    pub artist: Seq<char>,
    pub duration_secs: u64,
    pub source_url: Option<Seq<char>>,
    pub thumbnail: Seq<char>,
}

/// Metadata of one resolved track, immutable once inserted into a queue.
///
/// The external resolver produces it; the surrounding process converts the
/// resolver's answer into these plain values before handing it in.  A track
/// may lack a source URL (`source_url == None`); replaying it then fails with
/// the corresponding error.
#[derive(Debug, Clone)]
pub struct TrackMetadata {
    pub title: String,
    pub artist: String,
    pub duration_secs: u64,
    pub source_url: Option<String>,
    pub thumbnail: String,
}

impl View for TrackMetadata {
    type V = TrackView;

    open spec fn view(&self) -> TrackView {
        TrackView {
            title: self.title@,
            artist: self.artist@,
            duration_secs: self.duration_secs,
            source_url: match self.source_url {
                Some(u) => Some(u@),
                None => None,
            },
            thumbnail: self.thumbnail@,
        }
    }
}

impl DeepView for TrackMetadata {
    type V = TrackView;

    open spec fn deep_view(&self) -> TrackView {
        self.view()
    }
}

} // verus!
