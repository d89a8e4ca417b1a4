use vstd::prelude::*;
use vstd::string::StrSliceExecFns;
use vstd::string::StringExecFns;

use crate::errors::BeatError;
use crate::numfmt::{push_dec, spec_dec};
use crate::queue::Queue;
use crate::render::{join_strings, lemma_join_push, spec_join};
use crate::track::TrackView;

verus! {

/// Whether every queued track still knows the source reference it was
/// resolved from; saving a playlist needs all of them.
pub open spec fn spec_all_sources_known(tracks: Seq<TrackView>) -> bool {
    forall|k: int| 0 <= k < tracks.len() ==> (#[trigger] tracks[k]).source_url is Some
}

impl Queue {
    /// Reports whether every queued track still knows its source reference.
    pub fn all_sources_known(&self) -> (b: bool)
        ensures
            b == spec_all_sources_known(self@.tracks),
    {
        let ghost gtracks = self@.tracks;
        let len = self.queue.len();
        proof {
            assert(gtracks.len() == len);
        }
        let mut i: usize = 0;
        while i < len
            invariant
                0 <= i <= len,
                len == gtracks.len(),
                gtracks == self@.tracks,
                forall|k: int| 0 <= k < i ==> (#[trigger] gtracks[k]).source_url is Some,
            decreases len - i,
        {
            if self.queue[i].source_url.is_none() {
                proof {
                    assert(gtracks[i as int].source_url is None);
                    assert(!spec_all_sources_known(gtracks));
                }
                return false;
            }
            i = i + 1;
        }
        true
    }

    /// The contents of the playlist file that preserves this queue: every
    /// track's source reference, one per line.
    pub fn playlist_file_contents(&self) -> (r: Result<String, BeatError>)
        requires
            self.wf(),
        ensures
            spec_all_sources_known(self@.tracks) ==> (r matches Ok(s) && s@ == spec_join(
                self@.tracks.map_values(|t: TrackView| t.source_url->0),
                "\n"@,
            )),
            !spec_all_sources_known(self@.tracks) ==> r
                == Err::<String, BeatError>(BeatError::NoCurrentSourceUrl),
    {
        let ghost gtracks = self@.tracks;
        let len = self.queue.len();
        proof {
            assert(gtracks.len() == len);
        }
        let mut urls: Vec<String> = Vec::new();
        let mut i: usize = 0;
        while i < len
            invariant
                0 <= i <= len,
                len == gtracks.len(),
                gtracks == self@.tracks,
                urls@.len() == i,
                forall|k: int| 0 <= k < i ==> (#[trigger] gtracks[k]).source_url is Some,
                forall|k: int| 0 <= k < i ==> (#[trigger] urls@[k])@ == gtracks[k].source_url->0,
            decreases len - i,
        {
            match &self.queue[i].source_url {
                Some(u) => {
                    urls.push(u.clone());
                },
                None => {
                    proof {
                        assert(gtracks[i as int].source_url is None);
                        assert(!spec_all_sources_known(gtracks));
                    }
                    return Err(BeatError::NoCurrentSourceUrl);
                },
            }
            i = i + 1;
        }
        proof {
            assert(urls.deep_view() =~= gtracks.map_values(|t: TrackView| t.source_url->0));
        }
        Ok(join_strings(&urls, "\n"))
    }
}

/// Splits saved playlist contents back into lines: the unique cut of the
/// text at every newline into newline-free parts.
#[verifier::loop_isolation(false)]
pub fn split_lines(s: &str) -> (r: Vec<String>)
    ensures
        spec_join(r.deep_view(), "\n"@) == s@,
        forall|k: int| 0 <= k < r.deep_view().len() ==> !(#[trigger] r.deep_view()[k]).contains(
            '\n',
        ),
        r.deep_view().len() >= 1,
{
    let n = s.unicode_len();
    let mut r: Vec<String> = Vec::new();
    let mut seg_start: usize = 0;
    let mut i: usize = 0;
    proof {
        reveal_strlit("\n");
    }
    while i < n
        invariant
            0 <= seg_start <= i <= n,
            spec_join(r.deep_view().push(s@.subrange(seg_start as int, i as int)), "\n"@) == s@
                .take(i as int),
            forall|k: int| 0 <= k < r.deep_view().len() ==> !(#[trigger] r.deep_view()[k]).contains(
                '\n',
            ),
            forall|j: int| seg_start <= j < i ==> s@[j] != '\n',
        decreases n - i,
    {
        let c = s.get_char(i);
        let ghost cur = s@.subrange(seg_start as int, i as int);
        let ghost rold = r.deep_view();
        if c == '\n' {
            let part = String::from_str(s.substring_char(seg_start, i));
            proof {
                assert(!cur.contains('\n')) by {
                    assert(forall|j: int| 0 <= j < cur.len() ==> cur[j] != '\n');
                }
            }
            r.push(part);
            seg_start = i + 1;
            i = i + 1;
            proof {
                let nr = r.deep_view();
                assert(nr =~= rold.push(cur));
                let empty_cur = s@.subrange(i as int, i as int);
                assert(empty_cur =~= Seq::<char>::empty());
                lemma_join_push(nr, "\n"@, empty_cur);
                assert(spec_join(nr, "\n"@) == s@.take(i - 1));
                assert(s@.take(i as int) =~= s@.take(i - 1) + seq!['\n']);
                assert(spec_join(nr.push(empty_cur), "\n"@) =~= s@.take(i as int));
            }
        } else {
            i = i + 1;
            proof {
                let newcur = s@.subrange(seg_start as int, i as int);
                assert(newcur =~= cur.push(c));
                lemma_join_push(rold, "\n"@, cur);
                lemma_join_push(rold, "\n"@, newcur);
                assert(s@.take(i as int) =~= s@.take(i - 1).push(c));
                assert(spec_join(rold.push(newcur), "\n"@) =~= s@.take(i as int));
            }
        }
    }
    let ghost cur = s@.subrange(seg_start as int, n as int);
    let ghost rold = r.deep_view();
    let last = String::from_str(s.substring_char(seg_start, n));
    proof {
        assert(!cur.contains('\n')) by {
            assert(forall|j: int| 0 <= j < cur.len() ==> cur[j] != '\n');
        }
    }
    r.push(last);
    proof {
        assert(r.deep_view() =~= rold.push(cur));
        assert(s@.take(n as int) =~= s@);
    }
    r
}

/// How many newlines the text holds.
pub open spec fn spec_newline_count(bytes: Seq<u8>) -> int
    decreases bytes.len(),
{
    if bytes.len() == 0 {
        0
    } else {
        spec_newline_count(bytes.drop_last()) + if bytes.last() == 10u8 {
            1int
        } else {
            0int
        }
    }
}

/// How many lines a stored playlist file holds: one per newline, plus a
/// final line when the file does not end in a newline.
pub open spec fn spec_line_count(bytes: Seq<u8>) -> int {
    spec_newline_count(bytes) + if bytes.len() > 0 && bytes.last() != 10u8 {
        1int
    } else {
        0int
    }
}

/// Counts the lines of a stored playlist file.
#[verifier::loop_isolation(false)]
pub fn line_count(bytes: &Vec<u8>) -> (r: usize)
    requires
        bytes@.len() < usize::MAX,
    ensures
        r as int == spec_line_count(bytes@),
{
    let n = bytes.len();
    let mut newlines: usize = 0;
    let mut i: usize = 0;
    while i < n
        invariant
            0 <= i <= n,
            newlines as int == spec_newline_count(bytes@.take(i as int)),
            newlines <= i,
        decreases n - i,
    {
        let ghost prefix = bytes@.take(i as int);
        i = i + 1;
        proof {
            assert(bytes@.take(i as int).drop_last() =~= prefix);
        }
        if bytes[i - 1] == 10 {
            newlines = newlines + 1;
        }
        proof {
            assert(spec_newline_count(bytes@.take(i as int)) == newlines as int);
        }
    }
    proof {
        assert(bytes@.take(n as int) =~= bytes@);
    }
    if n > 0 && bytes[n - 1] != 10 {
        newlines + 1
    } else {
        newlines
    }
}

/// The listing body for the stored playlists of a room: one dashed line per
/// playlist with its name and track count.
pub open spec fn spec_playlists_body(entries: Seq<(Seq<char>, u64)>) -> Seq<char>
    decreases entries.len(),
{
    if entries.len() == 0 {
        Seq::empty()
    } else {
        spec_playlists_body(entries.drop_last()) + "\n- "@ + entries.last().0 + " ("@ + spec_dec(
            entries.last().1 as int,
        ) + " tracks)"@
    }
}

/// Renders the listing body for stored playlists, or the fixed placeholder
/// when there are none.
#[verifier::loop_isolation(false)]
pub fn playlists_body(entries: &Vec<(String, u64)>) -> (r: String)
    ensures
        entries@.len() == 0 ==> r@ == "_None_"@,
        entries@.len() > 0 ==> r@ == spec_playlists_body(entries.deep_view()),
{
    let ghost gentries = entries.deep_view();
    proof {
        assert(gentries.len() == entries@.len());
    }
    if entries.len() == 0 {
        return String::from_str("_None_");
    }
    let mut out = String::new();
    let mut i: usize = 0;
    while i < entries.len()
        invariant
            0 <= i <= gentries.len(),
            out@ == spec_playlists_body(gentries.take(i as int)),
        decreases gentries.len() - i,
    {
        out.append("\n- ");
        out.append(entries[i].0.as_str());
        out.append(" (");
        push_dec(entries[i].1, &mut out);
        out.append(" tracks)");
        i = i + 1;
        proof {
            assert(gentries.take(i as int).drop_last() =~= gentries.take(i - 1));
            assert(out@ =~= spec_playlists_body(gentries.take(i as int)));
        }
    }
    proof {
        assert(gentries.take(gentries.len() as int) =~= gentries);
    }
    out
}

} // verus!
