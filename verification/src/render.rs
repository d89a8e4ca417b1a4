use vstd::prelude::*;
use vstd::string::StringExecFns;

use crate::numfmt::{push_dec, push_pad2, spec_dec, spec_pad2};
use crate::queue::{Queue, QueueView};
use crate::track::{TrackMetadata, TrackView};

verus! {

/// `h:m:s` time rendering of a second count, two digits per part, omitting
/// the hour part when it is zero and the minute part when it is zero.
pub open spec fn spec_readable_duration(secs: int) -> Seq<char> {
    let s = secs % 60;
    let m = (secs / 60) % 60;
    let h = (secs / 60) / 60;
    if h > 0 && m > 0 {
        spec_pad2(h) + ":"@ + spec_pad2(m) + ":"@ + spec_pad2(s)
    } else if h > 0 {
        spec_pad2(h) + ":"@ + spec_pad2(s)
    } else if m > 0 {
        spec_pad2(m) + ":"@ + spec_pad2(s)
    } else {
        spec_pad2(s)
    }
}

/// `elapsed/total` time rendering; both sides show exactly the parts that
/// the total needs, so the two readings line up.
pub open spec fn spec_readable_elapsed(elapsed: int, total: int) -> Seq<char> {
    let st = total % 60;
    let mt = (total / 60) % 60;
    let ht = (total / 60) / 60;
    let se = elapsed % 60;
    let me = (elapsed / 60) % 60;
    let he = (elapsed / 60) / 60;
    if ht > 0 {
        spec_pad2(he) + ":"@ + spec_pad2(me) + ":"@ + spec_pad2(se) + "/"@ + spec_pad2(ht) + ":"@
            + spec_pad2(mt) + ":"@ + spec_pad2(st)
    } else if mt > 0 {
        spec_pad2(me) + ":"@ + spec_pad2(se) + "/"@ + spec_pad2(mt) + ":"@ + spec_pad2(st)
    } else {
        spec_pad2(se) + "/"@ + spec_pad2(st)
    }
}

/// Renders a second count as readable time, as the status display shows it.
pub fn readable_duration(secs: u64) -> (r: String)
    ensures
        r@ == spec_readable_duration(secs as int),
{
    let s = secs % 60;
    let m = (secs / 60) % 60;
    let h = (secs / 60) / 60;
    let mut out = String::new();
    if h > 0 {
        push_pad2(h, &mut out);
        out.append(":");
    }
    if m > 0 {
        push_pad2(m, &mut out);
        out.append(":");
    }
    push_pad2(s, &mut out);
    proof {
        assert(out@ =~= spec_readable_duration(secs as int));
    }
    out
}

/// Renders elapsed time over total time, as the status display's footer
/// shows it.
pub fn readable_elapsed(elapsed: u64, total: u64) -> (r: String)
    ensures
        r@ == spec_readable_elapsed(elapsed as int, total as int),
{
    let st = total % 60;
    let mt = (total / 60) % 60;
    let ht = (total / 60) / 60;
    let se = elapsed % 60;
    let me = (elapsed / 60) % 60;
    let he = (elapsed / 60) / 60;
    let mut left = String::new();
    let mut right = String::new();
    if ht > 0 {
        push_pad2(ht, &mut right);
        right.append(":");
        push_pad2(he, &mut left);
        left.append(":");
    }
    if mt > 0 || ht > 0 {
        push_pad2(mt, &mut right);
        right.append(":");
        push_pad2(me, &mut left);
        left.append(":");
    }
    push_pad2(st, &mut right);
    push_pad2(se, &mut left);
    let mut out = left;
    out.append("/");
    out.append(right.as_str());
    proof {
        assert(out@ =~= spec_readable_elapsed(elapsed as int, total as int));
    }
    out
}

/// One rendered row of the windowed track list: an active-row marker or a
/// plain dash, the one-based position, and the row's text.
pub open spec fn spec_entry_line(active: bool, pos: int, text: Seq<char>) -> Seq<char> {
    (if active {
        "▶️ "@
    } else {
        "- "@
    }) + spec_dec(pos + 1) + ". "@ + text
}

/// The consecutive positions `lo`, `lo + 1`, …, `hi - 1`.
pub open spec fn seq_range(lo: int, hi: int) -> Seq<int> {
    if hi <= lo {
        Seq::empty()
    } else {
        Seq::new((hi - lo) as nat, |i: int| lo + i)
    }
}

/// The positions of the track list that the status display shows, given the
/// active position, the list length and the window half-width `split`.
///
/// A list of at most `2 * split + 1` entries is shown whole.  A longer list
/// shows a window of `split` entries on each side of the active position;
/// at either end of the list the excess of the window shifts to the other
/// side, and the first and last positions are always shown as anchors.
pub open spec fn spec_window(index: int, len: int, split: int) -> Seq<int> {
    if len == 0 {
        Seq::empty()
    } else if len <= 2 * split + 1 {
        seq_range(0, len)
    } else {
        let b1 = if index < split {
            index
        } else {
            split
        };
        let a1 = if index < split {
            split - index + split
        } else {
            split
        };
        let b2 = if index + a1 >= len - 1 {
            a1 - (len - 1 - index) + b1
        } else {
            b1
        };
        let a2 = if index + a1 >= len - 1 {
            len - 1 - index
        } else {
            a1
        };
        let before_part = if index > 0 && b2 > 0 {
            seq![0int] + seq_range(vstd::math::max(index - b2, 1), index)
        } else {
            Seq::empty()
        };
        let after_part = if index < len - 1 && a2 < len - 1 {
            seq_range(index + 1, vstd::math::min(index + a2 + 1, len - 1)) + seq![len - 1]
        } else {
            Seq::empty()
        };
        before_part + seq![index] + after_part
    }
}

/// The rendered rows of the windowed track list: one row per windowed
/// position, the active position marked.
pub open spec fn spec_short_playlist(index: int, data: Seq<Seq<char>>, split: int) -> Seq<
    Seq<char>,
> {
    spec_window(index, data.len() as int, split).map_values(
        |p: int| spec_entry_line(p == index, p, data[p]),
    )
}

/// Renders the windowed track list over pre-rendered row texts.
///
/// Mirrors the display rule of `spec_window`: short lists are shown whole,
/// long ones as a clamped window around the active row with the first and
/// last rows as anchors.
#[verifier::loop_isolation(false)]
#[verifier::rlimit(100)]
pub fn get_short_playlist(index: usize, data: &Vec<String>, split: usize) -> (r: Vec<String>)
    requires
        data@.len() > 0 ==> index < data@.len(),
        2 * split + 1 <= usize::MAX,
        data@.len() + 2 * split <= usize::MAX,
    ensures
        r.deep_view() == spec_short_playlist(index as int, data.deep_view(), split as int),
{
    let ghost gindex = index as int;
    let ghost gdata = data.deep_view();
    let ghost gsplit = split as int;
    let ghost f = |p: int| spec_entry_line(p == gindex, p, gdata[p]);
    let len = data.len();
    proof {
        assert(gdata.len() == len);
    }
    let mut result: Vec<String> = Vec::new();
    let ghost mut done: Seq<int> = Seq::empty();
    if len == 0 {
        proof {
            assert(result.deep_view() =~= spec_short_playlist(gindex, gdata, gsplit));
        }
        return result;
    }
    if len <= 2 * split + 1 {
        let mut i: usize = 0;
        while i < len
            invariant
                i <= len,
                result@.len() == done.len(),
                forall|k: int| 0 <= k < done.len() ==> (#[trigger] result@[k])@ == f(done[k]),
                done =~= seq_range(0, i as int),
            decreases len - i,
        {
            result.push(entry_line(i == index, i, &data[i]));
            proof {
                done = done.push(i as int);
            }
            i = i + 1;
            proof {
                assert(done =~= seq_range(0, i as int));
            }
        }
        proof {
            assert(done =~= spec_window(gindex, len as int, gsplit));
            lemma_rows_match(result, done, f, gindex, gdata, gsplit);
        }
        return result;
    }
    let mut before = split;
    let mut after = split;
    if index < before {
        after = before - index + after;
        before = index;
    }
    if index + after >= len - 1 {
        before = after - (len - 1 - index) + before;
        after = len - 1 - index;
    }
    let ghost before_part = if gindex > 0 && before as int > 0 {
        seq![0int] + seq_range(vstd::math::max(gindex - before as int, 1), gindex)
    } else {
        Seq::<int>::empty()
    };
    let ghost after_part = if gindex < len - 1 && (after as int) < len - 1 {
        seq_range(gindex + 1, vstd::math::min(gindex + after as int + 1, len - 1)) + seq![
            len - 1 as int,
        ]
    } else {
        Seq::<int>::empty()
    };
    proof {
        assert(spec_window(gindex, len as int, gsplit) =~= before_part + seq![gindex]
            + after_part);
    }
    if index > 0 && before > 0 {
        result.push(entry_line(false, 0, &data[0]));
        proof {
            done = done.push(0);
        }
        let start = if index - before > 1 {
            index - before
        } else {
            1
        };
        let mut i = start;
        while i < index
            invariant
                start <= i <= index,
                result@.len() == done.len(),
                forall|k: int| 0 <= k < done.len() ==> (#[trigger] result@[k])@ == f(done[k]),
                done =~= seq![0int] + seq_range(start as int, i as int),
            decreases index - i,
        {
            result.push(entry_line(false, i, &data[i]));
            proof {
                done = done.push(i as int);
            }
            i = i + 1;
            proof {
                assert(done =~= seq![0int] + seq_range(start as int, i as int));
            }
        }
        proof {
            assert(done =~= before_part);
        }
    }
    result.push(entry_line(true, index, &data[index]));
    proof {
        done = done.push(gindex);
        assert(done =~= before_part + seq![gindex]);
    }
    if index < len - 1 && after < len - 1 {
        let stop = if index + after + 1 < len - 1 {
            index + after + 1
        } else {
            len - 1
        };
        let mut i = index + 1;
        while i < stop
            invariant
                index + 1 <= i <= stop,
                result@.len() == done.len(),
                forall|k: int| 0 <= k < done.len() ==> (#[trigger] result@[k])@ == f(done[k]),
                done =~= before_part + seq![gindex] + seq_range(gindex + 1, i as int),
            decreases stop - i,
        {
            result.push(entry_line(false, i, &data[i]));
            proof {
                done = done.push(i as int);
            }
            i = i + 1;
            proof {
                assert(done =~= before_part + seq![gindex] + seq_range(gindex + 1, i as int));
            }
        }
        result.push(entry_line(false, len - 1, &data[len - 1]));
        proof {
            done = done.push(len - 1 as int);
            assert(done =~= before_part + seq![gindex] + after_part);
        }
    }
    proof {
        assert(done =~= spec_window(gindex, len as int, gsplit));
        lemma_rows_match(result, done, f, gindex, gdata, gsplit);
    }
    result
}

/// The rows collected so far, one per position in `done`, are exactly the
/// rendered short playlist once `done` is the full window.
proof fn lemma_rows_match(
    result: Vec<String>,
    done: Seq<int>,
    f: spec_fn(int) -> Seq<char>,
    gindex: int,
    gdata: Seq<Seq<char>>,
    gsplit: int,
)
    requires
        f == (|p: int| spec_entry_line(p == gindex, p, gdata[p])),
        result@.len() == done.len(),
        forall|k: int| 0 <= k < done.len() ==> (#[trigger] result@[k])@ == f(done[k]),
        done == spec_window(gindex, gdata.len() as int, gsplit),
    ensures
        result.deep_view() == spec_short_playlist(gindex, gdata, gsplit),
{
    let w = spec_window(gindex, gdata.len() as int, gsplit);
    assert forall|k: int| 0 <= k < w.len() implies result.deep_view()[k] == w.map_values(
        |p: int| spec_entry_line(p == gindex, p, gdata[p]),
    )[k] by {
        assert(result.deep_view()[k] == result@[k]@);
        assert(result@[k]@ == f(done[k]));
    }
    assert(result.deep_view() =~= spec_short_playlist(gindex, gdata, gsplit));
}


/// The total of the track durations at positions `lo` (inclusive) to `hi`
/// (exclusive), in seconds.
pub open spec fn spec_sum_durations(tracks: Seq<TrackView>, lo: int, hi: int) -> int
    decreases hi - lo,
{
    if lo >= hi {
        0
    } else {
        tracks[lo].duration_secs + spec_sum_durations(tracks, lo + 1, hi)
    }
}

/// A duration total is never negative.
pub proof fn lemma_sum_nonneg(tracks: Seq<TrackView>, lo: int, hi: int)
    ensures
        spec_sum_durations(tracks, lo, hi) >= 0,
    decreases hi - lo,
{
    if lo < hi {
        lemma_sum_nonneg(tracks, lo + 1, hi);
    }
}

/// A duration total splits at any midpoint.
pub proof fn lemma_sum_split(tracks: Seq<TrackView>, lo: int, mid: int, hi: int)
    requires
        lo <= mid <= hi,
    ensures
        spec_sum_durations(tracks, lo, hi) == spec_sum_durations(tracks, lo, mid)
            + spec_sum_durations(tracks, mid, hi),
    decreases mid - lo,
{
    if lo < mid {
        lemma_sum_split(tracks, lo + 1, mid, hi);
    }
}

/// Sums the durations of the tracks at positions `lo` to `hi` (exclusive).
#[verifier::loop_isolation(false)]
fn sum_durations(tracks: &Vec<TrackMetadata>, lo: usize, hi: usize) -> (s: u64)
    requires
        lo <= hi,
        hi <= tracks@.len(),
        spec_sum_durations(tracks.deep_view(), lo as int, hi as int) <= u64::MAX,
    ensures
        s as int == spec_sum_durations(tracks.deep_view(), lo as int, hi as int),
{
    let ghost gtracks = tracks.deep_view();
    let mut acc: u64 = 0;
    let mut i = lo;
    while i < hi
        invariant
            lo <= i <= hi,
            acc as int == spec_sum_durations(gtracks, lo as int, i as int),
        decreases hi - i,
    {
        proof {
            lemma_sum_split(gtracks, lo as int, i as int, hi as int);
            lemma_sum_split(gtracks, i as int, i + 1, hi as int);
            lemma_sum_nonneg(gtracks, i + 1, hi as int);
            assert(spec_sum_durations(gtracks, i as int, i + 1) == gtracks[i as int].duration_secs);
        }
        acc = acc + tracks[i].duration_secs;
        i = i + 1;
        proof {
            lemma_sum_split(gtracks, lo as int, i - 1, i as int);
        }
    }
    acc
}

/// Whether the durations of all queued tracks fit a 64-bit second count
/// when added up; rendering the status display relies on this.
#[verifier::loop_isolation(false)]
pub fn durations_fit(q: &Queue) -> (b: bool)
    ensures
        b == (spec_sum_durations(q@.tracks, 0, q@.tracks.len() as int) <= u64::MAX),
{
    let ghost gtracks = q@.tracks;
    let len = q.queue.len();
    proof {
        assert(gtracks.len() == len);
    }
    let mut acc: u64 = 0;
    let mut i: usize = 0;
    while i < len
        invariant
            0 <= i <= len,
            acc as int == spec_sum_durations(gtracks, 0, i as int),
        decreases len - i,
    {
        let d = q.queue[i].duration_secs;
        proof {
            lemma_sum_split(gtracks, 0, i as int, len as int);
            lemma_sum_split(gtracks, i as int, i + 1, len as int);
            lemma_sum_nonneg(gtracks, i + 1, len as int);
            assert(spec_sum_durations(gtracks, i as int, i + 1) == gtracks[i as int].duration_secs);
        }
        if d > u64::MAX - acc {
            return false;
        }
        acc = acc + d;
        i = i + 1;
        proof {
            lemma_sum_split(gtracks, 0, i - 1, i as int);
        }
    }
    true
}

/// The parts joined by the separator.
pub open spec fn spec_join(parts: Seq<Seq<char>>, sep: Seq<char>) -> Seq<char>
    decreases parts.len(),
{
    if parts.len() == 0 {
        Seq::empty()
    } else if parts.len() == 1 {
        parts[0]
    } else {
        parts[0] + sep + spec_join(parts.drop_first(), sep)
    }
}

/// Joining one more part appends a separator and the part.
pub proof fn lemma_join_push(parts: Seq<Seq<char>>, sep: Seq<char>, x: Seq<char>)
    ensures
        spec_join(parts.push(x), sep) == if parts.len() == 0 {
            x
        } else {
            spec_join(parts, sep) + sep + x
        },
    decreases parts.len(),
{
    if parts.len() == 0 {
        assert(parts.push(x) =~= seq![x]);
        assert(spec_join(parts.push(x), sep) =~= x);
    } else {
        assert(parts.push(x).drop_first() =~= parts.drop_first().push(x));
        lemma_join_push(parts.drop_first(), sep, x);
        assert(spec_join(parts.push(x), sep) =~= spec_join(parts, sep) + sep + x);
    }
}

/// Joins the given strings with the separator.
#[verifier::loop_isolation(false)]
pub fn join_strings(parts: &Vec<String>, sep: &str) -> (s: String)
    ensures
        s@ == spec_join(parts.deep_view(), sep@),
{
    let ghost gparts = parts.deep_view();
    let mut s = String::new();
    let mut i: usize = 0;
    while i < parts.len()
        invariant
            0 <= i <= gparts.len(),
            s@ == spec_join(gparts.take(i as int), sep@),
        decreases gparts.len() - i,
    {
        if i > 0 {
            s.append(sep);
        }
        s.append(parts[i].as_str());
        proof {
            lemma_join_push(gparts.take(i as int), sep@, gparts[i as int]);
            assert(gparts.take(i as int).push(gparts[i as int]) =~= gparts.take(i + 1));
        }
        i = i + 1;
    }
    proof {
        assert(gparts.take(gparts.len() as int) =~= gparts);
    }
    s
}

/// One row's text for a track: title, readable duration in parentheses, and
/// artist.
pub open spec fn spec_track_line(t: TrackView) -> Seq<char> {
    t.title + " ("@ + spec_readable_duration(t.duration_secs as int) + ") - "@ + t.artist
}

/// Builds one row's text for a track.
fn track_line(t: &TrackMetadata) -> (s: String)
    ensures
        s@ == spec_track_line(t@),
{
    let mut s = String::new();
    s.append(t.title.as_str());
    s.append(" (");
    let d = readable_duration(t.duration_secs);
    s.append(d.as_str());
    s.append(") - ");
    s.append(t.artist.as_str());
    proof {
        assert(s@ =~= spec_track_line(t@));
    }
    s
}

/// The bold header of the status display: the active track's row text.
pub open spec fn spec_status_title(v: QueueView) -> Seq<char> {
    "**"@ + spec_track_line(v.tracks[v.playing_index]) + "**"@
}

/// The body of the status display: the windowed track list, one row per
/// line.
pub open spec fn spec_status_description(v: QueueView) -> Seq<char> {
    spec_join(
        spec_short_playlist(
            v.playing_index,
            v.tracks.map_values(|t: TrackView| spec_track_line(t)),
            2,
        ),
        "\n"@,
    )
}

/// The footer of the status display: position, track count, elapsed over
/// total time, and the time still to play.
pub open spec fn spec_status_footer(v: QueueView) -> Seq<char> {
    spec_dec(v.playing_index + 1) + " of "@ + spec_dec(v.tracks.len() as int) + " tracks - "@
        + spec_readable_elapsed(
        spec_sum_durations(v.tracks, 0, v.playing_index),
        spec_sum_durations(v.tracks, 0, v.tracks.len() as int),
    ) + " ("@ + spec_readable_duration(
        spec_sum_durations(v.tracks, v.playing_index, v.tracks.len() as int),
    ) + " left)"@
}

/// The display payload of one room's status message: the rendered texts and
/// the visual state of the control row.  The surrounding process wraps it in
/// the chat platform's message format; nothing here depends on that format.
#[derive(Debug, Clone)]
pub struct StatusPayload {
    pub title: String,
    pub description: String,
    pub url: String,
    pub thumbnail: String,
    pub footer: String,
    pub pause_emoji: String,
    pub pause_style: u8,
    pub loop_style: u8,
}

/// Renders a room's state into the status display payload.
///
/// Pure and deterministic: the payload is a function of the queue state
/// alone, so re-rendering on a redundant event is safe.
#[verifier::loop_isolation(false)]
pub fn to_embed(q: &Queue) -> (r: StatusPayload)
    requires
        q.wf(),
        q@.tracks.len() > 0,
        q@.tracks[q@.playing_index].source_url is Some,
        spec_sum_durations(q@.tracks, 0, q@.tracks.len() as int) <= u64::MAX,
        q@.tracks.len() + 4 <= usize::MAX,
    ensures
        r.title@ == spec_status_title(q@),
        r.description@ == spec_status_description(q@),
        r.url@ == q@.tracks[q@.playing_index].source_url->0,
        r.thumbnail@ == q@.tracks[q@.playing_index].thumbnail,
        r.footer@ == spec_status_footer(q@),
        r.pause_emoji@ == if q@.pause {
            "▶️"@
        } else {
            "⏸️"@
        },
        r.pause_style == if q@.pause {
            3u8
        } else {
            1u8
        },
        r.loop_style == if q@.repeat {
            3u8
        } else {
            2u8
        },
{
    let ghost v = q@;
    let len = q.queue.len();
    proof {
        assert(v.tracks.len() == len);
    }
    let idx = q.playing_index;

    let mut title = String::from_str("**");
    let current_line = track_line(&q.queue[idx]);
    title.append(current_line.as_str());
    title.append("**");
    proof {
        assert(title@ =~= spec_status_title(v));
    }

    let url = match &q.queue[idx].source_url {
        Some(u) => u.clone(),
        None => {
            proof {
                assert(false);
            }
            String::new()
        },
    };
    let thumbnail = q.queue[idx].thumbnail.clone();

    proof {
        lemma_sum_nonneg(v.tracks, 0, idx as int);
        lemma_sum_nonneg(v.tracks, idx as int, len as int);
        lemma_sum_split(v.tracks, 0, idx as int, len as int);
    }
    let elapsed = sum_durations(&q.queue, 0, idx);
    let total = sum_durations(&q.queue, 0, len);
    let to_play = sum_durations(&q.queue, idx, len);

    let mut footer = String::new();
    push_dec((idx as u64) + 1, &mut footer);
    footer.append(" of ");
    push_dec(len as u64, &mut footer);
    footer.append(" tracks - ");
    let eot = readable_elapsed(elapsed, total);
    footer.append(eot.as_str());
    footer.append(" (");
    let left = readable_duration(to_play);
    footer.append(left.as_str());
    footer.append(" left)");
    proof {
        assert(footer@ =~= spec_status_footer(v));
    }

    let mut short_queue: Vec<String> = Vec::new();
    let mut i: usize = 0;
    while i < len
        invariant
            0 <= i <= len,
            short_queue@.len() == i,
            forall|k: int| 0 <= k < i ==> (#[trigger] short_queue@[k])@ == spec_track_line(
                v.tracks[k],
            ),
        decreases len - i,
    {
        short_queue.push(track_line(&q.queue[i]));
        i = i + 1;
    }
    proof {
        assert(short_queue.deep_view() =~= v.tracks.map_values(|t: TrackView| spec_track_line(t)));
    }
    let rows = get_short_playlist(idx, &short_queue, 2);
    let description = join_strings(&rows, "\n");

    let (pause_emoji, pause_style): (&'static str, u8) = if q.pause {
        ("▶️", 3)
    } else {
        ("⏸️", 1)
    };
    let loop_style: u8 = if q.repeat {
        3
    } else {
        2
    };

    StatusPayload {
        title,
        description,
        url,
        thumbnail,
        footer,
        pause_emoji: String::from_str(pause_emoji),
        pause_style,
        loop_style,
    }
}

/// Builds one rendered row of the windowed track list.
fn entry_line(active: bool, pos: usize, text: &String) -> (s: String)
    requires
        pos < usize::MAX,
    ensures
        s@ == spec_entry_line(active, pos as int, text@),
{
    let mut s = String::new();
    if active {
        s.append("▶️ ");
    } else {
        s.append("- ");
    }
    push_dec((pos + 1) as u64, &mut s);
    s.append(". ");
    s.append(text.as_str());
    proof {
        assert(s@ =~= spec_entry_line(active, pos as int, text@));
    }
    s
}

} // verus!
