//! What a finished song plays: the notes of its tracks, where and as they were.

use super::assembly::{
    a_block_is_placed_with_its_body, block_body, distinct_processors, drafted,
    equal_arpeggiators_share_a_graph, finished, flat_song, flat_songs_hold_together,
    flat_with_master, holds_together, most_patterns, most_patterns_of, structured_song,
    structured_songs_hold_together, with_automation, with_block, with_blocks, with_graph,
    with_master, with_material, with_whole_track, BlockView, MaterialView, SongView,
};
use super::canonical::{
    automation_stays_in_its_pattern, canonical_placements_play_the_same, kept_patterns,
    moved_placement, stand_ins,
};
use super::{body, canonical, canonical_notes, PatternPlacement, PatternView, SongNote};
use super::super::emission::ArpeggiatorView;
use vstd::prelude::*;

verus! {

/// Whether two notes sound the same from the same tick on.
pub open spec fn sounds_as(a: SongNote, b: SongNote) -> bool {
    &&& a.start == b.start
    &&& a.duration == b.duration
    &&& a.pitch == b.pitch
    &&& a.velocity == b.velocity
    &&& a.vibrato == b.vibrato
    &&& a.glide == b.glide
    &&& a.legato == b.legato
}

/// Whether a list of notes begins with others, note by note.
pub open spec fn opens_with(long: Seq<SongNote>, short: Seq<SongNote>) -> bool {
    &&& short.len() <= long.len()
    &&& forall|i: int| 0 <= i < short.len() ==> sounds_as(#[trigger] long[i], short[i])
}

spec fn goes_on(a: PatternView, b: PatternView) -> bool {
    &&& b.notes == a.notes
    &&& b.processors == a.processors
    &&& b.note_graph == a.note_graph
    &&& a.automation.len() <= b.automation.len()
    &&& forall|l: int|
        0 <= l < a.automation.len() ==> #[trigger] b.automation[l] == a.automation[l]
}

spec fn grows(s: SongView, r: SongView) -> bool {
    &&& s.patterns.len() <= r.patterns.len()
    &&& forall|i: int|
        0 <= i < s.patterns.len() ==> goes_on(s.patterns[i], #[trigger] r.patterns[i])
    &&& s.arrangement.len() <= r.arrangement.len()
    &&& forall|j: int|
        0 <= j < s.arrangement.len() ==> #[trigger] r.arrangement[j] == s.arrangement[j]
    &&& s.tracks.len() <= r.tracks.len()
    &&& forall|t: int| 0 <= t < s.tracks.len() ==> #[trigger] r.tracks[t] == s.tracks[t]
}

spec fn without_graphs(s: SongView) -> bool {
    forall|i: int| 0 <= i < s.patterns.len() ==> (#[trigger] s.patterns[i]).note_graph is None
}

proof fn growth_chains(a: SongView, b: SongView, c: SongView)
    requires
        grows(a, b),
        grows(b, c),
    ensures
        grows(a, c),
{
    assert forall|i: int| 0 <= i < a.patterns.len() implies goes_on(
        a.patterns[i],
        #[trigger] c.patterns[i],
    ) by {
        let p = a.patterns[i];
        let q = b.patterns[i];
        assert(goes_on(p, q) && goes_on(q, c.patterns[i]));
        assert forall|l: int| 0 <= l < p.automation.len() implies #[trigger] c.patterns[i].automation[l]
            == p.automation[l] by {
            assert(q.automation[l] == p.automation[l]);
        }
    }
    assert forall|j: int| 0 <= j < a.arrangement.len() implies #[trigger] c.arrangement[j]
        == a.arrangement[j] by {
        assert(b.arrangement[j] == a.arrangement[j]);
    }
    assert forall|t: int| 0 <= t < a.tracks.len() implies #[trigger] c.tracks[t] == a.tracks[t] by {
        assert(b.tracks[t] == a.tracks[t]);
    }
}

spec fn block_stands(
    s: SongView,
    j: int,
    t: int,
    processors: Seq<ArpeggiatorView>,
    block: BlockView,
) -> bool {
    let p = s.arrangement[j];
    &&& 0 <= j < s.arrangement.len()
    &&& p.track_id == t
    &&& p.start == block.start
    &&& p.transpose == block.applied
    &&& p.gain == block.gain
    &&& p.length_override == Some(block.span)
    &&& p.pattern_id < s.patterns.len()
    &&& canonical_notes(s.patterns[p.pattern_id as int].notes) == canonical_notes(block.notes)
    &&& s.patterns[p.pattern_id as int].processors == processors
}

spec fn whole_stands(s: SongView, j: int, t: int, m: MaterialView) -> bool {
    let p = s.arrangement[j];
    &&& 0 <= j < s.arrangement.len()
    &&& p == (PatternPlacement {
        pattern_id: p.pattern_id,
        track_id: t as u32,
        start: 0,
        transpose: 0,
        gain: 0x3F80_0000,
        length_override: None,
    })
    &&& p.pattern_id < s.patterns.len()
    &&& s.patterns[p.pattern_id as int].notes == m.notes
    &&& s.patterns[p.pattern_id as int].processors == m.processors
}

spec fn lanes_stand(s: SongView, j: int, t: int, lanes: Seq<usize>) -> bool {
    let p = s.arrangement[j];
    let held = s.patterns[p.pattern_id as int].automation;
    &&& 0 <= j < s.arrangement.len()
    &&& p.track_id == t
    &&& p.start == 0
    &&& p.length_override is None
    &&& p.pattern_id < s.patterns.len()
    &&& lanes.len() <= held.len()
    &&& forall|l: int| 0 <= l < lanes.len() ==> #[trigger] held[l] == lanes[l]
}

proof fn standing_stays(s: SongView, r: SongView, j: int)
    requires
        grows(s, r),
        0 <= j < s.arrangement.len(),
        s.arrangement[j].pattern_id < s.patterns.len(),
    ensures
        r.arrangement[j] == s.arrangement[j],
        goes_on(
            s.patterns[s.arrangement[j].pattern_id as int],
            r.patterns[s.arrangement[j].pattern_id as int],
        ),
        forall|t: int, processors: Seq<ArpeggiatorView>, block: BlockView|
            #[trigger] block_stands(s, j, t, processors, block) ==> block_stands(
                r,
                j,
                t,
                processors,
                block,
            ),
        forall|t: int, m: MaterialView| #[trigger] whole_stands(s, j, t, m) ==> whole_stands(r, j, t, m),
        forall|t: int, lanes: Seq<usize>| #[trigger] lanes_stand(s, j, t, lanes) ==> lanes_stand(r, j, t, lanes),
{
    let i = s.arrangement[j].pattern_id as int;
    assert(goes_on(s.patterns[i], r.patterns[i]));
    assert forall|t: int, lanes: Seq<usize>| #[trigger] lanes_stand(s, j, t, lanes) implies lanes_stand(
        r,
        j,
        t,
        lanes,
    ) by {
        let held = r.patterns[i].automation;
        assert forall|l: int| 0 <= l < lanes.len() implies #[trigger] held[l] == lanes[l] by {
            assert(s.patterns[i].automation[l] == lanes[l]);
        }
    }
}

proof fn block_is_added(
    s: SongView,
    track_id: u32,
    base_name: Seq<char>,
    processors: Seq<ArpeggiatorView>,
    block: BlockView,
    tracks: int,
)
    requires
        holds_together(s, tracks),
        without_graphs(s),
        track_id < tracks,
        s.patterns.len() < u32::MAX,
        s.patterns.len() < usize::MAX,
    ensures
        ({
            let r = with_block(s, track_id, base_name, processors, block);
            &&& grows(s, r)
            &&& holds_together(r, tracks)
            &&& without_graphs(r)
            &&& r.patterns.len() <= s.patterns.len() + 1
            &&& r.arrangement.len() == s.arrangement.len() + 1
            &&& r.tracks == s.tracks
            &&& block_stands(r, s.arrangement.len() as int, track_id as int, processors, block)
        }),
{
    a_block_is_placed_with_its_body(s, track_id, base_name, processors, block, tracks);
    super::assembly::block_holds(s, track_id, base_name, processors, block, tracks);
    let r = with_block(s, track_id, base_name, processors, block);
    let j = s.arrangement.len() as int;
    assert(r.arrangement.last() == r.arrangement[j]);
    assert(block_body(processors, block).notes == body(
        r.patterns[r.arrangement[j].pattern_id as int],
    ).notes);
    assert(r.arrangement[j].pattern_id < r.patterns.len());
}

proof fn blocks_are_added(
    s: SongView,
    track_id: u32,
    base_name: Seq<char>,
    processors: Seq<ArpeggiatorView>,
    blocks: Seq<BlockView>,
    k: int,
    tracks: int,
)
    requires
        holds_together(s, tracks),
        without_graphs(s),
        track_id < tracks,
        0 <= k <= blocks.len(),
        s.patterns.len() + k <= u32::MAX,
        s.patterns.len() + k <= usize::MAX,
    ensures
        ({
            let r = with_blocks(s, track_id, base_name, processors, blocks, k);
            &&& grows(s, r)
            &&& holds_together(r, tracks)
            &&& without_graphs(r)
            &&& r.patterns.len() <= s.patterns.len() + k
            &&& r.arrangement.len() == s.arrangement.len() + k
            &&& r.tracks == s.tracks
            &&& forall|b: int|
                0 <= b < k ==> block_stands(
                    r,
                    s.arrangement.len() + b,
                    track_id as int,
                    processors,
                    #[trigger] blocks[b],
                )
        }),
    decreases k,
{
    if k > 0 {
        blocks_are_added(s, track_id, base_name, processors, blocks, k - 1, tracks);
        let q = with_blocks(s, track_id, base_name, processors, blocks, k - 1);
        let r = with_blocks(s, track_id, base_name, processors, blocks, k);
        block_is_added(q, track_id, base_name, processors, blocks[k - 1], tracks);
        growth_chains(s, q, r);
        assert forall|b: int| 0 <= b < k implies block_stands(
            r,
            s.arrangement.len() + b,
            track_id as int,
            processors,
            #[trigger] blocks[b],
        ) by {
            if b < k - 1 {
                assert(block_stands(
                    q,
                    s.arrangement.len() + b,
                    track_id as int,
                    processors,
                    blocks[b],
                ));
                standing_stays(q, r, s.arrangement.len() + b);
            }
        }
    }
}

spec fn material_stands(s: SongView, j: int, t: int, m: MaterialView) -> bool {
    match m.blocks {
        Some(blocks) => forall|b: int|
            0 <= b < blocks.len() ==> block_stands(s, j + b, t, m.processors, #[trigger] blocks[b]),
        None => whole_stands(s, j, t, m),
    }
}

/// How many placements the notes of a track take: one for each of its blocks, or one.
pub open spec fn note_placements(m: MaterialView) -> nat {
    match m.blocks {
        Some(blocks) => blocks.len(),
        None => 1,
    }
}

proof fn track_is_added(s: SongView, m: MaterialView, length: u32)
    requires
        holds_together(s, s.tracks.len() as int),
        without_graphs(s),
        s.tracks.len() < u32::MAX,
        s.patterns.len() + most_patterns_of(m) <= u32::MAX,
        s.patterns.len() + most_patterns_of(m) <= usize::MAX,
    ensures
        ({
            let r = with_material(s, m, length);
            let t = s.tracks.len() as int;
            let j = s.arrangement.len() as int;
            &&& grows(s, r)
            &&& holds_together(r, t + 1)
            &&& without_graphs(r)
            &&& r.patterns.len() <= s.patterns.len() + most_patterns_of(m)
            &&& r.tracks.len() == t + 1
            &&& r.tracks[t].id == t
            &&& r.tracks[t].name == m.name
            &&& r.tracks[t].instrument == m.instrument
            &&& material_stands(r, j, t, m)
            &&& m.lanes.len() == 0 ==> r.arrangement.len() == j + note_placements(m)
            &&& m.lanes.len() > 0 ==> r.arrangement.len() == j + note_placements(m) + 1
                && lanes_stand(r, j + note_placements(m), t, m.lanes)
        }),
{
    let track_id = s.tracks.len() as u32;
    let t = s.tracks.len() as int;
    let j = s.arrangement.len() as int;
    assert(holds_together(s, t + 1));
    let noted = match m.blocks {
        Some(blocks) => with_blocks(
            s,
            track_id,
            m.base_name,
            m.processors,
            blocks,
            blocks.len() as int,
        ),
        None => with_whole_track(s, track_id, m, length, Seq::empty()),
    };
    if m.blocks is Some {
        let blocks = m.blocks->0;
        blocks_are_added(
            s,
            track_id,
            m.base_name,
            m.processors,
            blocks,
            blocks.len() as int,
            t + 1,
        );
    } else {
        assert(whole_stands(noted, j, t, m));
    }
    assert(grows(s, noted) && holds_together(noted, t + 1) && without_graphs(noted));
    assert(noted.arrangement.len() == j + note_placements(m));
    assert(material_stands(noted, j, t, m));
    let led = with_automation(noted, track_id, m, length);
    assert(grows(noted, led));
    let r = with_material(s, m, length);
    assert(grows(led, r));
    growth_chains(s, noted, led);
    growth_chains(s, led, r);
    growth_chains(noted, led, r);
    match m.blocks {
        Some(blocks) => {
            assert forall|b: int| 0 <= b < blocks.len() implies block_stands(
                r,
                j + b,
                t,
                m.processors,
                #[trigger] blocks[b],
            ) by {
                assert(block_stands(noted, j + b, t, m.processors, blocks[b]));
                standing_stays(noted, r, j + b);
            }
        },
        None => {
            standing_stays(noted, r, j);
        },
    }
    if m.lanes.len() > 0 {
        assert(lanes_stand(led, j + note_placements(m), t, m.lanes));
    }
}

proof fn structured_grows(m: Seq<MaterialView>, length: u32, k: int, n: int)
    requires
        0 <= k <= n <= m.len(),
        most_patterns(m, n) < u32::MAX,
        most_patterns(m, n) < usize::MAX,
        m.len() < u32::MAX,
    ensures
        grows(structured_song(m, length, k), structured_song(m, length, n)),
        holds_together(structured_song(m, length, n), n),
        without_graphs(structured_song(m, length, n)),
        structured_song(m, length, n).tracks.len() == n,
        structured_song(m, length, n).patterns.len() <= most_patterns(m, n),
    decreases n,
{
    if n > 0 {
        let q = structured_song(m, length, n - 1);
        if k < n {
            structured_grows(m, length, k, n - 1);
            track_is_added(q, m[n - 1], length);
            growth_chains(structured_song(m, length, k), q, structured_song(m, length, n));
        } else {
            structured_grows(m, length, n - 1, n - 1);
            track_is_added(q, m[n - 1], length);
        }
    }
}

proof fn flat_grows(m: Seq<MaterialView>, length: u32, k: int, n: int)
    requires
        0 <= k <= n <= m.len(),
        m.len() < u32::MAX,
        m.len() < usize::MAX,
    ensures
        grows(flat_song(m, length, k), flat_song(m, length, n)),
        without_graphs(flat_song(m, length, n)),
        flat_song(m, length, n).tracks.len() == n,
        flat_song(m, length, n).patterns.len() == n,
        flat_song(m, length, n).arrangement.len() == n,
        k < n ==> ({
            let s = flat_song(m, length, n);
            &&& whole_stands(s, k, k, m[k])
            &&& lanes_stand(s, k, k, m[k].lanes)
            &&& s.tracks[k].id == k
            &&& s.tracks[k].name == m[k].name
            &&& s.tracks[k].instrument == m[k].instrument
        }),
    decreases n,
{
    if n > 0 {
        let q = flat_song(m, length, n - 1);
        let r = flat_song(m, length, n);
        if k < n {
            flat_grows(m, length, k, n - 1);
            assert(grows(q, r));
            growth_chains(flat_song(m, length, k), q, r);
            if k < n - 1 {
                standing_stays(q, r, k);
            }
        } else {
            flat_grows(m, length, n - 1, n - 1);
        }
    }
}

spec fn in_order(m: Seq<MaterialView>) -> bool {
    &&& m.len() < u32::MAX
    &&& m.len() < usize::MAX
    &&& most_patterns(m, m.len() as int) < u32::MAX
    &&& most_patterns(m, m.len() as int) < usize::MAX
}

proof fn most_patterns_ascend(m: Seq<MaterialView>, k: int, n: int)
    requires
        0 <= k <= n <= m.len(),
    ensures
        most_patterns(m, k) <= most_patterns(m, n),
    decreases n,
{
    if k < n {
        most_patterns_ascend(m, k, n - 1);
    }
}

proof fn track_is_drafted(
    m: Seq<MaterialView>,
    length: u32,
    lane: Option<usize>,
    t: int,
) -> (j: int)
    requires
        in_order(m),
        0 <= t < m.len(),
    ensures
        ({
            let s = drafted(m, true, length, lane);
            &&& material_stands(s, j, t, m[t])
            &&& m[t].lanes.len() > 0 ==> lanes_stand(s, j + note_placements(m[t]), t, m[t].lanes)
            &&& t < s.tracks.len()
            &&& s.tracks[t].id == t
            &&& s.tracks[t].name == m[t].name
            &&& s.tracks[t].instrument == m[t].instrument
        }),
{
    let n = m.len() as int;
    most_patterns_ascend(m, t + 1, n);
    most_patterns_ascend(m, t, n);
    structured_grows(m, length, t, t);
    structured_grows(m, length, t + 1, n);
    structured_songs_hold_together(m, length, n, lane);
    let q = structured_song(m, length, t);
    let x = structured_song(m, length, t + 1);
    let r = structured_song(m, length, n);
    let s = with_master(r, lane, length);
    let j = q.arrangement.len() as int;
    track_is_added(q, m[t], length);
    assert(x == with_material(q, m[t], length));
    assert(grows(r, s));
    growth_chains(x, r, s);
    match m[t].blocks {
        Some(blocks) => {
            assert forall|b: int| 0 <= b < blocks.len() implies block_stands(
                s,
                j + b,
                t,
                m[t].processors,
                #[trigger] blocks[b],
            ) by {
                assert(block_stands(x, j + b, t, m[t].processors, blocks[b]));
                standing_stays(x, s, j + b);
            }
        },
        None => {
            standing_stays(x, s, j);
        },
    }
    if m[t].lanes.len() > 0 {
        standing_stays(x, s, j + note_placements(m[t]));
    }
    assert(s.tracks[t] == x.tracks[t]);
    j
}

proof fn equal_bodies_sound_alike(long: Seq<SongNote>, short: Seq<SongNote>)
    requires
        super::begins_with(long, short),
    ensures
        opens_with(long, short),
{
    assert forall|i: int| 0 <= i < short.len() implies sounds_as(#[trigger] long[i], short[i]) by {
        assert(canonical_notes(long).take(short.len() as int)[i] == canonical_notes(short)[i]);
        assert(canonical(long[i]) == canonical(short[i]));
    }
}

proof fn kept_have_no_graphs(patterns: Seq<PatternView>, remap: Seq<Option<usize>>, n: int)
    requires
        0 <= n <= patterns.len(),
        forall|i: int| 0 <= i < patterns.len() ==> (#[trigger] patterns[i]).note_graph is None,
    ensures
        forall|i: int|
            0 <= i < kept_patterns(patterns, remap, n).len() ==> (#[trigger] kept_patterns(
                patterns,
                remap,
                n,
            )[i]).note_graph is None,
    decreases n,
{
    if n > 0 {
        kept_have_no_graphs(patterns, remap, n - 1);
    }
}

proof fn placement_is_finished(
    name: Seq<char>,
    author: Seq<char>,
    s: SongView,
    j: int,
    notes: Seq<SongNote>,
    processors: Seq<ArpeggiatorView>,
)
    requires
        holds_together(s, s.tracks.len() as int),
        without_graphs(s),
        s.patterns.len() <= u32::MAX,
        s.patterns.len() <= usize::MAX,
        0 <= j < s.arrangement.len(),
        canonical_notes(s.patterns[s.arrangement[j].pattern_id as int].notes) == canonical_notes(
            notes,
        ),
        s.patterns[s.arrangement[j].pattern_id as int].processors == processors,
    ensures
        ({
            let f = finished(name, author, s);
            let p = f.arrangement[j];
            let pattern = f.patterns[p.pattern_id as int];
            &&& j < f.arrangement.len()
            &&& p == (PatternPlacement { pattern_id: p.pattern_id, ..s.arrangement[j] })
            &&& p.pattern_id < f.patterns.len()
            &&& opens_with(pattern.notes, notes)
            &&& pattern.notes.len() > notes.len() ==> p.length_override is Some
                && p.length_override->0 <= pattern.notes[notes.len() as int].start
            &&& processors.len() == 0 ==> pattern.note_graph is None
            &&& processors.len() == 1 ==> pattern.note_graph is Some && pattern.note_graph->0
                < f.note_graphs.len() && f.note_graphs[pattern.note_graph->0 as int].processor
                == processors[0]
        }),
{
    canonical_placements_play_the_same(s.patterns, s.arrangement, j);
    let remap = stand_ins(s.patterns, s.arrangement);
    let kept = kept_patterns(s.patterns, remap, s.patterns.len() as int);
    super::canonical::kept_count(s.patterns, remap, s.patterns.len() as int);
    let list = distinct_processors(kept, kept.len() as int);
    let f = finished(name, author, s);
    let before = s.patterns[s.arrangement[j].pattern_id as int];
    let i = f.arrangement[j].pattern_id as int;
    kept_have_no_graphs(s.patterns, remap, s.patterns.len() as int);
    assert(f.patterns[i] == with_graph(list, kept[i]));
    assert(canonical_notes(before.notes).len() == canonical_notes(notes).len());
    assert(before.notes.len() == notes.len());
    equal_bodies_sound_alike(kept[i].notes, notes);
    if processors.len() == 1 {
        equal_arpeggiators_share_a_graph(kept, i, i);
    }
    assert(kept[i].note_graph is None);
}

proof fn drafts_hold_together(
    m: Seq<MaterialView>,
    structured: bool,
    length: u32,
    lane: Option<usize>,
)
    requires
        in_order(m),
    ensures
        ({
            let s = drafted(m, structured, length, lane);
            &&& holds_together(s, s.tracks.len() as int)
            &&& without_graphs(s)
            &&& s.tracks.len() == m.len()
            &&& s.patterns.len() <= most_patterns(m, m.len() as int) + 1
        }),
{
    let n = m.len() as int;
    if structured {
        structured_songs_hold_together(m, length, n, lane);
        structured_grows(m, length, n, n);
    } else {
        flat_songs_hold_together(m, length, n, lane);
        flat_grows(m, length, n, n);
        each_track_may_need_patterns(m, n);
    }
}

proof fn each_track_may_need_patterns(m: Seq<MaterialView>, n: int)
    requires
        0 <= n <= m.len(),
    ensures
        n <= most_patterns(m, n),
    decreases n,
{
    if n > 0 {
        each_track_may_need_patterns(m, n - 1);
    }
}

/// Every block of a track is played: at its tick, for its span and with its gain, and
/// every note of it with the pitch that it has together with the block's transposition.
/// What else its pattern holds starts behind the block, and its arpeggiator is the
/// track's.
pub proof fn every_block_is_played(
    name: Seq<char>,
    author: Seq<char>,
    m: Seq<MaterialView>,
    length: u32,
    lane: Option<usize>,
    t: int,
    b: int,
) -> (j: int)
    requires
        m.len() < u32::MAX,
        m.len() < usize::MAX,
        most_patterns(m, m.len() as int) < u32::MAX,
        most_patterns(m, m.len() as int) < usize::MAX,
        0 <= t < m.len(),
        m[t].blocks is Some,
        0 <= b < m[t].blocks->0.len(),
    ensures
        ({
            let f = finished(name, author, drafted(m, true, length, lane));
            let block = m[t].blocks->0[b];
            let p = f.arrangement[j];
            let pattern = f.patterns[p.pattern_id as int];
            &&& 0 <= j < f.arrangement.len()
            &&& p.track_id == t
            &&& p.start == block.start
            &&& p.length_override == Some(block.span)
            &&& p.gain == block.gain
            &&& p.pattern_id < f.patterns.len()
            &&& block.notes.len() <= pattern.notes.len()
            &&& forall|i: int|
                #![trigger pattern.notes[i]]
                #![trigger block.notes[i]]
                0 <= i < block.notes.len() ==> {
                    &&& pattern.notes[i].pitch + p.transpose == block.notes[i].pitch + block.applied
                    &&& pattern.notes[i].start + p.start == block.notes[i].start + block.start
                    &&& pattern.notes[i].duration == block.notes[i].duration
                    &&& pattern.notes[i].velocity == block.notes[i].velocity
                    &&& pattern.notes[i].vibrato == block.notes[i].vibrato
                    &&& pattern.notes[i].glide == block.notes[i].glide
                    &&& pattern.notes[i].legato == block.notes[i].legato
                }
            &&& pattern.notes.len() > block.notes.len() ==> pattern.notes[block.notes.len() as int].start
                >= block.span
            &&& m[t].processors.len() == 0 ==> pattern.note_graph is None
            &&& m[t].processors.len() == 1 ==> pattern.note_graph is Some
                && pattern.note_graph->0 < f.note_graphs.len()
                && f.note_graphs[pattern.note_graph->0 as int].processor == m[t].processors[0]
        }),
{
    let j = track_is_drafted(m, length, lane, t) + b;
    let s = drafted(m, true, length, lane);
    let block = m[t].blocks->0[b];
    assert(block_stands(s, j, t, m[t].processors, block));
    drafts_hold_together(m, true, length, lane);
    placement_is_finished(name, author, s, j, block.notes, m[t].processors);
    let f = finished(name, author, s);
    let p = f.arrangement[j];
    let pattern = f.patterns[p.pattern_id as int];
    assert forall|i: int| 0 <= i < block.notes.len() implies sounds_as(
        #[trigger] pattern.notes[i],
        block.notes[i],
    ) && sounds_as(pattern.notes[i], #[trigger] block.notes[i]) by {}
    j
}

/// The notes of a track without blocks are played as they are, once, from the beginning
/// of the song on; so are those of every track of a song without structure.
pub proof fn every_whole_track_is_played(
    name: Seq<char>,
    author: Seq<char>,
    m: Seq<MaterialView>,
    structured: bool,
    length: u32,
    lane: Option<usize>,
    t: int,
) -> (j: int)
    requires
        m.len() < u32::MAX,
        m.len() < usize::MAX,
        most_patterns(m, m.len() as int) < u32::MAX,
        most_patterns(m, m.len() as int) < usize::MAX,
        0 <= t < m.len(),
        !structured || m[t].blocks is None,
    ensures
        ({
            let f = finished(name, author, drafted(m, structured, length, lane));
            let p = f.arrangement[j];
            let pattern = f.patterns[p.pattern_id as int];
            &&& 0 <= j < f.arrangement.len()
            &&& p.track_id == t
            &&& p.start == 0
            &&& p.transpose == 0
            &&& p.gain == 0x3F80_0000
            &&& p.length_override is None
            &&& p.pattern_id < f.patterns.len()
            &&& pattern.notes.len() == m[t].notes.len()
            &&& forall|i: int|
                0 <= i < m[t].notes.len() ==> sounds_as(#[trigger] pattern.notes[i], m[t].notes[i])
            &&& m[t].processors.len() == 0 ==> pattern.note_graph is None
            &&& m[t].processors.len() == 1 ==> pattern.note_graph is Some
                && pattern.note_graph->0 < f.note_graphs.len()
                && f.note_graphs[pattern.note_graph->0 as int].processor == m[t].processors[0]
        }),
{
    let s = drafted(m, structured, length, lane);
    let j = if structured {
        track_is_drafted(m, length, lane, t)
    } else {
        flat_is_drafted(m, length, lane, t);
        t
    };
    assert(whole_stands(s, j, t, m[t]));
    drafts_hold_together(m, structured, length, lane);
    placement_is_finished(name, author, s, j, m[t].notes, m[t].processors);
    j
}

proof fn flat_is_drafted(m: Seq<MaterialView>, length: u32, lane: Option<usize>, t: int)
    requires
        in_order(m),
        0 <= t < m.len(),
    ensures
        ({
            let s = drafted(m, false, length, lane);
            &&& whole_stands(s, t, t, m[t])
            &&& lanes_stand(s, t, t, m[t].lanes)
            &&& t < s.tracks.len()
            &&& s.tracks[t].id == t
            &&& s.tracks[t].name == m[t].name
            &&& s.tracks[t].instrument == m[t].instrument
        }),
{
    let n = m.len() as int;
    flat_grows(m, length, t, n);
    let r = flat_song(m, length, n);
    let s = flat_with_master(r, lane);
    assert(grows(r, s));
    standing_stays(r, s, t);
}

/// Every lane of a track is played on it from the beginning of the song on.
pub proof fn every_lane_is_played(
    name: Seq<char>,
    author: Seq<char>,
    m: Seq<MaterialView>,
    structured: bool,
    length: u32,
    lane: Option<usize>,
    t: int,
    l: int,
) -> (j: int)
    requires
        m.len() < u32::MAX,
        m.len() < usize::MAX,
        most_patterns(m, m.len() as int) < u32::MAX,
        most_patterns(m, m.len() as int) < usize::MAX,
        0 <= t < m.len(),
        0 <= l < m[t].lanes.len(),
    ensures
        ({
            let f = finished(name, author, drafted(m, structured, length, lane));
            let p = f.arrangement[j];
            let pattern = f.patterns[p.pattern_id as int];
            &&& 0 <= j < f.arrangement.len()
            &&& p.track_id == t
            &&& p.start == 0
            &&& p.length_override is None
            &&& p.pattern_id < f.patterns.len()
            &&& pattern.automation.contains(m[t].lanes[l])
        }),
{
    let s = drafted(m, structured, length, lane);
    let j = if structured {
        track_is_drafted(m, length, lane, t) + note_placements(m[t])
    } else {
        flat_is_drafted(m, length, lane, t);
        t
    };
    assert(lanes_stand(s, j, t, m[t].lanes));
    drafts_hold_together(m, structured, length, lane);
    let i = s.arrangement[j].pattern_id as int;
    automation_stays_in_its_pattern(s.patterns, s.arrangement, j);
    let f = finished(name, author, s);
    let p = f.arrangement[j];
    let remap = stand_ins(s.patterns, s.arrangement);
    let kept = kept_patterns(s.patterns, remap, s.patterns.len() as int);
    assert(p == moved_placement(s.patterns, remap, s.arrangement[j]));
    assert(f.patterns[p.pattern_id as int].automation == s.patterns[i].automation);
    assert(s.patterns[i].automation[l] == m[t].lanes[l]);
    assert(f.patterns[p.pattern_id as int].automation[l] == m[t].lanes[l]);
    j
}

/// The lane for the volume of all tracks is played in every song that has a track.
pub proof fn the_master_lane_is_played(
    name: Seq<char>,
    author: Seq<char>,
    m: Seq<MaterialView>,
    structured: bool,
    length: u32,
    lane: usize,
) -> (i: int)
    requires
        m.len() < u32::MAX,
        m.len() < usize::MAX,
        most_patterns(m, m.len() as int) < u32::MAX,
        most_patterns(m, m.len() as int) < usize::MAX,
        m.len() > 0,
    ensures
        ({
            let f = finished(name, author, drafted(m, structured, length, Some(lane)));
            &&& 0 <= i < f.patterns.len()
            &&& f.patterns[i].automation.contains(lane)
        }),
{
    let n = m.len() as int;
    let s = drafted(m, structured, length, Some(lane));
    drafts_hold_together(m, structured, length, Some(lane));
    let host = if structured {
        structured_songs_hold_together(m, length, n, Some(lane));
        let r = structured_song(m, length, n);
        match r.host {
            Some(h) => {
                let held = s.patterns[h as int].automation;
                assert(held[held.len() - 1] == lane);
                h as int
            },
            None => {
                let h = r.patterns.len() as int;
                assert(s.patterns[h].automation[0] == lane);
                h
            },
        }
    } else {
        flat_grows(m, length, n, n);
        let held = s.patterns[0].automation;
        assert(held[held.len() - 1] == lane);
        0int
    };
    let held = s.patterns[host].automation;
    assert(held.contains(lane));
    super::canonical::patterns_with_automation_are_kept(s.patterns, s.arrangement, host)
}

/// A finished song has the tracks that it was made of, in their order, with their names
/// and instruments.
pub proof fn every_track_is_kept(
    name: Seq<char>,
    author: Seq<char>,
    m: Seq<MaterialView>,
    structured: bool,
    length: u32,
    lane: Option<usize>,
    t: int,
)
    requires
        m.len() < u32::MAX,
        m.len() < usize::MAX,
        most_patterns(m, m.len() as int) < u32::MAX,
        most_patterns(m, m.len() as int) < usize::MAX,
        0 <= t < m.len(),
    ensures
        ({
            let f = finished(name, author, drafted(m, structured, length, lane));
            &&& f.tracks.len() == m.len()
            &&& f.tracks[t].id == t
            &&& f.tracks[t].name == m[t].name
            &&& f.tracks[t].instrument == m[t].instrument
        }),
{
    drafts_hold_together(m, structured, length, lane);
    if structured {
        let _ = track_is_drafted(m, length, lane, t);
    } else {
        flat_is_drafted(m, length, lane, t);
    }
}

/// How many placements the first `k` tracks take: one for each block or for the track as
/// a whole, and one more for its automation if that stands apart.
pub open spec fn placements_needed(m: Seq<MaterialView>, structured: bool, k: int) -> nat
    decreases k,
{
    if k <= 0 {
        0
    } else if structured {
        placements_needed(m, structured, k - 1) + note_placements(m[k - 1]) + (
        if m[k - 1].lanes.len() > 0 {
            1nat
        } else {
            0
        })
    } else {
        k as nat
    }
}

proof fn placements_are_counted(m: Seq<MaterialView>, length: u32, k: int)
    requires
        0 <= k <= m.len(),
        in_order(m),
    ensures
        structured_song(m, length, k).arrangement.len() == placements_needed(m, true, k),
    decreases k,
{
    if k > 0 {
        most_patterns_ascend(m, k, m.len() as int);
        most_patterns_ascend(m, k - 1, m.len() as int);
        placements_are_counted(m, length, k - 1);
        structured_grows(m, length, k - 1, k - 1);
        track_is_added(structured_song(m, length, k - 1), m[k - 1], length);
    }
}

/// Nothing else is played: a song without a lane of its own has just the placements that
/// its tracks need.
pub proof fn nothing_else_is_played(
    name: Seq<char>,
    author: Seq<char>,
    m: Seq<MaterialView>,
    structured: bool,
    length: u32,
)
    requires
        m.len() < u32::MAX,
        m.len() < usize::MAX,
        most_patterns(m, m.len() as int) < u32::MAX,
        most_patterns(m, m.len() as int) < usize::MAX,
    ensures
        finished(name, author, drafted(m, structured, length, None)).arrangement.len()
            == placements_needed(m, structured, m.len() as int),
{
    if structured {
        placements_are_counted(m, length, m.len() as int);
    } else {
        flat_grows(m, length, m.len() as int, m.len() as int);
    }
}

} // verus!
