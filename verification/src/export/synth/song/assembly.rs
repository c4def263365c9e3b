//! Putting a song together from the material of its tracks.

use super::{
    body, canonical_notes, copy_arpeggiator, pattern_views, processor_views, same_arpeggiator,
    same_body, track_color, track_views, voice_color, BodyView, Pattern, PatternPlacement,
    PatternView, SongNote, Track, TrackView,
};
use super::super::emission::{Arpeggiator, ArpeggiatorView, ONE_BITS};
use super::super::naming::{
    block_name, clean, clean_text, joined, number_text, pattern_name, push_number,
};
use super::super::timbre::copy_items;
use super::canonical::{
    canonical_placements_play_the_same, canonicalize_truncated_patterns, kept_are_numbered,
    kept_patterns, moved_placement, numbered_by_place, stand_ins,
};
use crate::chars::{from_chars, to_chars};
use crate::numerals::push_text;
use vstd::prelude::*;

verus! {

/// A block of notes that a driver placed, with the gain of its placement.
#[derive(Debug)]
pub struct Block {
    pub notes: Vec<SongNote>,
    pub pattern_number: u32,
    pub applied: i32,
    pub start: u32,
    pub span: u32,
    pub gain: u32,
}

/// A block as plain values.
pub struct BlockView {
    pub notes: Seq<SongNote>,
    pub pattern_number: u32,
    pub applied: i32,
    pub start: u32,
    pub span: u32,
    pub gain: u32,
}

impl Block {
    /// The block as plain values.
    pub open spec fn view(self) -> BlockView {
        BlockView {
            notes: self.notes@,
            pattern_number: self.pattern_number,
            applied: self.applied,
            start: self.start,
            span: self.span,
            gain: self.gain,
        }
    }
}

/// Blocks as plain values.
pub open spec fn blocks_view(blocks: Seq<Block>) -> Seq<BlockView> {
    Seq::new(blocks.len(), |i: int| blocks[i].view())
}

/// What a track is made of: its notes, the blocks that they fall into where the
/// driver's structure is known, and its automation.
#[derive(Debug)]
pub struct TrackMaterial {
    pub name: String,
    pub base_name: String,
    pub instrument: u32,
    pub voice_index: usize,
    pub processor: Option<Arpeggiator>,
    pub notes: Vec<SongNote>,
    pub blocks: Option<Vec<Block>>,
    /// The places of the track's lanes in the list of all lanes.
    pub lanes: Vec<usize>,
}

/// Track material as plain values.
pub struct MaterialView {
    pub name: Seq<char>,
    pub base_name: Seq<char>,
    pub instrument: u32,
    pub voice_index: usize,
    pub processors: Seq<ArpeggiatorView>,
    pub notes: Seq<SongNote>,
    pub blocks: Option<Seq<BlockView>>,
    pub lanes: Seq<usize>,
}

/// An optional arpeggiator as a list.
pub open spec fn processor_list(p: Option<Arpeggiator>) -> Seq<ArpeggiatorView> {
    match p {
        Some(a) => seq![a.view()],
        None => Seq::empty(),
    }
}

impl TrackMaterial {
    /// The material as plain values.
    pub open spec fn view(self) -> MaterialView {
        MaterialView {
            name: self.name@,
            base_name: self.base_name@,
            instrument: self.instrument,
            voice_index: self.voice_index,
            processors: processor_list(self.processor),
            notes: self.notes@,
            blocks: match self.blocks {
                Some(b) => Some(blocks_view(b@)),
                None => None,
            },
            lanes: self.lanes@,
        }
    }
}

/// Track materials as plain values.
pub open spec fn material_views(m: Seq<TrackMaterial>) -> Seq<MaterialView> {
    Seq::new(m.len(), |i: int| m[i].view())
}

/// A song that is being put together.
#[derive(Debug)]
pub struct SongDraft {
    pub patterns: Vec<Pattern>,
    /// The places of the patterns that blocks became.
    pub blocks: Vec<usize>,
    pub arrangement: Vec<PatternPlacement>,
    pub tracks: Vec<Track>,
    /// The place of the first pattern that holds nothing but automation.
    pub host: Option<usize>,
}

/// A song that is being put together, as plain values.
#[verifier::ext_equal]
pub struct SongView {
    pub patterns: Seq<PatternView>,
    pub blocks: Seq<usize>,
    pub arrangement: Seq<PatternPlacement>,
    pub tracks: Seq<TrackView>,
    pub host: Option<usize>,
}

impl SongDraft {
    /// The song as plain values.
    pub open spec fn view(self) -> SongView {
        SongView {
            patterns: pattern_views(self.patterns@),
            blocks: self.blocks@,
            arrangement: self.arrangement@,
            tracks: track_views(self.tracks@),
            host: self.host,
        }
    }

    /// Whether the places that the song names exist.
    pub open spec fn wf(self) -> bool {
        &&& forall|i: int| 0 <= i < self.blocks@.len() ==> #[trigger] self.blocks@[i]
            < self.patterns@.len()
        &&& self.host matches Some(h) ==> h < self.patterns@.len()
    }
}

/// A song without anything in it.
pub open spec fn empty_song() -> SongView {
    SongView {
        patterns: Seq::empty(),
        blocks: Seq::empty(),
        arrangement: Seq::empty(),
        tracks: Seq::empty(),
        host: None,
    }
}

/// A song with another pattern.
pub open spec fn with_pattern(s: SongView, p: PatternView) -> SongView {
    SongView { patterns: s.patterns.push(p), ..s }
}

/// A song with another placement.
pub open spec fn with_placement(s: SongView, p: PatternPlacement) -> SongView {
    SongView { arrangement: s.arrangement.push(p), ..s }
}

/// The placement of a pattern over the whole song.
pub open spec fn whole_placement(pattern_id: u32, track_id: u32) -> PatternPlacement {
    PatternPlacement {
        pattern_id,
        track_id,
        start: 0,
        transpose: 0,
        gain: ONE_BITS,
        length_override: None,
    }
}

/// The pattern that already plays a body, among the first `n` that blocks became.
pub open spec fn pattern_of_body(s: SongView, b: BodyView, n: int) -> Option<usize>
    decreases n,
{
    if n <= 0 {
        None
    } else {
        match pattern_of_body(s, b, n - 1) {
            Some(p) => Some(p),
            None => if body(s.patterns[s.blocks[n - 1] as int]) == b {
                Some(s.blocks[n - 1])
            } else {
                None
            },
        }
    }
}

/// The body of a block.
pub open spec fn block_body(processors: Seq<ArpeggiatorView>, block: BlockView) -> BodyView {
    BodyView { notes: canonical_notes(block.notes), processors }
}

/// The pattern that a block becomes.
pub open spec fn block_pattern(
    id: u32,
    base_name: Seq<char>,
    processors: Seq<ArpeggiatorView>,
    block: BlockView,
) -> PatternView {
    PatternView {
        id,
        name: block_name(base_name, block.pattern_number, block.applied, id),
        length: block.span,
        notes: block.notes,
        automation: Seq::empty(),
        next_note_id: block.notes.len() as u32,
        processors,
        note_graph: None,
    }
}

/// The placement of a block.
pub open spec fn block_placement(pattern_id: u32, track_id: u32, block: BlockView) -> PatternPlacement {
    PatternPlacement {
        pattern_id,
        track_id,
        start: block.start,
        transpose: block.applied,
        gain: block.gain,
        length_override: Some(block.span),
    }
}

/// A song with another block: it shares the pattern of a block that plays the
/// same.
pub open spec fn with_block(
    s: SongView,
    track_id: u32,
    base_name: Seq<char>,
    processors: Seq<ArpeggiatorView>,
    block: BlockView,
) -> SongView {
    match pattern_of_body(s, block_body(processors, block), s.blocks.len() as int) {
        Some(p) => with_placement(s, block_placement(p as u32, track_id, block)),
        None => {
            let id = s.patterns.len() as u32;
            let added = with_pattern(s, block_pattern(id, base_name, processors, block));
            with_placement(
                SongView { blocks: s.blocks.push(s.patterns.len() as usize), ..added },
                block_placement(id, track_id, block),
            )
        },
    }
}

/// A song with the first `k` blocks of a track.
pub open spec fn with_blocks(
    s: SongView,
    track_id: u32,
    base_name: Seq<char>,
    processors: Seq<ArpeggiatorView>,
    blocks: Seq<BlockView>,
    k: int,
) -> SongView
    decreases k,
{
    if k <= 0 {
        s
    } else {
        with_block(
            with_blocks(s, track_id, base_name, processors, blocks, k - 1),
            track_id,
            base_name,
            processors,
            blocks[k - 1],
        )
    }
}

/// A song with a pattern for all notes of a track.
pub open spec fn with_whole_track(
    s: SongView,
    track_id: u32,
    m: MaterialView,
    length: u32,
    lanes: Seq<usize>,
) -> SongView {
    let id = s.patterns.len() as u32;
    with_placement(
        with_pattern(
            s,
            PatternView {
                id,
                name: m.name,
                length,
                notes: m.notes,
                automation: lanes,
                next_note_id: m.notes.len() as u32,
                processors: m.processors,
                note_graph: None,
            },
        ),
        whole_placement(id, track_id),
    )
}

/// A song with a pattern that holds nothing but automation.
pub open spec fn with_lanes(
    s: SongView,
    track_id: u32,
    name: Seq<char>,
    lanes: Seq<usize>,
    length: u32,
) -> SongView {
    let id = s.patterns.len() as u32;
    with_placement(
        with_pattern(
            s,
            PatternView {
                id,
                name,
                length,
                notes: Seq::empty(),
                automation: lanes,
                next_note_id: 0,
                processors: Seq::empty(),
                note_graph: None,
            },
        ),
        whole_placement(id, track_id),
    )
}

/// A song with the automation of a track; the first such pattern becomes the
/// host of what belongs to no track.
pub open spec fn with_automation(s: SongView, track_id: u32, m: MaterialView, length: u32) -> SongView {
    if m.lanes.len() > 0 {
        SongView {
            host: match s.host {
                Some(h) => Some(h),
                None => Some(s.patterns.len() as usize),
            },
            ..with_lanes(s, track_id, m.name + " auto"@, m.lanes, length)
        }
    } else {
        s
    }
}

/// A song with the track of some material.
pub open spec fn with_track(s: SongView, m: MaterialView) -> SongView {
    SongView {
        tracks: s.tracks.push(
            TrackView {
                id: s.tracks.len() as u32,
                name: m.name,
                instrument: m.instrument,
                color: voice_color(m.voice_index as int),
            },
        ),
        ..s
    }
}

/// A song with the material of another track, in blocks where they are known.
pub open spec fn with_material(s: SongView, m: MaterialView, length: u32) -> SongView {
    let track_id = s.tracks.len() as u32;
    let noted = match m.blocks {
        Some(blocks) => with_blocks(
            s,
            track_id,
            m.base_name,
            m.processors,
            blocks,
            blocks.len() as int,
        ),
        None => with_whole_track(s, track_id, m, length, Seq::empty()),
    };
    with_track(with_automation(noted, track_id, m, length), m)
}

/// A song of the first `k` tracks, in blocks where they are known.
pub open spec fn structured_song(m: Seq<MaterialView>, length: u32, k: int) -> SongView
    decreases k,
{
    if k <= 0 {
        empty_song()
    } else {
        with_material(structured_song(m, length, k - 1), m[k - 1], length)
    }
}

/// A song with a lane for the volume of all tracks: on the host, or else on a
/// pattern of its own, if there is a track to place it on.
pub open spec fn with_master(s: SongView, lane: Option<usize>, length: u32) -> SongView {
    match lane {
        Some(l) => match s.host {
            Some(h) => SongView {
                patterns: s.patterns.update(
                    h as int,
                    PatternView {
                        automation: s.patterns[h as int].automation.push(l),
                        ..s.patterns[h as int]
                    },
                ),
                ..s
            },
            None => if s.tracks.len() > 0 {
                with_lanes(s, 0, "Master volume"@, seq![l], length)
            } else {
                s
            },
        },
        None => s,
    }
}

/// A song of the first `k` tracks, with one pattern for each.
pub open spec fn flat_song(m: Seq<MaterialView>, length: u32, k: int) -> SongView
    decreases k,
{
    if k <= 0 {
        empty_song()
    } else {
        let s = flat_song(m, length, k - 1);
        with_track(
            with_whole_track(s, s.tracks.len() as u32, m[k - 1], length, m[k - 1].lanes),
            m[k - 1],
        )
    }
}

/// A flat song with a lane for the volume of all tracks, on its first pattern.
pub open spec fn flat_with_master(s: SongView, lane: Option<usize>) -> SongView {
    match lane {
        Some(l) => if s.patterns.len() > 0 {
            SongView {
                patterns: s.patterns.update(
                    0,
                    PatternView {
                        automation: s.patterns[0].automation.push(l),
                        ..s.patterns[0]
                    },
                ),
                ..s
            }
        } else {
            s
        },
        None => s,
    }
}

fn copy_text(s: &str) -> (r: String)
    ensures
        r@ == s@,
{
    from_chars(to_chars(s).as_slice())
}

fn list_processor(p: &Option<Arpeggiator>) -> (r: Vec<Arpeggiator>)
    ensures
        processor_views(r@) == processor_list(*p),
{
    let mut out: Vec<Arpeggiator> = Vec::new();
    if let Some(a) = p {
        out.push(copy_arpeggiator(a));
    }
    assert(processor_views(out@) =~= processor_list(*p));
    out
}

fn copy_processors(p: &[Arpeggiator]) -> (r: Vec<Arpeggiator>)
    ensures
        processor_views(r@) == processor_views(p@),
{
    let mut out: Vec<Arpeggiator> = Vec::new();
    let mut i: usize = 0;
    while i < p.len()
        invariant
            i <= p@.len(),
            out@.len() == i,
            forall|j: int| 0 <= j < i ==> (#[trigger] out@[j]).view() == p@[j].view(),
        decreases p@.len() - i,
    {
        out.push(copy_arpeggiator(&p[i]));
        i += 1;
    }
    assert(processor_views(out@) =~= processor_views(p@));
    out
}

fn push_pattern(d: &mut SongDraft, p: Pattern)
    requires
        old(d).wf(),
    ensures
        final(d).wf(),
        final(d).view() == with_pattern(old(d).view(), p.view()),
        final(d).patterns@.len() == old(d).patterns@.len() + 1,
{
    let ghost before = d.view();
    let ghost added = p.view();
    d.patterns.push(p);
    assert(d.view() =~= with_pattern(before, added));
}

fn push_placement(d: &mut SongDraft, p: PatternPlacement)
    requires
        old(d).wf(),
    ensures
        final(d).wf(),
        final(d).view() == with_placement(old(d).view(), p),
        final(d).patterns@.len() == old(d).patterns@.len(),
{
    let ghost before = d.view();
    d.arrangement.push(p);
    assert(d.view() =~= with_placement(before, p));
}

fn find_block(d: &SongDraft, notes: &[SongNote], processors: &[Arpeggiator]) -> (r: Option<usize>)
    requires
        d.wf(),
    ensures
        r == pattern_of_body(
            d.view(),
            (BodyView {
                notes: canonical_notes(notes@),
                processors: processor_views(processors@),
            }),
            d.blocks@.len() as int,
        ),
{
    let ghost b = BodyView {
        notes: canonical_notes(notes@),
        processors: processor_views(processors@),
    };
    let mut found: Option<usize> = None;
    let mut n: usize = 0;
    while n < d.blocks.len()
        invariant
            n <= d.blocks@.len(),
            d.wf(),
            b == (BodyView {
                notes: canonical_notes(notes@),
                processors: processor_views(processors@),
            }),
            found == pattern_of_body(d.view(), b, n as int),
        decreases d.blocks@.len() - n,
    {
        if found.is_none() {
            let at: usize = d.blocks[n];
            assert(at < d.patterns@.len());
            let p: &Pattern = &d.patterns[at];
            assert(d.view().patterns[at as int] == p.view());
            if same_body(
                p.notes.as_slice(),
                p.processors.as_slice(),
                notes,
                processors,
            ) {
                found = Some(at);
            }
        }
        n += 1;
    }
    found
}

fn add_block(
    d: &mut SongDraft,
    track_id: u32,
    base_name: &str,
    processors: &[Arpeggiator],
    block: &Block,
)
    requires
        old(d).wf(),
    ensures
        final(d).wf(),
        final(d).view() == with_block(
            old(d).view(),
            track_id,
            base_name@,
            processor_views(processors@),
            block.view(),
        ),
        final(d).patterns@.len() <= old(d).patterns@.len() + 1,
{
    let ghost before = d.view();
    let found: Option<usize> = find_block(d, block.notes.as_slice(), processors);
    let pattern_id: u32 = match found {
        Some(p) => p as u32,
        None => {
            let at: usize = d.patterns.len();
            let id: u32 = at as u32;
            let p: Pattern = Pattern {
                id,
                name: pattern_name(base_name, block.pattern_number, block.applied, id),
                length: block.span,
                notes: copy_items(block.notes.as_slice()),
                automation: Vec::new(),
                next_note_id: block.notes.len() as u32,
                processors: copy_processors(processors),
                note_graph: None,
            };
            assert(p.view() == block_pattern(
                id,
                base_name@,
                processor_views(processors@),
                block.view(),
            ));
            push_pattern(d, p);
            let ghost middle = d.view();
            d.blocks.push(at);
            assert(d.view() =~= (SongView { blocks: before.blocks.push(at), ..middle }));
            id
        },
    };
    push_placement(
        d,
        PatternPlacement {
            pattern_id,
            track_id,
            start: block.start,
            transpose: block.applied,
            gain: block.gain,
            length_override: Some(block.span),
        },
    );
}

fn add_whole_track(
    d: &mut SongDraft,
    track_id: u32,
    m: &TrackMaterial,
    length: u32,
    lanes: &[usize],
)
    requires
        old(d).wf(),
    ensures
        final(d).wf(),
        final(d).view() == with_whole_track(old(d).view(), track_id, m.view(), length, lanes@),
        final(d).patterns@.len() == old(d).patterns@.len() + 1,
{
    let id: u32 = d.patterns.len() as u32;
    let p: Pattern = Pattern {
        id,
        name: copy_text(m.name.as_str()),
        length,
        notes: copy_items(m.notes.as_slice()),
        automation: copy_items(lanes),
        next_note_id: m.notes.len() as u32,
        processors: list_processor(&m.processor),
        note_graph: None,
    };
    push_pattern(d, p);
    push_placement(
        d,
        PatternPlacement {
            pattern_id: id,
            track_id,
            start: 0,
            transpose: 0,
            gain: ONE_BITS,
            length_override: None,
        },
    );
}

fn add_lanes(d: &mut SongDraft, track_id: u32, name: String, lanes: Vec<usize>, length: u32)
    requires
        old(d).wf(),
    ensures
        final(d).wf(),
        final(d).view() == with_lanes(old(d).view(), track_id, name@, lanes@, length),
        final(d).patterns@.len() == old(d).patterns@.len() + 1,
{
    let id: u32 = d.patterns.len() as u32;
    let p: Pattern = Pattern {
        id,
        name,
        length,
        notes: Vec::new(),
        automation: lanes,
        next_note_id: 0,
        processors: Vec::new(),
        note_graph: None,
    };
    assert(p.view().processors =~= Seq::<ArpeggiatorView>::empty());
    push_pattern(d, p);
    push_placement(
        d,
        PatternPlacement {
            pattern_id: id,
            track_id,
            start: 0,
            transpose: 0,
            gain: ONE_BITS,
            length_override: None,
        },
    );
}

fn add_track(d: &mut SongDraft, m: &TrackMaterial)
    requires
        old(d).wf(),
    ensures
        final(d).wf(),
        final(d).view() == with_track(old(d).view(), m.view()),
        final(d).patterns@.len() == old(d).patterns@.len(),
{
    let ghost before = d.view();
    let track: Track = Track {
        id: d.tracks.len() as u32,
        name: copy_text(m.name.as_str()),
        instrument: m.instrument,
        color: track_color(m.voice_index),
    };
    let ghost added = track.view();
    d.tracks.push(track);
    assert(d.view().tracks =~= before.tracks.push(added));
    assert(d.view() =~= with_track(before, m.view()));
}

/// How many patterns a track may need at most.
pub open spec fn most_patterns_of(m: MaterialView) -> nat {
    match m.blocks {
        Some(b) => b.len() + 1,
        None => 2,
    }
}

/// How many patterns the first `k` tracks may need at most.
pub open spec fn most_patterns(m: Seq<MaterialView>, k: int) -> nat
    decreases k,
{
    if k <= 0 {
        0
    } else {
        most_patterns(m, k - 1) + most_patterns_of(m[k - 1])
    }
}

fn add_material(d: &mut SongDraft, m: &TrackMaterial, length: u32)
    requires
        old(d).wf(),
    ensures
        final(d).wf(),
        final(d).view() == with_material(old(d).view(), m.view(), length),
        final(d).patterns@.len() <= old(d).patterns@.len() + most_patterns_of(m.view()),
{
    let ghost before = d.view();
    let ghost v = m.view();
    let track_id: u32 = d.tracks.len() as u32;
    let count: usize = d.patterns.len();
    match &m.blocks {
        Some(blocks) => {
            let processors: Vec<Arpeggiator> = list_processor(&m.processor);
            let ghost views = blocks_view(blocks@);
            let mut k: usize = 0;
            while k < blocks.len()
                invariant
                    k <= blocks@.len(),
                    d.wf(),
                    v == m.view(),
                    views == blocks_view(blocks@),
                    processor_views(processors@) == v.processors,
                    d.view() == with_blocks(
                        before,
                        track_id,
                        v.base_name,
                        v.processors,
                        views,
                        k as int,
                    ),
                    d.patterns@.len() <= count + k,
                decreases blocks@.len() - k,
            {
                assert(views[k as int] == blocks@[k as int].view());
                add_block(d, track_id, m.base_name.as_str(), processors.as_slice(), &blocks[k]);
                k += 1;
            }
            assert(v.blocks == Some(views));
        },
        None => {
            let none: Vec<usize> = Vec::new();
            add_whole_track(d, track_id, m, length, none.as_slice());
        },
    }
    let ghost noted = d.view();
    if m.lanes.len() > 0 {
        let at: usize = d.patterns.len();
        add_lanes(
            d,
            track_id,
            joined(m.name.as_str(), " auto"),
            copy_items(m.lanes.as_slice()),
            length,
        );
        if d.host.is_none() {
            d.host = Some(at);
        }
    }
    assert(d.view() =~= with_automation(noted, track_id, v, length));
    add_track(d, m);
}

fn new_draft() -> (r: SongDraft)
    ensures
        r.wf(),
        r.view() == empty_song(),
        r.patterns@.len() == 0,
{
    let d: SongDraft = SongDraft {
        patterns: Vec::new(),
        blocks: Vec::new(),
        arrangement: Vec::new(),
        tracks: Vec::new(),
        host: None,
    };
    assert(d.view() =~= empty_song());
    d
}

fn push_lane(d: &mut SongDraft, at: usize, lane: usize)
    requires
        old(d).wf(),
        at < old(d).patterns@.len(),
    ensures
        final(d).wf(),
        final(d).patterns@.len() == old(d).patterns@.len(),
        final(d).view() == (SongView {
            patterns: old(d).view().patterns.update(
                at as int,
                PatternView {
                    automation: old(d).view().patterns[at as int].automation.push(lane),
                    ..old(d).view().patterns[at as int]
                },
            ),
            ..old(d).view()
        }),
{
    let ghost before = d.view();
    let mut p: Pattern = d.patterns.remove(at);
    let ghost was = p.view();
    p.automation.push(lane);
    let ghost now = p.view();
    assert(now == (PatternView { automation: was.automation.push(lane), ..was }));
    d.patterns.insert(at, p);
    assert(d.view().patterns =~= before.patterns.update(at as int, now));
}

/// Puts a song together from tracks whose driver structure is known. Blocks that
/// play the same share a pattern, on whatever track they are.
pub fn build_song_structured(
    materials: &[TrackMaterial],
    length: u32,
    master_volume: Option<usize>,
) -> (r: SongDraft)
    ensures
        r.wf(),
        r.view() == with_master(
            structured_song(material_views(materials@), length, materials@.len() as int),
            master_volume,
            length,
        ),
        r.patterns@.len() <= most_patterns(material_views(materials@), materials@.len() as int) + 1,
{
    let ghost views = material_views(materials@);
    let mut d: SongDraft = new_draft();
    let mut k: usize = 0;
    while k < materials.len()
        invariant
            k <= materials@.len(),
            d.wf(),
            views == material_views(materials@),
            d.view() == structured_song(views, length, k as int),
            d.patterns@.len() <= most_patterns(views, k as int),
        decreases materials@.len() - k,
    {
        assert(views[k as int] == materials@[k as int].view());
        add_material(&mut d, &materials[k], length);
        k += 1;
    }
    if let Some(lane) = master_volume {
        match d.host {
            Some(h) => {
                push_lane(&mut d, h, lane);
            },
            None => {
                if d.tracks.len() > 0 {
                    let mut lanes: Vec<usize> = Vec::new();
                    lanes.push(lane);
                    assert(lanes@ =~= seq![lane]);
                    add_lanes(&mut d, 0, copy_text("Master volume"), lanes, length);
                }
            },
        }
    }
    d
}

/// Puts a song together from tracks with one pattern for each.
pub fn build_song(materials: &[TrackMaterial], length: u32, master_volume: Option<usize>) -> (r:
    SongDraft)
    ensures
        r.wf(),
        r.view() == flat_with_master(
            flat_song(material_views(materials@), length, materials@.len() as int),
            master_volume,
        ),
        r.patterns@.len() == materials@.len(),
{
    let ghost views = material_views(materials@);
    let mut d: SongDraft = new_draft();
    let mut k: usize = 0;
    while k < materials.len()
        invariant
            k <= materials@.len(),
            d.wf(),
            views == material_views(materials@),
            d.view() == flat_song(views, length, k as int),
            d.patterns@.len() == k,
        decreases materials@.len() - k,
    {
        assert(views[k as int] == materials@[k as int].view());
        let m: &TrackMaterial = &materials[k];
        let track_id: u32 = d.tracks.len() as u32;
        add_whole_track(&mut d, track_id, m, length, m.lanes.as_slice());
        add_track(&mut d, m);
        k += 1;
    }
    if let Some(lane) = master_volume {
        if d.patterns.len() > 0 {
            push_lane(&mut d, 0, lane);
        }
    }
    d
}

/// Whether a song holds together: patterns are numbered by their places, and
/// placements name patterns that exist and tracks below `tracks`.
pub open spec fn holds_together(s: SongView, tracks: int) -> bool {
    &&& numbered_by_place(s.patterns)
    &&& forall|i: int| 0 <= i < s.blocks.len() ==> #[trigger] s.blocks[i] < s.patterns.len()
    &&& s.host matches Some(h) ==> h < s.patterns.len()
    &&& forall|k: int|
        0 <= k < s.arrangement.len() ==> (#[trigger] s.arrangement[k]).pattern_id < s.patterns.len()
            && s.arrangement[k].track_id < tracks
}

proof fn found_pattern_exists(s: SongView, b: BodyView, n: int)
    requires
        0 <= n <= s.blocks.len(),
    ensures
        pattern_of_body(s, b, n) matches Some(p) ==> s.blocks.contains(p) && body(
            s.patterns[p as int],
        ) == b,
    decreases n,
{
    if n > 0 {
        found_pattern_exists(s, b, n - 1);
        assert(s.blocks.contains(s.blocks[n - 1]));
    }
}

pub(crate) proof fn block_holds(
    s: SongView,
    track_id: u32,
    base_name: Seq<char>,
    processors: Seq<ArpeggiatorView>,
    block: BlockView,
    tracks: int,
)
    requires
        holds_together(s, tracks),
        track_id < tracks,
        s.patterns.len() < u32::MAX,
        s.patterns.len() < usize::MAX,
    ensures
        holds_together(with_block(s, track_id, base_name, processors, block), tracks),
        with_block(s, track_id, base_name, processors, block).patterns.len() <= s.patterns.len()
            + 1,
        with_block(s, track_id, base_name, processors, block).patterns.len() >= s.patterns.len(),
        with_block(s, track_id, base_name, processors, block).tracks == s.tracks,
{
    found_pattern_exists(s, block_body(processors, block), s.blocks.len() as int);
}

proof fn blocks_hold(
    s: SongView,
    track_id: u32,
    base_name: Seq<char>,
    processors: Seq<ArpeggiatorView>,
    blocks: Seq<BlockView>,
    k: int,
    tracks: int,
)
    requires
        holds_together(s, tracks),
        track_id < tracks,
        0 <= k <= blocks.len(),
        s.patterns.len() + k <= u32::MAX,
        s.patterns.len() + k <= usize::MAX,
    ensures
        ({
            let r = with_blocks(s, track_id, base_name, processors, blocks, k);
            &&& holds_together(r, tracks)
            &&& s.patterns.len() <= r.patterns.len() <= s.patterns.len() + k
            &&& r.tracks == s.tracks
        }),
    decreases k,
{
    if k > 0 {
        blocks_hold(s, track_id, base_name, processors, blocks, k - 1, tracks);
        block_holds(
            with_blocks(s, track_id, base_name, processors, blocks, k - 1),
            track_id,
            base_name,
            processors,
            blocks[k - 1],
            tracks,
        );
    }
}

proof fn material_holds(s: SongView, m: MaterialView, length: u32)
    requires
        holds_together(s, s.tracks.len() as int),
        s.tracks.len() < u32::MAX,
        s.patterns.len() + most_patterns_of(m) <= u32::MAX,
        s.patterns.len() + most_patterns_of(m) <= usize::MAX,
    ensures
        ({
            let r = with_material(s, m, length);
            &&& holds_together(r, r.tracks.len() as int)
            &&& r.tracks.len() == s.tracks.len() + 1
            &&& r.patterns.len() <= s.patterns.len() + most_patterns_of(m)
        }),
{
    let track_id = s.tracks.len() as u32;
    let t = s.tracks.len() as int + 1;
    assert(holds_together(s, t));
    if m.blocks is Some {
        let blocks = m.blocks->0;
        blocks_hold(
            s,
            track_id,
            m.base_name,
            m.processors,
            blocks,
            blocks.len() as int,
            t,
        );
    }
}

/// Every song that is put together holds together.
pub proof fn structured_songs_hold_together(
    m: Seq<MaterialView>,
    length: u32,
    k: int,
    lane: Option<usize>,
)
    requires
        0 <= k <= m.len(),
        most_patterns(m, k) < u32::MAX,
        most_patterns(m, k) < usize::MAX,
        m.len() < u32::MAX,
    ensures
        ({
            let s = structured_song(m, length, k);
            let r = with_master(s, lane, length);
            &&& holds_together(s, k)
            &&& s.tracks.len() == k
            &&& s.patterns.len() <= most_patterns(m, k)
            &&& holds_together(r, k)
            &&& r.tracks == s.tracks
        }),
    decreases k,
{
    if k > 0 {
        structured_songs_hold_together(m, length, k - 1, lane);
        material_holds(structured_song(m, length, k - 1), m[k - 1], length);
    }
}

/// Every flat song that is put together holds together.
pub proof fn flat_songs_hold_together(
    m: Seq<MaterialView>,
    length: u32,
    k: int,
    lane: Option<usize>,
)
    requires
        0 <= k <= m.len() < u32::MAX,
        m.len() < usize::MAX,
    ensures
        ({
            let s = flat_song(m, length, k);
            let r = flat_with_master(s, lane);
            &&& holds_together(s, k)
            &&& s.tracks.len() == k
            &&& s.patterns.len() == k
            &&& holds_together(r, k)
            &&& r.tracks == s.tracks
        }),
    decreases k,
{
    if k > 0 {
        flat_songs_hold_together(m, length, k - 1, lane);
    }
}

/// Blocks that play the same share a pattern, and a block never shares one with
/// a block that plays otherwise: the pattern that a block is placed with has its
/// body.
pub proof fn a_block_is_placed_with_its_body(
    s: SongView,
    track_id: u32,
    base_name: Seq<char>,
    processors: Seq<ArpeggiatorView>,
    block: BlockView,
    tracks: int,
)
    requires
        holds_together(s, tracks),
        track_id < tracks,
        s.patterns.len() < u32::MAX,
        s.patterns.len() < usize::MAX,
    ensures
        ({
            let r = with_block(s, track_id, base_name, processors, block);
            &&& body(r.patterns[r.arrangement.last().pattern_id as int]) == block_body(
                processors,
                block,
            )
            &&& (exists|i: int|
                0 <= i < s.blocks.len() && body(s.patterns[#[trigger] s.blocks[i] as int])
                    == block_body(processors, block)) ==> r.patterns == s.patterns
        }),
{
    let b = block_body(processors, block);
    found_pattern_exists(s, b, s.blocks.len() as int);
    if exists|i: int|
        0 <= i < s.blocks.len() && body(s.patterns[#[trigger] s.blocks[i] as int]) == b {
        let i = choose|i: int|
            0 <= i < s.blocks.len() && body(s.patterns[#[trigger] s.blocks[i] as int]) == b;
        known_body_is_found(s, b, s.blocks.len() as int, i);
    }
}

proof fn known_body_is_found(s: SongView, b: BodyView, n: int, i: int)
    requires
        0 <= i < n <= s.blocks.len(),
        body(s.patterns[s.blocks[i] as int]) == b,
    ensures
        pattern_of_body(s, b, n) is Some,
    decreases n,
{
    if i < n - 1 {
        known_body_is_found(s, b, n - 1, i);
    }
}

/// A graph of note processors: one arpeggiator.
#[derive(Debug)]
pub struct NoteGraph {
    pub id: u32,
    pub name: String,
    pub processor: Arpeggiator,
}

/// A graph of note processors as plain values.
pub struct GraphView {
    pub id: u32,
    pub name: Seq<char>,
    pub processor: ArpeggiatorView,
}

impl NoteGraph {
    /// The graph as plain values.
    pub open spec fn view(self) -> GraphView {
        GraphView { id: self.id, name: self.name@, processor: self.processor.view() }
    }
}

/// The arpeggiators of the first `k` patterns that have exactly one, without
/// repetitions.
pub open spec fn distinct_processors(patterns: Seq<PatternView>, k: int) -> Seq<ArpeggiatorView>
    decreases k,
{
    if k <= 0 {
        Seq::empty()
    } else {
        let before = distinct_processors(patterns, k - 1);
        let p = patterns[k - 1].processors;
        if p.len() == 1 && !before.contains(p[0]) {
            before.push(p[0])
        } else {
            before
        }
    }
}

/// The graphs of arpeggiators, numbered by their places.
pub open spec fn graphs_of(processors: Seq<ArpeggiatorView>) -> Seq<GraphView> {
    Seq::new(
        processors.len(),
        |g: int|
            GraphView {
                id: g as u32,
                name: "SID arpeggiator "@ + number_text((g + 1) as nat),
                processor: processors[g],
            },
    )
}

/// The place of an arpeggiator in a list.
pub open spec fn processor_place(list: Seq<ArpeggiatorView>, a: ArpeggiatorView) -> int
    decreases list.len(),
{
    if list.len() == 0 {
        0
    } else if list[0] == a {
        0
    } else {
        1 + processor_place(list.drop_first(), a)
    }
}

/// A pattern whose arpeggiator has become a graph.
pub open spec fn with_graph(list: Seq<ArpeggiatorView>, p: PatternView) -> PatternView {
    if p.processors.len() == 1 {
        PatternView {
            processors: Seq::empty(),
            note_graph: Some(processor_place(list, p.processors[0]) as u32),
            ..p
        }
    } else {
        p
    }
}

proof fn processor_place_is(list: Seq<ArpeggiatorView>, a: ArpeggiatorView, at: int)
    requires
        0 <= at < list.len(),
        list[at] == a,
        forall|i: int| 0 <= i < at ==> #[trigger] list[i] != a,
    ensures
        processor_place(list, a) == at,
    decreases list.len(),
{
    if at > 0 {
        let t = list.drop_first();
        assert(list[0] != a);
        assert forall|i: int| 0 <= i < at - 1 implies #[trigger] t[i] != a by {
            assert(list[i + 1] != a);
        }
        processor_place_is(t, a, at - 1);
    }
}

proof fn distinct_grow(patterns: Seq<PatternView>, k: int, n: int)
    requires
        0 <= k <= n <= patterns.len(),
    ensures
        distinct_processors(patterns, k).len() <= distinct_processors(patterns, n).len(),
        distinct_processors(patterns, n).len() <= n,
        forall|i: int|
            0 <= i < distinct_processors(patterns, k).len() ==> #[trigger] distinct_processors(
                patterns,
                k,
            )[i] == distinct_processors(patterns, n)[i],
    decreases n,
{
    if n > 0 {
        if k < n {
            distinct_grow(patterns, k, n - 1);
        } else {
            distinct_grow(patterns, n - 1, n - 1);
        }
    }
}

/// Patterns with the same arpeggiator share a graph, and no others do: the graph
/// of a pattern holds the arpeggiator that the pattern had.
pub proof fn equal_arpeggiators_share_a_graph(patterns: Seq<PatternView>, i: int, j: int)
    requires
        0 <= i < patterns.len() <= u32::MAX,
        0 <= j < patterns.len(),
        patterns[i].processors.len() == 1,
        patterns[j].processors.len() == 1,
    ensures
        ({
            let list = distinct_processors(patterns, patterns.len() as int);
            let a = with_graph(list, patterns[i]).note_graph;
            let b = with_graph(list, patterns[j]).note_graph;
            &&& a is Some && a->0 < graphs_of(list).len()
            &&& graphs_of(list)[a->0 as int].processor == patterns[i].processors[0]
            &&& (a == b <==> patterns[i].processors[0] == patterns[j].processors[0])
        }),
{
    let n = patterns.len() as int;
    distinct_grow(patterns, 0, n);
    pattern_processor_is_listed(patterns, i, n);
    pattern_processor_is_listed(patterns, j, n);
}

proof fn pattern_processor_is_listed(patterns: Seq<PatternView>, i: int, n: int)
    requires
        0 <= i < n <= patterns.len(),
        patterns[i].processors.len() == 1,
    ensures
        ({
            let list = distinct_processors(patterns, n);
            let at = processor_place(list, patterns[i].processors[0]);
            0 <= at < list.len() && list[at] == patterns[i].processors[0]
        }),
{
    distinct_grow(patterns, i + 1, n);
    let list = distinct_processors(patterns, n);
    let early = distinct_processors(patterns, i + 1);
    let a = patterns[i].processors[0];
    assert(early.contains(a)) by {
        let before = distinct_processors(patterns, i);
        if !before.contains(a) {
            assert(early[early.len() - 1] == a);
        }
    }
    let x = choose|x: int| 0 <= x < early.len() && early[x] == a;
    assert(list[x] == a);
    first_place_of(list, a, x);
}

proof fn first_place_of(list: Seq<ArpeggiatorView>, a: ArpeggiatorView, x: int)
    requires
        0 <= x < list.len(),
        list[x] == a,
    ensures
        0 <= processor_place(list, a) <= x,
        list[processor_place(list, a)] == a,
    decreases list.len(),
{
    if list[0] != a {
        first_place_of(list.drop_first(), a, x - 1);
    }
}

/// Turns the arpeggiators of patterns into graphs that patterns share.
pub fn pool_note_graphs(patterns: &mut Vec<Pattern>) -> (r: Vec<NoteGraph>)
    requires
        old(patterns)@.len() <= u32::MAX,
    ensures
        ({
            let before = pattern_views(old(patterns)@);
            let list = distinct_processors(before, before.len() as int);
            &&& Seq::new(r@.len(), |g: int| r@[g].view()) == graphs_of(list)
            &&& pattern_views(final(patterns)@) == Seq::new(
                before.len(),
                |i: int| with_graph(list, before[i]),
            )
        }),
{
    let ghost before = pattern_views(patterns@);
    let count: usize = patterns.len();
    let ghost list = distinct_processors(before, count as int);
    let mut graphs: Vec<NoteGraph> = Vec::new();
    let mut rest: Vec<Pattern> = Vec::new();
    std::mem::swap(patterns, &mut rest);
    let mut k: usize = 0;
    while k < count
        invariant
            k <= count,
            count == before.len(),
            count <= u32::MAX,
            list == distinct_processors(before, count as int),
            rest@.len() == count - k,
            forall|x: int| 0 <= x < rest@.len() ==> (#[trigger] rest@[x]).view() == before[k + x],
            patterns@.len() == k,
            forall|x: int|
                0 <= x < k ==> (#[trigger] patterns@[x]).view() == with_graph(list, before[x]),
            graphs@.len() == distinct_processors(before, k as int).len(),
            graphs@.len() <= k,
            forall|g: int|
                0 <= g < graphs@.len() ==> (#[trigger] graphs@[g]).view() == graphs_of(
                    distinct_processors(before, k as int),
                )[g],
        decreases count - k,
    {
        let ghost left = rest@;
        let ghost known = distinct_processors(before, k as int);
        let ghost made = graphs@;
        let mut p: Pattern = rest.remove(0);
        proof {
            assert(p.view() == before[k + 0]);
            assert forall|x: int| 0 <= x < rest@.len() implies (#[trigger] rest@[x]).view()
                == before[k + 1 + x] by {
                assert(rest@[x] == left[x + 1]);
            }
            distinct_grow(before, k + 1, count as int);
            distinct_grow(before, k as int, k + 1);
        }
        let ghost was = p.view();
        if p.processors.len() == 1 {
            let ghost a = was.processors[0];
            assert(a == p.processors@[0].view());
            let mut g: usize = 0;
            while g < graphs.len() && !same_arpeggiator(&graphs[g].processor, &p.processors[0])
                invariant
                    g <= graphs@.len(),
                    graphs@ == made,
                    p.processors@.len() == 1,
                    a == p.processors@[0].view(),
                    graphs@.len() == known.len(),
                    forall|h: int|
                        0 <= h < graphs@.len() ==> (#[trigger] graphs@[h]).view() == graphs_of(
                            known,
                        )[h],
                    forall|h: int| 0 <= h < g ==> #[trigger] known[h] != a,
                decreases graphs@.len() - g,
            {
                assert(graphs@[g as int].view() == graphs_of(known)[g as int]);
                assert(known[g as int] != a);
                g += 1;
            }
            if g == graphs.len() {
                assert(!known.contains(a));
                let mut name: Vec<char> = Vec::new();
                push_text(&mut name, "SID arpeggiator ");
                push_number(&mut name, g as u64 + 1);
                assert(name@ =~= "SID arpeggiator "@ + number_text((g + 1) as nat));
                graphs.push(
                    NoteGraph {
                        id: g as u32,
                        name: from_chars(name.as_slice()),
                        processor: copy_arpeggiator(&p.processors[0]),
                    },
                );
                assert(distinct_processors(before, k + 1) == known.push(a));
            } else {
                assert(graphs@[g as int].view() == graphs_of(known)[g as int]);
                assert(known[g as int] == a);
                assert(known.contains(a));
            }
            proof {
                let now = distinct_processors(before, k + 1);
                assert(now[g as int] == a);
                assert forall|h: int| 0 <= h < g implies #[trigger] list[h] != a by {
                    assert(now[h] == known[h]);
                    assert(now[h] == list[h]);
                }
                assert(list[g as int] == now[g as int]);
                processor_place_is(list, a, g as int);
            }
            p.processors = Vec::new();
            p.note_graph = Some(g as u32);
            assert(p.view().processors =~= Seq::<ArpeggiatorView>::empty());
        }
        proof {
            assert(p.view() == with_graph(list, was));
            let now = distinct_processors(before, k + 1);
            assert forall|g: int| 0 <= g < graphs@.len() implies (#[trigger] graphs@[g]).view()
                == graphs_of(now)[g] by {
                if g < made.len() {
                    assert(graphs@[g] == made[g]);
                    assert(known[g] == now[g]);
                }
            }
        }
        patterns.push(p);
        k += 1;
    }
    assert(pattern_views(patterns@) =~= Seq::new(
        before.len(),
        |i: int| with_graph(list, before[i]),
    ));
    assert(Seq::new(graphs@.len(), |g: int| graphs@[g].view()) =~= graphs_of(list));
    graphs
}

/// A finished song.
#[derive(Debug)]
pub struct Song {
    pub name: String,
    pub author: String,
    pub patterns: Vec<Pattern>,
    pub tracks: Vec<Track>,
    pub arrangement: Vec<PatternPlacement>,
    pub note_graphs: Vec<NoteGraph>,
}

/// A finished song as plain values.
pub struct FinishedView {
    pub name: Seq<char>,
    pub author: Seq<char>,
    pub patterns: Seq<PatternView>,
    pub tracks: Seq<TrackView>,
    pub arrangement: Seq<PatternPlacement>,
    pub note_graphs: Seq<GraphView>,
}

impl Song {
    /// The song as plain values.
    pub open spec fn view(self) -> FinishedView {
        FinishedView {
            name: self.name@,
            author: self.author@,
            patterns: pattern_views(self.patterns@),
            tracks: track_views(self.tracks@),
            arrangement: self.arrangement@,
            note_graphs: Seq::new(self.note_graphs@.len(), |g: int| self.note_graphs@[g].view()),
        }
    }
}

/// The song that a draft is finished to: patterns that are the beginning of
/// others are left out, and arpeggiators become graphs.
pub open spec fn finished(name: Seq<char>, author: Seq<char>, s: SongView) -> FinishedView {
    let remap = stand_ins(s.patterns, s.arrangement);
    let kept = kept_patterns(s.patterns, remap, s.patterns.len() as int);
    let list = distinct_processors(kept, kept.len() as int);
    FinishedView {
        name: clean_text(name, "SID export"@),
        author: clean_text(author, "sid-analyzer"@),
        patterns: Seq::new(kept.len(), |i: int| with_graph(list, kept[i])),
        tracks: s.tracks,
        arrangement: Seq::new(
            s.arrangement.len(),
            |k: int| moved_placement(s.patterns, remap, s.arrangement[k]),
        ),
        note_graphs: graphs_of(list),
    }
}

/// Finishes a song.
pub fn assemble_song(name: &str, author: &str, draft: SongDraft) -> (r: Song)
    requires
        draft.patterns@.len() <= u32::MAX,
        numbered_by_place(draft.view().patterns),
    ensures
        r.view() == finished(name@, author@, draft.view()),
{
    let ghost s = draft.view();
    let mut patterns: Vec<Pattern> = draft.patterns;
    let mut arrangement: Vec<PatternPlacement> = draft.arrangement;
    canonicalize_truncated_patterns(&mut patterns, &mut arrangement);
    proof {
        super::canonical::kept_count(
            s.patterns,
            stand_ins(s.patterns, s.arrangement),
            s.patterns.len() as int,
        );
        assert(pattern_views(patterns@).len() == patterns@.len());
    }
    let note_graphs: Vec<NoteGraph> = pool_note_graphs(&mut patterns);
    Song {
        name: clean(name, "SID export"),
        author: clean(author, "sid-analyzer"),
        patterns,
        tracks: draft.tracks,
        arrangement,
        note_graphs,
    }
}

/// The draft of a song: in blocks where the driver's structure is known, or else
/// with one pattern for each track.
pub open spec fn drafted(
    m: Seq<MaterialView>,
    structured: bool,
    length: u32,
    lane: Option<usize>,
) -> SongView {
    if structured {
        with_master(structured_song(m, length, m.len() as int), lane, length)
    } else {
        flat_with_master(flat_song(m, length, m.len() as int), lane)
    }
}

/// Puts a song together and finishes it.
pub fn compose_song(
    name: &str,
    author: &str,
    materials: &[TrackMaterial],
    structured: bool,
    length: u32,
    master_volume: Option<usize>,
) -> (r: Song)
    requires
        materials@.len() < u32::MAX,
        most_patterns(material_views(materials@), materials@.len() as int) < u32::MAX,
    ensures
        r.view() == finished(
            name@,
            author@,
            drafted(material_views(materials@), structured, length, master_volume),
        ),
{
    let ghost m = material_views(materials@);
    let draft: SongDraft = if structured {
        build_song_structured(materials, length, master_volume)
    } else {
        build_song(materials, length, master_volume)
    };
    proof {
        if structured {
            structured_songs_hold_together(m, length, m.len() as int, master_volume);
        } else {
            flat_songs_hold_together(m, length, m.len() as int, master_volume);
        }
    }
    assemble_song(name, author, draft)
}

/// Every finished song holds together: its patterns are numbered by their places,
/// and its placements name patterns and tracks that exist.
pub proof fn finished_songs_hold_together(
    name: Seq<char>,
    author: Seq<char>,
    m: Seq<MaterialView>,
    structured: bool,
    length: u32,
    lane: Option<usize>,
)
    requires
        m.len() < u32::MAX,
        m.len() < usize::MAX,
        most_patterns(m, m.len() as int) < u32::MAX,
        most_patterns(m, m.len() as int) < usize::MAX,
    ensures
        ({
            let f = finished(name, author, drafted(m, structured, length, lane));
            &&& numbered_by_place(f.patterns)
            &&& f.tracks.len() == m.len()
            &&& forall|k: int|
                0 <= k < f.arrangement.len() ==> (#[trigger] f.arrangement[k]).pattern_id
                    < f.patterns.len() && f.arrangement[k].track_id < f.tracks.len()
        }),
{
    let s = drafted(m, structured, length, lane);
    let f = finished(name, author, s);
    if structured {
        structured_songs_hold_together(m, length, m.len() as int, lane);
    } else {
        flat_songs_hold_together(m, length, m.len() as int, lane);
    }
    let remap = stand_ins(s.patterns, s.arrangement);
    let kept = kept_patterns(s.patterns, remap, s.patterns.len() as int);
    kept_are_numbered(s.patterns, remap, s.patterns.len() as int);
    assert(numbered_by_place(f.patterns));
    assert forall|k: int| 0 <= k < f.arrangement.len() implies (#[trigger] f.arrangement[k]).pattern_id
        < f.patterns.len() && f.arrangement[k].track_id < f.tracks.len() by {
        assert(s.arrangement[k].pattern_id < s.patterns.len());
        canonical_placements_play_the_same(s.patterns, s.arrangement, k);
    }
}

} // verus!
