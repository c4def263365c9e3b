//! Leaving out patterns that are the beginning of another one.

use super::{
    begins_with, notes_begin_with, pattern_views, same_processors, Pattern, PatternPlacement,
    PatternView, SongNote,
};
use vstd::prelude::*;

verus! {

/// Patterns are numbered by their places.
pub open spec fn numbered_by_place(patterns: Seq<PatternView>) -> bool {
    forall|i: int| 0 <= i < patterns.len() ==> (#[trigger] patterns[i]).id == i
}

/// Whether some note of a list belongs to a track of its own.
pub open spec fn has_tracked_note(notes: Seq<SongNote>) -> bool {
    exists|i: int| 0 <= i < notes.len() && (#[trigger] notes[i]).track is Some
}

/// Whether a pattern holds nothing but notes that play wherever it is placed.
pub open spec fn is_plain(p: PatternView) -> bool {
    p.automation.len() == 0 && !has_tracked_note(p.notes)
}

/// Whether every placement of a pattern ends by a tick.
pub open spec fn ends_by(arrangement: Seq<PatternPlacement>, pattern_id: u32, tick: u32) -> bool {
    forall|k: int|
        0 <= k < arrangement.len() && (#[trigger] arrangement[k]).pattern_id == pattern_id
            ==> arrangement[k].length_override is Some && arrangement[k].length_override->0 <= tick
}

/// Whether pattern `c` can stand for pattern `i`: it begins with all of its
/// notes, goes on, and no placement of `i` lasts until it goes on.
pub open spec fn can_stand_for(
    patterns: Seq<PatternView>,
    arrangement: Seq<PatternPlacement>,
    c: int,
    i: int,
) -> bool {
    let long = patterns[c];
    let short = patterns[i];
    &&& is_plain(long)
    &&& is_plain(short)
    &&& 0 < short.notes.len() < long.notes.len()
    &&& long.processors == short.processors
    &&& begins_with(long.notes, short.notes)
    &&& ends_by(arrangement, short.id, long.notes[short.notes.len() as int].start)
}

/// The pattern that stands for pattern `i`, among the first `n`: the longest one
/// that can, the last of several.
pub open spec fn stand_in(
    patterns: Seq<PatternView>,
    arrangement: Seq<PatternPlacement>,
    i: int,
    n: int,
) -> Option<usize>
    decreases n,
{
    if n <= 0 {
        None
    } else {
        let before = stand_in(patterns, arrangement, i, n - 1);
        if can_stand_for(patterns, arrangement, n - 1, i) && (before is None
            || patterns[before->0 as int].notes.len() <= patterns[n - 1].notes.len()) {
            Some((n - 1) as usize)
        } else {
            before
        }
    }
}

/// The stand-ins of all patterns.
pub open spec fn stand_ins(
    patterns: Seq<PatternView>,
    arrangement: Seq<PatternPlacement>,
) -> Seq<Option<usize>> {
    Seq::new(
        patterns.len(),
        |i: int| stand_in(patterns, arrangement, i, patterns.len() as int),
    )
}

/// Whether stand-ins exist and have more notes than what they stand for.
pub open spec fn stand_ins_grow(patterns: Seq<PatternView>, remap: Seq<Option<usize>>) -> bool {
    &&& remap.len() == patterns.len()
    &&& forall|i: int|
        0 <= i < remap.len() ==> ((#[trigger] remap[i]) matches Some(c) ==> c < patterns.len()
            && patterns[i].notes.len() < patterns[c as int].notes.len())
}

/// The length of the longest pattern.
pub open spec fn longest_pattern(patterns: Seq<PatternView>) -> nat
    decreases patterns.len(),
{
    if patterns.len() == 0 {
        0
    } else {
        let before = longest_pattern(patterns.drop_last());
        if patterns.last().notes.len() > before {
            patterns.last().notes.len()
        } else {
            before
        }
    }
}

/// The pattern that stands for pattern `i` in the end: stand-ins have stand-ins.
pub open spec fn last_stand_in(
    patterns: Seq<PatternView>,
    remap: Seq<Option<usize>>,
    i: int,
) -> int
    decreases longest_pattern(patterns) - patterns[i].notes.len(),
{
    match remap[i] {
        Some(c) => if patterns[i].notes.len() < patterns[c as int].notes.len()
            <= longest_pattern(patterns) {
            last_stand_in(patterns, remap, c as int)
        } else {
            i
        },
        None => i,
    }
}

/// How many of the first `n` patterns are kept.
pub open spec fn kept_before(remap: Seq<Option<usize>>, n: int) -> nat
    decreases n,
{
    if n <= 0 {
        0
    } else {
        kept_before(remap, n - 1) + (if remap[n - 1] is None {
            1nat
        } else {
            0
        })
    }
}

/// The first `n` patterns, without those that have stand-ins, numbered by their
/// new places.
pub open spec fn kept_patterns(
    patterns: Seq<PatternView>,
    remap: Seq<Option<usize>>,
    n: int,
) -> Seq<PatternView>
    decreases n,
{
    if n <= 0 {
        Seq::empty()
    } else {
        let before = kept_patterns(patterns, remap, n - 1);
        if remap[n - 1] is None {
            before.push(PatternView { id: before.len() as u32, ..patterns[n - 1] })
        } else {
            before
        }
    }
}

/// A placement of what stands for its pattern; one of an unknown pattern stays.
pub open spec fn moved_placement(
    patterns: Seq<PatternView>,
    remap: Seq<Option<usize>>,
    p: PatternPlacement,
) -> PatternPlacement {
    if p.pattern_id < patterns.len() {
        PatternPlacement {
            pattern_id: kept_before(
                remap,
                last_stand_in(patterns, remap, p.pattern_id as int),
            ) as u32,
            ..p
        }
    } else {
        p
    }
}

proof fn stand_in_is_sound(
    patterns: Seq<PatternView>,
    arrangement: Seq<PatternPlacement>,
    i: int,
    n: int,
)
    requires
        0 <= n <= patterns.len() <= usize::MAX,
    ensures
        stand_in(patterns, arrangement, i, n) matches Some(c) ==> c < n && can_stand_for(
            patterns,
            arrangement,
            c as int,
            i,
        ),
    decreases n,
{
    if n > 0 {
        stand_in_is_sound(patterns, arrangement, i, n - 1);
    }
}

proof fn longest_bounds(patterns: Seq<PatternView>, i: int)
    requires
        0 <= i < patterns.len(),
    ensures
        patterns[i].notes.len() <= longest_pattern(patterns),
    decreases patterns.len(),
{
    if i < patterns.len() - 1 {
        longest_bounds(patterns.drop_last(), i);
    }
}

proof fn stand_ins_are_sound(patterns: Seq<PatternView>, arrangement: Seq<PatternPlacement>)
    requires
        patterns.len() <= usize::MAX,
    ensures
        stand_ins_grow(patterns, stand_ins(patterns, arrangement)),
{
    let remap = stand_ins(patterns, arrangement);
    assert forall|i: int| 0 <= i < remap.len() implies ((#[trigger] remap[i]) matches Some(c) ==> c
        < patterns.len() && patterns[i].notes.len() < patterns[c as int].notes.len()) by {
        stand_in_is_sound(patterns, arrangement, i, patterns.len() as int);
    }
}

proof fn last_stand_in_is_kept(patterns: Seq<PatternView>, remap: Seq<Option<usize>>, i: int)
    requires
        stand_ins_grow(patterns, remap),
        0 <= i < patterns.len(),
    ensures
        0 <= last_stand_in(patterns, remap, i) < patterns.len(),
        remap[last_stand_in(patterns, remap, i)] is None,
    decreases longest_pattern(patterns) - patterns[i].notes.len(),
{
    match remap[i] {
        Some(c) => {
            longest_bounds(patterns, c as int);
            last_stand_in_is_kept(patterns, remap, c as int);
        },
        None => {},
    }
}

/// There are as many kept patterns as are counted.
pub proof fn kept_count(patterns: Seq<PatternView>, remap: Seq<Option<usize>>, n: int)
    requires
        0 <= n <= patterns.len(),
        remap.len() == patterns.len(),
    ensures
        kept_patterns(patterns, remap, n).len() == kept_before(remap, n),
        kept_before(remap, n) <= n,
    decreases n,
{
    if n > 0 {
        kept_count(patterns, remap, n - 1);
    }
}

proof fn kept_at(patterns: Seq<PatternView>, remap: Seq<Option<usize>>, i: int, n: int)
    requires
        0 <= i < n <= patterns.len(),
        remap.len() == patterns.len(),
        remap[i] is None,
    ensures
        kept_before(remap, i) < kept_before(remap, n),
        kept_patterns(patterns, remap, n)[kept_before(remap, i) as int] == (PatternView {
            id: kept_before(remap, i) as u32,
            ..patterns[i]
        }),
    decreases n,
{
    kept_count(patterns, remap, i);
    kept_count(patterns, remap, n - 1);
    if i < n - 1 {
        kept_at(patterns, remap, i, n - 1);
    }
}

/// Nothing that plays changes: a placement of a pattern becomes one of a pattern
/// that begins with the same notes and has the same arpeggiators, and whatever
/// follows them there starts no sooner than the placement ends. The patterns
/// that are kept are numbered by their places.
pub proof fn canonical_placements_play_the_same(
    patterns: Seq<PatternView>,
    arrangement: Seq<PatternPlacement>,
    k: int,
)
    requires
        patterns.len() <= u32::MAX,
        patterns.len() <= usize::MAX,
        numbered_by_place(patterns),
        0 <= k < arrangement.len(),
        arrangement[k].pattern_id < patterns.len(),
    ensures
        ({
            let remap = stand_ins(patterns, arrangement);
            let kept = kept_patterns(patterns, remap, patterns.len() as int);
            let before = arrangement[k];
            let after = moved_placement(patterns, remap, before);
            &&& numbered_by_place(kept)
            &&& after.pattern_id < kept.len()
            &&& after == (PatternPlacement { pattern_id: after.pattern_id, ..before })
            &&& plays_alike(
                patterns[before.pattern_id as int],
                kept[after.pattern_id as int],
                before,
            )
        }),
{
    let remap = stand_ins(patterns, arrangement);
    let n = patterns.len() as int;
    let i = arrangement[k].pattern_id as int;
    stand_ins_are_sound(patterns, arrangement);
    last_stand_in_is_kept(patterns, remap, i);
    let t = last_stand_in(patterns, remap, i);
    kept_at(patterns, remap, t, n);
    kept_count(patterns, remap, n);
    kept_count(patterns, remap, t);
    kept_are_numbered(patterns, remap, n);
    plays_alike_in_the_end(patterns, arrangement, k, i);
    let kept = kept_patterns(patterns, remap, n);
    let after = moved_placement(patterns, remap, arrangement[k]);
    assert(kept[after.pattern_id as int].notes == patterns[t].notes);
}

/// Every pattern with automation is among those that are kept.
pub(crate) proof fn patterns_with_automation_are_kept(
    patterns: Seq<PatternView>,
    arrangement: Seq<PatternPlacement>,
    i: int,
) -> (at: int)
    requires
        patterns.len() <= u32::MAX,
        patterns.len() <= usize::MAX,
        0 <= i < patterns.len(),
        patterns[i].automation.len() > 0,
    ensures
        ({
            let kept = kept_patterns(
                patterns,
                stand_ins(patterns, arrangement),
                patterns.len() as int,
            );
            0 <= at < kept.len() && kept[at].automation == patterns[i].automation
        }),
{
    let remap = stand_ins(patterns, arrangement);
    let n = patterns.len() as int;
    stand_in_is_sound(patterns, arrangement, i, n);
    assert(remap[i] is None);
    kept_at(patterns, remap, i, n);
    kept_count(patterns, remap, n);
    kept_before(remap, i) as int
}

/// A pattern with automation is kept with all that it holds, whatever number it gets.
pub proof fn automation_stays_in_its_pattern(
    patterns: Seq<PatternView>,
    arrangement: Seq<PatternPlacement>,
    k: int,
)
    requires
        patterns.len() <= u32::MAX,
        patterns.len() <= usize::MAX,
        0 <= k < arrangement.len(),
        arrangement[k].pattern_id < patterns.len(),
        patterns[arrangement[k].pattern_id as int].automation.len() > 0,
    ensures
        ({
            let remap = stand_ins(patterns, arrangement);
            let kept = kept_patterns(patterns, remap, patterns.len() as int);
            let after = moved_placement(patterns, remap, arrangement[k]);
            let pattern = patterns[arrangement[k].pattern_id as int];
            &&& after.pattern_id < kept.len()
            &&& kept[after.pattern_id as int] == (PatternView { id: after.pattern_id, ..pattern })
        }),
{
    let remap = stand_ins(patterns, arrangement);
    let n = patterns.len() as int;
    let i = arrangement[k].pattern_id as int;
    stand_in_is_sound(patterns, arrangement, i, n);
    assert(remap[i] is None);
    kept_at(patterns, remap, i, n);
    kept_count(patterns, remap, n);
    kept_count(patterns, remap, i);
}


/// Whether a pattern plays as another one does where that one is placed: it
/// begins with its notes, and goes on only behind the end of the placement.
pub open spec fn plays_alike(
    before: PatternView,
    after: PatternView,
    placement: PatternPlacement,
) -> bool {
    &&& after.processors == before.processors
    &&& begins_with(after.notes, before.notes)
    &&& after.notes.len() > before.notes.len() ==> placement.length_override is Some
        && placement.length_override->0 <= after.notes[before.notes.len() as int].start
}

pub(crate) proof fn kept_are_numbered(patterns: Seq<PatternView>, remap: Seq<Option<usize>>, n: int)
    requires
        0 <= n <= patterns.len() <= u32::MAX,
        remap.len() == patterns.len(),
    ensures
        numbered_by_place(kept_patterns(patterns, remap, n)),
    decreases n,
{
    if n > 0 {
        kept_are_numbered(patterns, remap, n - 1);
        kept_count(patterns, remap, n - 1);
    }
}

proof fn beginnings_chain(a: Seq<SongNote>, b: Seq<SongNote>, c: Seq<SongNote>)
    requires
        begins_with(b, a),
        begins_with(c, b),
    ensures
        begins_with(c, a),
        b.len() > a.len() ==> c.len() > a.len() && c[a.len() as int].start == b[a.len() as int].start,
{
    let ca = super::canonical_notes(a);
    let cb = super::canonical_notes(b);
    let cc = super::canonical_notes(c);
    assert(cc.take(a.len() as int) =~= cc.take(b.len() as int).take(a.len() as int));
    if b.len() > a.len() {
        assert(cb[a.len() as int] == cc.take(b.len() as int)[a.len() as int]);
        assert(super::canonical(b[a.len() as int]) == super::canonical(c[a.len() as int]));
    }
}

proof fn plays_alike_in_the_end(
    patterns: Seq<PatternView>,
    arrangement: Seq<PatternPlacement>,
    k: int,
    i: int,
)
    requires
        patterns.len() <= usize::MAX,
        numbered_by_place(patterns),
        0 <= k < arrangement.len(),
        0 <= i < patterns.len(),
        arrangement[k].pattern_id == i,
    ensures
        plays_alike(
            patterns[i],
            patterns[last_stand_in(patterns, stand_ins(patterns, arrangement), i)],
            arrangement[k],
        ),
{
    let remap = stand_ins(patterns, arrangement);
    stand_ins_are_sound(patterns, arrangement);
    assert(super::canonical_notes(patterns[i].notes).take(patterns[i].notes.len() as int)
        =~= super::canonical_notes(patterns[i].notes));
    match remap[i] {
        Some(c) => {
            longest_bounds(patterns, c as int);
            stand_in_is_sound(patterns, arrangement, i, patterns.len() as int);
            assert(can_stand_for(patterns, arrangement, c as int, i));
            chain_begins_with(patterns, remap, arrangement, c as int);
            beginnings_chain(
                patterns[i].notes,
                patterns[c as int].notes,
                patterns[last_stand_in(patterns, remap, c as int)].notes,
            );
        },
        None => {},
    }
}

proof fn chain_begins_with(
    patterns: Seq<PatternView>,
    remap: Seq<Option<usize>>,
    arrangement: Seq<PatternPlacement>,
    i: int,
)
    requires
        patterns.len() <= usize::MAX,
        remap == stand_ins(patterns, arrangement),
        0 <= i < patterns.len(),
    ensures
        begins_with(patterns[last_stand_in(patterns, remap, i)].notes, patterns[i].notes),
        patterns[last_stand_in(patterns, remap, i)].processors == patterns[i].processors,
    decreases longest_pattern(patterns) - patterns[i].notes.len(),
{
    stand_ins_are_sound(patterns, arrangement);
    assert(super::canonical_notes(patterns[i].notes).take(patterns[i].notes.len() as int)
        =~= super::canonical_notes(patterns[i].notes));
    match remap[i] {
        Some(c) => {
            longest_bounds(patterns, c as int);
            stand_in_is_sound(patterns, arrangement, i, patterns.len() as int);
            chain_begins_with(patterns, remap, arrangement, c as int);
            beginnings_chain(
                patterns[i].notes,
                patterns[c as int].notes,
                patterns[last_stand_in(patterns, remap, c as int)].notes,
            );
        },
        None => {},
    }
}

fn pattern_is_plain(p: &Pattern) -> (r: bool)
    ensures
        r == is_plain(p.view()),
{
    if p.automation.len() > 0 {
        return false;
    }
    let mut i: usize = 0;
    while i < p.notes.len()
        invariant
            i <= p.notes@.len(),
            p.automation@.len() == 0,
            forall|j: int| 0 <= j < i ==> (#[trigger] p.notes@[j]).track is None,
        decreases p.notes@.len() - i,
    {
        if p.notes[i].track.is_some() {
            assert(p.view().notes[i as int].track is Some);
            return false;
        }
        i += 1;
    }
    true
}

fn placements_end_by(arrangement: &[PatternPlacement], pattern_id: u32, tick: u32) -> (r: bool)
    ensures
        r == ends_by(arrangement@, pattern_id, tick),
{
    let mut k: usize = 0;
    while k < arrangement.len()
        invariant
            k <= arrangement@.len(),
            forall|j: int|
                0 <= j < k && (#[trigger] arrangement@[j]).pattern_id == pattern_id
                    ==> arrangement@[j].length_override is Some
                    && arrangement@[j].length_override->0 <= tick,
        decreases arrangement@.len() - k,
    {
        if arrangement[k].pattern_id == pattern_id {
            let ended: bool = match arrangement[k].length_override {
                Some(length) => length <= tick,
                None => false,
            };
            if !ended {
                assert(arrangement@[k as int].pattern_id == pattern_id);
                return false;
            }
        }
        k += 1;
    }
    true
}

fn find_stand_in(patterns: &[Pattern], arrangement: &[PatternPlacement], i: usize) -> (r: Option<
    usize,
>)
    requires
        i < patterns@.len(),
    ensures
        r == stand_in(
            pattern_views(patterns@),
            arrangement@,
            i as int,
            patterns@.len() as int,
        ),
        r matches Some(c) ==> c < patterns@.len(),
{
    let ghost views = pattern_views(patterns@);
    let short: &Pattern = &patterns[i];
    assert(views[i as int] == short.view());
    let count: usize = short.notes.len();
    let plain: bool = pattern_is_plain(short);
    let mut best: Option<usize> = None;
    let mut n: usize = 0;
    while n < patterns.len()
        invariant
            n <= patterns@.len(),
            i < patterns@.len(),
            views == pattern_views(patterns@),
            *short == patterns@[i as int],
            views[i as int] == short.view(),
            count == short.notes@.len(),
            plain == is_plain(short.view()),
            best == stand_in(views, arrangement@, i as int, n as int),
            best matches Some(b) ==> b < n,
        decreases patterns@.len() - n,
    {
        let long: &Pattern = &patterns[n];
        assert(views[n as int] == long.view());
        let better: bool = match best {
            Some(b) => {
                assert(views[b as int] == patterns@[b as int].view());
                patterns[b].notes.len() <= long.notes.len()
            },
            None => true,
        };
        if better && plain && 0 < count && count < long.notes.len() && pattern_is_plain(long)
            && same_processors(long.processors.as_slice(), short.processors.as_slice())
            && notes_begin_with(long.notes.as_slice(), short.notes.as_slice())
            && placements_end_by(arrangement, short.id, long.notes[count].start) {
            assert(can_stand_for(views, arrangement@, n as int, i as int));
            best = Some(n);
        } else {
            assert(!(better && can_stand_for(views, arrangement@, n as int, i as int)));
        }
        n += 1;
    }
    best
}

fn follow(patterns: &[Pattern], remap: &[Option<usize>], i: usize) -> (r: usize)
    requires
        i < patterns@.len(),
        stand_ins_grow(pattern_views(patterns@), remap@),
    ensures
        r == last_stand_in(pattern_views(patterns@), remap@, i as int),
        r < patterns@.len(),
{
    let ghost views = pattern_views(patterns@);
    let mut at: usize = i;
    loop
        invariant
            at < patterns@.len(),
            views == pattern_views(patterns@),
            stand_ins_grow(views, remap@),
            last_stand_in(views, remap@, at as int) == last_stand_in(views, remap@, i as int),
        decreases longest_pattern(views) - views[at as int].notes.len(),
    {
        match remap[at] {
            Some(c) => {
                proof {
                    assert(remap@[at as int] == Some(c));
                    longest_bounds(views, c as int);
                    longest_bounds(views, at as int);
                }
                at = c;
            },
            None => {
                return at;
            },
        }
    }
}

/// Leaves out the patterns that are the beginning of another one, where their
/// placements end before that one goes on.
pub fn canonicalize_truncated_patterns(
    patterns: &mut Vec<Pattern>,
    arrangement: &mut Vec<PatternPlacement>,
)
    requires
        old(patterns)@.len() <= u32::MAX,
        numbered_by_place(pattern_views(old(patterns)@)),
    ensures
        ({
            let before = pattern_views(old(patterns)@);
            let remap = stand_ins(before, old(arrangement)@);
            &&& pattern_views(final(patterns)@) == kept_patterns(
                before,
                remap,
                before.len() as int,
            )
            &&& final(arrangement)@ == Seq::new(
                old(arrangement)@.len(),
                |k: int| moved_placement(before, remap, old(arrangement)@[k]),
            )
        }),
{
    let ghost before = pattern_views(patterns@);
    let ghost placed = arrangement@;
    let ghost wanted = stand_ins(before, placed);
    let count: usize = patterns.len();
    proof {
        stand_ins_are_sound(before, placed);
    }
    let mut remap: Vec<Option<usize>> = Vec::new();
    let mut i: usize = 0;
    while i < count
        invariant
            i <= count,
            count == patterns@.len(),
            before == pattern_views(patterns@),
            placed == arrangement@,
            wanted == stand_ins(before, placed),
            remap@ == wanted.take(i as int),
        decreases count - i,
    {
        let found: Option<usize> = find_stand_in(patterns.as_slice(), arrangement.as_slice(), i);
        assert(found == wanted[i as int]);
        remap.push(found);
        assert(wanted.take(i + 1) =~= wanted.take(i as int).push(wanted[i as int]));
        i += 1;
    }
    assert(wanted.take(count as int) =~= wanted);
    let mut ids: Vec<u32> = Vec::new();
    let mut kept: u32 = 0;
    let mut j: usize = 0;
    while j < count
        invariant
            j <= count,
            count == remap@.len(),
            count <= u32::MAX,
            kept == kept_before(remap@, j as int),
            kept <= j,
            ids@.len() == j,
            forall|x: int| 0 <= x < j ==> #[trigger] ids@[x] == kept_before(remap@, x),
        decreases count - j,
    {
        ids.push(kept);
        if remap[j].is_none() {
            kept += 1;
        }
        j += 1;
    }
    let placements: usize = arrangement.len();
    let mut k: usize = 0;
    while k < placements
        invariant
            k <= placements,
            placements == placed.len(),
            arrangement@.len() == placements,
            count == patterns@.len(),
            count == ids@.len(),
            before == pattern_views(patterns@),
            remap@ == wanted,
            stand_ins_grow(before, wanted),
            forall|x: int| 0 <= x < count ==> #[trigger] ids@[x] == kept_before(wanted, x),
            forall|x: int|
                0 <= x < k ==> #[trigger] arrangement@[x] == moved_placement(
                    before,
                    wanted,
                    placed[x],
                ),
            forall|x: int| k <= x < placements ==> #[trigger] arrangement@[x] == placed[x],
        decreases placements - k,
    {
        let mut p: PatternPlacement = arrangement[k];
        if (p.pattern_id as usize) < count {
            let t: usize = follow(patterns.as_slice(), remap.as_slice(), p.pattern_id as usize);
            p.pattern_id = ids[t];
        }
        arrangement.set(k, p);
        k += 1;
    }
    assert(arrangement@ =~= Seq::new(
        placed.len(),
        |k: int| moved_placement(before, wanted, placed[k]),
    ));
    let mut rest: Vec<Pattern> = Vec::new();
    std::mem::swap(patterns, &mut rest);
    let mut n: usize = 0;
    while n < count
        invariant
            n <= count,
            count == before.len(),
            count <= u32::MAX,
            wanted.len() == count,
            remap@ == wanted,
            rest@.len() == count - n,
            forall|x: int| 0 <= x < rest@.len() ==> (#[trigger] rest@[x]).view() == before[n + x],
            pattern_views(patterns@) == kept_patterns(before, wanted, n as int),
            patterns@.len() <= n,
        decreases count - n,
    {
        let ghost left = rest@;
        let ghost so_far = patterns@;
        let mut p: Pattern = rest.remove(0);
        proof {
            assert(p.view() == before[n + 0]);
            assert forall|x: int| 0 <= x < rest@.len() implies (#[trigger] rest@[x]).view()
                == before[n + 1 + x] by {
                assert(rest@[x] == left[x + 1]);
            }
        }
        if remap[n].is_none() {
            p.id = patterns.len() as u32;
            patterns.push(p);
            assert(pattern_views(patterns@) =~= pattern_views(so_far).push(p.view()));
        }
        n += 1;
    }
}

} // verus!
