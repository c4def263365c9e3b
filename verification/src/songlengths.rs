//! Tune lengths by file hash, as listed in HVSC's `Songlengths.md5`.

use crate::chars::{
    find_char, from_chars, is_white, parts_end_at_the_first_occurrence, run_before, to_chars, trim,
    trim_spec, views, words, words_spec,
};
use crate::numerals::{
    decimal_value, hex_value, is_decimal, numeral, numerals_are_read_back, pad_left,
    parse_hex_digit, parse_unsigned, push_decimal, push_padded, unsigned_value,
    written_numbers_are_read_back,
};
use md5::{Digest, Md5};
use std::collections::HashMap;
use vstd::prelude::*;
use vstd::slice::slice_subrange;

verus! {

/// The MD5 digest of bytes, as the `md-5` crate computes it.
pub uninterp spec fn md5_digest(bytes: Seq<u8>) -> Seq<u8>;

/// `md5::Md5::digest`: the digest is a function of the bytes alone.
#[verifier::external_body]
fn digest_bytes(bytes: &[u8]) -> (r: [u8; 16])
    ensures
        r@ == md5_digest(bytes@),
{
    Md5::digest(bytes).into()
}

/// The hash that the list is keyed on: MD5 over the full file contents, header
/// and data.
#[must_use]
pub fn compute_sid_md5(bytes: &[u8]) -> (r: [u8; 16])
    ensures
        r@ == md5_digest(bytes@),
{
    digest_bytes(bytes)
}

/// A playing time.
#[derive(Debug, Clone, Copy, PartialEq, Eq, Structural)]
pub struct SongTime {
    /// Whole seconds.
    pub secs: u64,
    /// Nanoseconds behind the whole seconds.
    pub nanos: u32,
}

/// A time as it is written, such as `3:57` or `0:05.25`.
#[derive(Debug, Clone)]
pub struct TimeToken {
    pub minutes: u64,
    /// The decimal numeral of the seconds, not yet read.
    pub seconds: String,
}

/// One data line of the list.
#[derive(Debug, Clone)]
pub struct LengthLine {
    pub md5: [u8; 16],
    pub times: Vec<TimeToken>,
}

/// The lengths of every subtune of every listed tune.
pub struct SongLengths {
    map: HashMap<u128, Vec<SongTime>>,
}

/// The number that bytes denote, most significant first.
pub open spec fn md5_key(md5: Seq<u8>) -> nat
    decreases md5.len(),
{
    if md5.len() == 0 {
        0
    } else {
        md5_key(md5.drop_last()) * 256 + md5.last() as nat
    }
}

/// Different hashes of one length have different keys.
pub proof fn md5_key_is_injective(a: Seq<u8>, b: Seq<u8>)
    requires
        a.len() == b.len(),
        md5_key(a) == md5_key(b),
    ensures
        a == b,
    decreases a.len(),
{
    if a.len() > 0 {
        let x = md5_key(a.drop_last());
        let y = md5_key(b.drop_last());
        assert(x == y && a.last() == b.last());
        md5_key_is_injective(a.drop_last(), b.drop_last());
        assert(a =~= a.drop_last().push(a.last()));
        assert(b =~= b.drop_last().push(b.last()));
    } else {
        assert(a =~= b);
    }
}

fn pack_md5(md5: &[u8; 16]) -> (r: u128)
    ensures
        r == md5_key(md5@),
{
    let mut key: u128 = 0;
    let mut i: usize = 0;
    assert(md5@.take(0) =~= Seq::<u8>::empty());
    while i < 16
        invariant
            i <= 16,
            md5@.len() == 16,
            key == md5_key(md5@.take(i as int)),
            key < byte_power(i as nat),
        decreases 16 - i,
    {
        assert(md5@.take(i + 1).drop_last() =~= md5@.take(i as int));
        proof {
            byte_power_bound(i as nat);
        }
        key = key * 256 + md5[i] as u128;
        i += 1;
    }
    assert(md5@.take(16) =~= md5@);
    key
}

spec fn byte_power(n: nat) -> nat
    decreases n,
{
    if n == 0 {
        1
    } else {
        byte_power((n - 1) as nat) * 256
    }
}

proof fn byte_power_bound(n: nat)
    requires
        n <= 15,
    ensures
        byte_power(n) <= 0x1_000000_000000_000000_000000_000000,
{
    reveal_with_fuel(byte_power, 17);
}

/// The sixteen bytes that thirty-two hexadecimal digits denote.
pub open spec fn md5_from_hex(s: Seq<char>) -> Option<Seq<u8>> {
    if s.len() == 32 && (forall|i: int| 0 <= i < 32 ==> hex_value(#[trigger] s[i]) is Some) {
        Some(
            Seq::new(
                16,
                |i: int| (hex_value(s[2 * i])->Some_0 * 16 + hex_value(s[2 * i + 1])->Some_0) as u8,
            ),
        )
    } else {
        None
    }
}

fn parse_md5_hex(s: &[char]) -> (r: Option<[u8; 16]>)
    ensures
        match r {
            Some(md5) => md5_from_hex(s@) == Some(md5@),
            None => md5_from_hex(s@) is None,
        },
{
    if s.len() != 32 {
        return None;
    }
    let mut out: [u8; 16] = [0;16];
    let mut i: usize = 0;
    while i < 16
        invariant
            i <= 16,
            s@.len() == 32,
            forall|j: int| 0 <= j < 2 * i ==> hex_value(#[trigger] s@[j]) is Some,
            forall|j: int|
                0 <= j < i ==> #[trigger] out@[j] == (hex_value(s@[2 * j])->Some_0 * 16 + hex_value(
                    s@[2 * j + 1],
                )->Some_0) as u8,
        decreases 16 - i,
    {
        match (parse_hex_digit(s[2 * i]), parse_hex_digit(s[2 * i + 1])) {
            (Some(hi), Some(lo)) => {
                out[i] = hi * 16 + lo;
            },
            _ => {
                assert(hex_value(s@[2 * i]) is None || hex_value(s@[2 * i + 1]) is None);
                return None;
            },
        }
        i += 1;
    }
    assert(md5_from_hex(s@)->Some_0 =~= out@);
    Some(out)
}

/// A written time: the minutes, and the numeral of the seconds.
pub struct TimeView {
    pub minutes: nat,
    pub seconds: Seq<char>,
}

impl TimeToken {
    /// The time as plain values.
    pub open spec fn view(self) -> TimeView {
        TimeView { minutes: self.minutes as nat, seconds: self.seconds@ }
    }
}

/// The minutes and seconds of a word such as `3:57(M)`: whatever follows an
/// opening bracket is dropped, and a colon parts the rest.
pub open spec fn time_word(word: Seq<char>) -> Option<TimeView> {
    let core = word.take(run_before(word, '(') as int);
    let colon = run_before(core, ':') as int;
    if colon >= core.len() {
        None
    } else {
        match unsigned_value(core.take(colon), u64::MAX as nat) {
            Some(m) => Some(TimeView { minutes: m, seconds: core.skip(colon + 1) }),
            None => None,
        }
    }
}

/// The times that words denote, if each of them denotes one.
pub open spec fn time_words(list: Seq<Seq<char>>) -> Option<Seq<TimeView>> {
    if forall|i: int| 0 <= i < list.len() ==> time_word(#[trigger] list[i]) is Some {
        Some(list.map_values(|w: Seq<char>| time_word(w)->Some_0))
    } else {
        None
    }
}

/// What a line of the list says: the hash in front of the equals sign, and the
/// times behind it. Comments, section headers and blank lines say nothing.
pub open spec fn line_entry(raw: Seq<char>) -> Option<(Seq<u8>, Seq<TimeView>)> {
    let line = trim_spec(raw);
    let eq = run_before(line, '=') as int;
    let hash = md5_from_hex(trim_spec(line.take(eq)));
    let times = time_words(words_spec(line.skip(eq + 1)));
    if line.len() == 0 || line[0] == ';' || line[0] == '[' || eq >= line.len() {
        None
    } else if hash is None || times is None {
        None
    } else {
        Some((hash->Some_0, times->Some_0))
    }
}

fn parse_time_word(word: &[char]) -> (r: Option<TimeToken>)
    ensures
        match r {
            Some(t) => time_word(word@) == Some(t.view()),
            None => time_word(word@) is None,
        },
{
    let bracket: usize = find_char(word, '(');
    let core: &[char] = slice_subrange(word, 0, bracket);
    assert(core@ =~= word@.take(bracket as int));
    let colon: usize = find_char(core, ':');
    if colon == core.len() {
        return None;
    }
    assert(core@.take(colon as int) =~= core@.subrange(0, colon as int));
    assert(core@.skip(colon + 1) =~= core@.subrange(colon + 1, core@.len() as int));
    match parse_unsigned(slice_subrange(core, 0, colon), u64::MAX) {
        Some(minutes) => Some(
            TimeToken {
                minutes,
                seconds: from_chars(slice_subrange(core, colon + 1, core.len())),
            },
        ),
        None => None,
    }
}

/// Times as plain values.
pub open spec fn time_views(times: Seq<TimeToken>) -> Seq<TimeView> {
    times.map_values(|t: TimeToken| t.view())
}

/// Reads one line of the list.
pub fn parse_line(raw: &str) -> (r: Option<LengthLine>)
    ensures
        match r {
            Some(l) => line_entry(raw@) == Some((l.md5@, time_views(l.times@))),
            None => line_entry(raw@) is None,
        },
{
    let all: Vec<char> = to_chars(raw);
    let line: &[char] = trim(all.as_slice());
    if line.len() == 0 || line[0] == ';' || line[0] == '[' {
        return None;
    }
    let eq: usize = find_char(line, '=');
    if eq == line.len() {
        return None;
    }
    assert(line@.take(eq as int) =~= line@.subrange(0, eq as int));
    assert(line@.skip(eq + 1) =~= line@.subrange(eq + 1, line@.len() as int));
    let md5: [u8; 16] = match parse_md5_hex(trim(slice_subrange(line, 0, eq))) {
        Some(h) => h,
        None => {
            return None;
        },
    };
    let list: Vec<Vec<char>> = words(slice_subrange(line, eq + 1, line.len()));
    let ghost seqs = words_spec(line@.skip(eq + 1));
    let mut times: Vec<TimeToken> = Vec::new();
    let mut i: usize = 0;
    while i < list.len()
        invariant
            i <= list@.len(),
            seqs == views(list@),
            times@.len() == i,
            forall|j: int|
                0 <= j < i ==> time_word(#[trigger] seqs[j]) == Some(times@[j].view()),
            line_entry(raw@) is Some ==> time_words(seqs) is Some,
        decreases list@.len() - i,
    {
        assert(list@[i as int]@ == seqs[i as int]);
        match parse_time_word(list[i].as_slice()) {
            Some(t) => {
                times.push(t);
            },
            None => {
                assert(time_word(seqs[i as int]) is None);
                return None;
            },
        }
        i += 1;
    }
    assert(time_words(seqs)->Some_0 =~= time_views(times@));
    Some(LengthLine { md5, times })
}

/// The times of a line, if it has any and all of them could be read.
pub open spec fn complete_times(times: Seq<Option<SongTime>>) -> Option<Seq<SongTime>> {
    if times.len() > 0 && forall|i: int| 0 <= i < times.len() ==> (#[trigger] times[i]) is Some {
        Some(times.map_values(|t: Option<SongTime>| t->Some_0))
    } else {
        None
    }
}

/// A list with a line more: a later line for a hash replaces an earlier one, and an
/// incomplete one is passed over.
pub open spec fn recorded(
    list: Map<u128, Seq<SongTime>>,
    md5: Seq<u8>,
    times: Seq<Option<SongTime>>,
) -> Map<u128, Seq<SongTime>> {
    match complete_times(times) {
        Some(t) => list.insert(md5_key(md5) as u128, t),
        None => list,
    }
}

proof fn md5_key_fits(md5: Seq<u8>)
    requires
        md5.len() <= 16,
    ensures
        md5_key(md5) < byte_power(md5.len()),
        md5_key(md5) <= u128::MAX,
    decreases md5.len(),
{
    if md5.len() > 0 {
        md5_key_fits(md5.drop_last());
        byte_power_bound((md5.len() - 1) as nat);
    }
}

/// What is recorded for a hash is what is found for it, and nothing else changes: a
/// complete line gives its own times back, and every other hash keeps what it had.
pub proof fn recorded_times_are_found(
    list: Map<u128, Seq<SongTime>>,
    md5: Seq<u8>,
    times: Seq<Option<SongTime>>,
    other: Seq<u8>,
)
    requires
        md5.len() == 16,
        other.len() == 16,
    ensures
        complete_times(times) matches Some(t) ==> recorded(list, md5, times).dom().contains(
            md5_key(md5) as u128,
        ) && recorded(list, md5, times)[md5_key(md5) as u128] == t,
        other != md5 ==> {
            &&& recorded(list, md5, times).dom().contains(md5_key(other) as u128)
                == list.dom().contains(md5_key(other) as u128)
            &&& list.dom().contains(md5_key(other) as u128) ==> recorded(list, md5, times)[md5_key(
                other,
            ) as u128] == list[md5_key(other) as u128]
        },
{
    md5_key_fits(md5);
    md5_key_fits(other);
    if other != md5 && md5_key(md5) == md5_key(other) {
        md5_key_is_injective(md5, other);
    }
}

impl SongLengths {
    /// The times by key of the hash.
    pub closed spec fn view(self) -> Map<u128, Seq<SongTime>> {
        self.map@.map_values(|v: Vec<SongTime>| v@)
    }

    /// No tune listed.
    pub fn new() -> (r: SongLengths)
        ensures
            r@ == Map::<u128, Seq<SongTime>>::empty(),
    {
        broadcast use vstd::std_specs::hash::group_hash_axioms;

        let r: SongLengths = SongLengths { map: HashMap::new() };
        assert(r@ =~= Map::empty());
        r
    }

    /// Lists the times of a line. A line without times, or with one that could
    /// not be read, is passed over; a later line for a hash replaces an earlier
    /// one.
    pub fn record(&mut self, md5: &[u8; 16], times: &Vec<Option<SongTime>>)
        ensures
            final(self)@ == recorded(old(self)@, md5@, times@),
    {
        broadcast use vstd::std_specs::hash::group_hash_axioms;

        let mut known: Vec<SongTime> = Vec::new();
        let mut i: usize = 0;
        while i < times.len()
            invariant
                i <= times@.len(),
                known@.len() == i,
                forall|j: int| 0 <= j < i ==> #[trigger] times@[j] == Some(known@[j]),
                self@ == old(self)@,
            decreases times@.len() - i,
        {
            match times[i] {
                Some(t) => {
                    known.push(t);
                },
                None => {
                    assert(times@[i as int] is None);
                    return;
                },
            }
            i += 1;
        }
        if known.len() > 0 {
            assert(complete_times(times@)->Some_0 =~= known@);
            let key: u128 = pack_md5(md5);
            self.map.insert(key, known);
            assert(self@ =~= old(self)@.insert(key, known@));
        }
    }

    /// The times listed for a hash.
    #[must_use]
    pub fn lookup<'a>(&'a self, md5: &[u8; 16]) -> (r: Option<&'a [SongTime]>)
        ensures
            match r {
                Some(t) => self@.dom().contains(md5_key(md5@) as u128) && t@ == self@[md5_key(
                    md5@,
                ) as u128],
                None => !self@.dom().contains(md5_key(md5@) as u128),
            },
    {
        broadcast use vstd::std_specs::hash::group_hash_axioms;

        let key: u128 = pack_md5(md5);
        match self.map.get(&key) {
            Some(v) => Some(v.as_slice()),
            None => None,
        }
    }

    /// How many hashes are listed.
    #[must_use]
    pub fn len(&self) -> (r: usize)
        ensures
            r == self@.dom().len(),
    {
        broadcast use vstd::std_specs::hash::group_hash_axioms;

        assert(self@.dom() =~= self.map@.dom());
        self.map.len()
    }

    /// Whether no hash is listed.
    #[must_use]
    pub fn is_empty(&self) -> (r: bool)
        ensures
            r == (self@.dom() =~= Set::empty()),
    {
        broadcast use vstd::std_specs::hash::group_hash_axioms;

        assert(self@.dom() =~= self.map@.dom());
        self.map.is_empty()
    }
}

impl Default for SongLengths {
    fn default() -> (r: SongLengths)
        ensures
            r@ == Map::<u128, Seq<SongTime>>::empty(),
    {
        SongLengths::new()
    }
}

/// A playing time as minutes and two digits of seconds.
pub open spec fn duration_text(secs: nat) -> Seq<char> {
    numeral(secs / 60, 10) + seq![':'] + pad_left(numeral(secs % 60, 10), 2, '0')
}

/// Formats a playing time as `M:SS`, cut to whole seconds.
#[must_use]
pub fn format_duration(d: SongTime) -> (r: String)
    ensures
        r@ == duration_text(d.secs as nat),
{
    let mut out: Vec<char> = Vec::new();
    push_decimal(&mut out, d.secs / 60, 0);
    out.push(':');
    push_padded(&mut out, d.secs % 60, 10, 2, '0');
    assert(out@ =~= duration_text(d.secs as nat));
    from_chars(out.as_slice())
}

/// A written time is its minutes, a colon and its seconds; what stands behind an opening
/// bracket is passed over.
pub proof fn times_are_parted_by_a_colon(minutes: nat, seconds: Seq<char>, remark: Seq<char>)
    requires
        minutes <= u64::MAX,
        forall|i: int| 0 <= i < seconds.len() ==> #[trigger] seconds[i] != '(',
    ensures
        time_word(numeral(minutes, 10) + seq![':'] + seconds) == Some(
            (TimeView { minutes, seconds }),
        ),
        time_word(numeral(minutes, 10) + seq![':'] + seconds + seq!['('] + remark) == Some(
            (TimeView { minutes, seconds }),
        ),
        time_word(numeral(minutes, 10)) is None,
{
    let m = numeral(minutes, 10);
    numerals_are_read_back(minutes);
    written_numbers_are_read_back(minutes, u64::MAX as nat);
    let core = m + seq![':'] + seconds;
    assert forall|i: int| 0 <= i < core.len() implies #[trigger] core[i] != '(' by {
        if i < m.len() {
            assert(core[i] == m[i]);
            assert(is_decimal(m[i]));
        } else if i > m.len() {
            assert(core[i] == seconds[i - m.len() - 1]);
        }
    }
    assert forall|i: int| 0 <= i < m.len() implies #[trigger] m[i] != ':' && m[i] != '(' by {
        assert(is_decimal(m[i]));
    }
    parts_end_at_the_first_occurrence(core, '(', remark);
    parts_end_at_the_first_occurrence(m, ':', seconds);
    parts_end_at_the_first_occurrence(m, '(', seconds);
    assert(core.take(core.len() as int) =~= core);
    assert(m.take(m.len() as int) =~= m);
    assert(core + seq!['('] + remark =~= m + seq![':'] + seconds + seq!['('] + remark);
}

/// A line names a hash, an equals sign and times; it says nothing if it is a comment, a
/// header, or lacks the sign, or if its hash or one of its times cannot be read.
pub proof fn lines_name_a_hash_and_its_times(raw: Seq<char>, hash: Seq<char>, rest: Seq<char>)
    requires
        raw == hash + seq!['='] + rest,
        hash.len() == 32,
        forall|i: int| 0 <= i < 32 ==> hex_value(#[trigger] hash[i]) is Some,
        rest.len() == 0 || !is_white(rest.last()),
    ensures
        match line_entry(raw) {
            Some(entry) => {
                &&& entry.0.len() == 16
                &&& forall|i: int|
                    0 <= i < 16 ==> #[trigger] entry.0[i] == 16 * hex_value(hash[2 * i])->0
                        + hex_value(hash[2 * i + 1])->0
                &&& entry.1.len() == words_spec(rest).len()
                &&& forall|i: int|
                    0 <= i < entry.1.len() ==> time_word(#[trigger] words_spec(rest)[i]) == Some(
                        entry.1[i],
                    )
            },
            None => exists|i: int|
                0 <= i < words_spec(rest).len() && time_word(#[trigger] words_spec(rest)[i]) is None,
        },
{
    assert forall|i: int| 0 <= i < 32 implies #[trigger] hash[i] != '=' && !is_white(hash[i])
        && hash[i] != ';' && hash[i] != '[' by {
        assert(hex_value(hash[i]) is Some);
    }
    assert(raw[0] == hash[0]);
    assert(hash[0] != '=' && !is_white(hash[0]));
    assert(hash[31] != '=' && !is_white(hash[31]));
    assert(raw.last() == (if rest.len() > 0 {
        rest.last()
    } else {
        '='
    }));
    assert(trim_spec(raw) == raw);
    assert(hash.last() == hash[31]);
    assert(trim_spec(hash) == hash);
    parts_end_at_the_first_occurrence(hash, '=', rest);
    assert(raw.take(32) =~= hash);
    assert(raw.skip(33) =~= rest);
    let list = words_spec(rest);
    let bytes = md5_from_hex(hash)->0;
    assert forall|i: int| 0 <= i < 16 implies #[trigger] bytes[i] == 16 * hex_value(hash[2 * i])->0
        + hex_value(hash[2 * i + 1])->0 by {
        assert(hex_value(hash[2 * i]) is Some && hex_value(hash[2 * i + 1]) is Some);
    }
    if time_words(list) is None {
        let i = choose|i: int| 0 <= i < list.len() && time_word(#[trigger] list[i]) is None;
        assert(time_word(words_spec(rest)[i]) is None);
    }
}

/// A line that opens with a semicolon or a bracket says nothing, and neither does one
/// without an equals sign.
pub proof fn comments_and_headers_say_nothing(raw: Seq<char>)
    requires
        raw.len() > 0,
        !is_white(raw[0]),
        !is_white(raw.last()),
    ensures
        raw[0] == ';' || raw[0] == '[' ==> line_entry(raw) is None,
        (forall|i: int| 0 <= i < raw.len() ==> #[trigger] raw[i] != '=') ==> line_entry(raw) is None,
        line_entry(Seq::empty()) is None,
{
    assert(trim_spec(raw) == raw);
    if forall|i: int| 0 <= i < raw.len() ==> #[trigger] raw[i] != '=' {
        parts_end_at_the_first_occurrence(raw, '=', Seq::empty());
    }
    assert(trim_spec(Seq::<char>::empty()).len() == 0);
}

/// A playing time is written as its minutes, a colon and two digits of seconds, so that
/// both together tell the whole seconds.
pub proof fn durations_tell_their_seconds(secs: nat)
    ensures
        ({
            let text = duration_text(secs);
            let n = text.len() as int;
            &&& n >= 4
            &&& text[n - 3] == ':'
            &&& 60 * decimal_value(text.take(n - 3)) + decimal_value(text.skip(n - 2)) == secs
            &&& decimal_value(text.skip(n - 2)) < 60
            &&& forall|i: int|
                0 <= i < n && i != n - 3 ==> is_decimal(#[trigger] text[i])
        }),
{
    let m = numeral(secs / 60, 10);
    let s = numeral(secs % 60, 10);
    let p = pad_left(s, 2, '0');
    numerals_are_read_back(secs / 60);
    numerals_are_read_back(secs % 60);
    assert(s.len() <= 2) by {
        reveal_with_fuel(numeral, 3);
    }
    let text = duration_text(secs);
    let n = text.len() as int;
    assert(p.len() == 2);
    assert(text.take(n - 3) =~= m);
    assert(text.skip(n - 2) =~= p);
    if s.len() == 1 {
        assert(p =~= seq!['0', s[0]]);
        assert(p.drop_last() =~= seq!['0']);
        assert(seq!['0'].drop_last() =~= Seq::<char>::empty());
        assert(s.drop_last() =~= Seq::<char>::empty());
        reveal_with_fuel(decimal_value, 3);
        assert(decimal_value(p) == decimal_value(s));
    } else {
        assert(p =~= s);
    }
    assert forall|i: int| 0 <= i < n && i != n - 3 implies is_decimal(#[trigger] text[i]) by {
        if i < n - 3 {
            assert(text[i] == m[i]);
        } else {
            assert(text[i] == p[i - (n - 2)]);
            if s.len() == 1 && i == n - 2 {
                assert(p[0] == '0');
            } else {
                assert(is_decimal(s[s.len() - (n - i)]));
                assert(p[i - (n - 2)] == s[s.len() - (n - i)]);
            }
        }
    }
}

} // verus!
