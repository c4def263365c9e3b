//! The SID Tune Information List: comments and credits per tune.

use crate::chars::{
    from_chars, is_white, lines, lines_spec, starts_with, to_chars, trim, trim_end, trim_end_spec,
    trim_spec, trim_start, trim_start_bound, trim_start_spec, views,
};
use crate::header::SubtuneIndex;
use crate::numerals::{
    numeral, numerals_are_read_back, parse_unsigned, push_slice, unsigned_value,
    written_numbers_are_read_back,
};
use vstd::hash_map::StringHashMap;
use vstd::prelude::*;
use vstd::slice::slice_subrange;

verus! {

/// A tune's path in the collection, with a leading slash.
#[derive(Debug, Clone)]
#[must_use]
pub struct StilPath(pub String);

/// What a field tells about a tune.
#[derive(Debug, Clone, Copy, PartialEq, Eq, Structural)]
pub enum StilFieldKind {
    Name,
    Title,
    Artist,
    Author,
    Comment,
    Bug,
}

/// One field, for the whole tune or for one subtune.
#[derive(Debug, Clone)]
#[must_use]
pub struct StilField {
    pub subtune: Option<SubtuneIndex>,
    pub kind: StilFieldKind,
    pub value: String,
}

/// The fields of one tune.
#[derive(Debug, Clone)]
#[must_use]
pub struct StilEntry {
    pub path: StilPath,
    pub fields: Vec<StilField>,
}

/// All entries, found by path.
pub struct StilDatabase {
    entries: Vec<StilEntry>,
    index: StringHashMap<usize>,
}

/// A field as plain values.
pub struct FieldView {
    pub subtune: Option<SubtuneIndex>,
    pub kind: StilFieldKind,
    pub value: Seq<char>,
}

impl StilField {
    /// The field as plain values.
    pub open spec fn view(self) -> FieldView {
        FieldView { subtune: self.subtune, kind: self.kind, value: self.value@ }
    }
}

/// Fields as plain values.
pub open spec fn field_views(fields: Seq<StilField>) -> Seq<FieldView> {
    fields.map_values(|f: StilField| f.view())
}

impl StilDatabase {
    /// The fields of every listed path.
    pub closed spec fn view(self) -> Map<Seq<char>, Seq<FieldView>> {
        self.index@.map_values(|i: usize| field_views(self.entries@[i as int].fields@))
    }

    /// Every path has one entry, and the index leads to it.
    pub closed spec fn wf(self) -> bool {
        &&& forall|i: int|
            0 <= i < self.entries@.len() ==> self.index@.dom().contains(
                (#[trigger] self.entries@[i]).path.0@,
            ) && self.index@[self.entries@[i].path.0@] == i
        &&& forall|k: Seq<char>| #[trigger]
            self.index@.dom().contains(k) ==> self.index@[k] < self.entries@.len()
                && self.entries@[self.index@[k] as int].path.0@ == k
    }
}

/// The text with every backslash turned into a slash.
pub open spec fn slashed(s: Seq<char>) -> Seq<char> {
    s.map_values(
        |c: char|
            if c == '\\' {
                '/'
            } else {
                c
            },
    )
}

/// A path in the form of the list: trimmed, with slashes, and one in front.
pub open spec fn normal_path(path: Seq<char>) -> Seq<char> {
    let s = slashed(trim_spec(path));
    if s.len() > 0 && s[0] == '/' {
        s
    } else {
        seq!['/'] + s
    }
}

/// The subtune that a line such as `(#2)` selects.
pub open spec fn subtune_marker(line: Seq<char>) -> Option<SubtuneIndex> {
    if "(#"@.is_prefix_of(line) && line.len() > 2 && line.last() == ')' {
        match unsigned_value(line.subrange(2, line.len() - 1), 0xFFFF) {
            Some(v) => if v > 0 {
                Some(SubtuneIndex(v as u16))
            } else {
                None
            },
            None => None,
        }
    } else {
        None
    }
}

/// The label that opens a field of the given kind.
pub open spec fn field_label(kind: StilFieldKind) -> Seq<char> {
    match kind {
        StilFieldKind::Name => "NAME:"@,
        StilFieldKind::Title => "TITLE:"@,
        StilFieldKind::Artist => "ARTIST:"@,
        StilFieldKind::Author => "AUTHOR:"@,
        StilFieldKind::Comment => "COMMENT:"@,
        StilFieldKind::Bug => "BUG:"@,
    }
}

/// The kind of the field that a line opens.
pub open spec fn line_kind(line: Seq<char>) -> Option<StilFieldKind> {
    if field_label(StilFieldKind::Name).is_prefix_of(line) {
        Some(StilFieldKind::Name)
    } else if field_label(StilFieldKind::Title).is_prefix_of(line) {
        Some(StilFieldKind::Title)
    } else if field_label(StilFieldKind::Artist).is_prefix_of(line) {
        Some(StilFieldKind::Artist)
    } else if field_label(StilFieldKind::Author).is_prefix_of(line) {
        Some(StilFieldKind::Author)
    } else if field_label(StilFieldKind::Comment).is_prefix_of(line) {
        Some(StilFieldKind::Comment)
    } else if field_label(StilFieldKind::Bug).is_prefix_of(line) {
        Some(StilFieldKind::Bug)
    } else {
        None
    }
}

/// The value of a field that a line opens: what follows the label.
pub open spec fn line_value(line: Seq<char>, kind: StilFieldKind) -> Seq<char> {
    trim_start_spec(line.skip(field_label(kind).len() as int))
}

/// What has been read of a list: the finished entries, and the path, subtune
/// and fields of the entry that is still open.
pub struct ListState {
    pub entries: Map<Seq<char>, Seq<FieldView>>,
    pub path: Option<Seq<char>>,
    pub subtune: Option<SubtuneIndex>,
    pub fields: Seq<FieldView>,
}

impl ListState {
    /// Nothing read yet.
    pub open spec fn start() -> ListState {
        ListState { entries: Map::empty(), path: None, subtune: None, fields: Seq::empty() }
    }

    /// The entries, the open one included. A later entry for a path replaces
    /// an earlier one.
    pub open spec fn finish(self) -> Map<Seq<char>, Seq<FieldView>> {
        match self.path {
            Some(p) => self.entries.insert(p, self.fields),
            None => self.entries,
        }
    }

    /// Reads one line.
    pub open spec fn step(self, raw: Seq<char>) -> ListState {
        let line = trim_end_spec(raw);
        let text = trim_spec(line);
        if line.len() > 0 && line[0] == '/' {
            ListState {
                entries: self.finish(),
                path: Some(normal_path(line)),
                subtune: None,
                fields: Seq::empty(),
            }
        } else if self.path is None || "#"@.is_prefix_of(trim_start_spec(line)) {
            self
        } else if subtune_marker(text) is Some {
            ListState { subtune: subtune_marker(text), ..self }
        } else if line_kind(text) is Some {
            let kind = line_kind(text)->Some_0;
            ListState {
                fields: self.fields.push(
                    FieldView { subtune: self.subtune, kind, value: line_value(text, kind) },
                ),
                ..self
            }
        } else if text.len() > 0 && self.fields.len() > 0 {
            let last = self.fields.last();
            ListState {
                fields: self.fields.drop_last().push(
                    FieldView { value: last.value + seq!['\n'] + text, ..last },
                ),
                ..self
            }
        } else {
            self
        }
    }

    /// Reads lines one after the other.
    pub open spec fn read(lines: Seq<Seq<char>>) -> ListState
        decreases lines.len(),
    {
        if lines.len() == 0 {
            ListState::start()
        } else {
            ListState::read(lines.drop_last()).step(lines.last())
        }
    }
}

/// The entries of a list text.
pub open spec fn list_entries(contents: Seq<char>) -> Map<Seq<char>, Seq<FieldView>> {
    ListState::read(lines_spec(contents)).finish()
}

/// Whether a path ends in a slash and the file name.
pub open spec fn names_file(path: Seq<char>, file_name: Seq<char>) -> bool {
    (seq!['/'] + file_name).is_suffix_of(path)
}

fn normalize_path(path: &[char]) -> (r: Vec<char>)
    ensures
        r@ == normal_path(path@),
{
    let t: &[char] = trim(path);
    let mut out: Vec<char> = Vec::new();
    if t.len() == 0 || (t[0] != '/' && t[0] != '\\') {
        out.push('/');
    }
    let ghost front = out@;
    let mut i: usize = 0;
    while i < t.len()
        invariant
            i <= t@.len(),
            out@ == front + slashed(t@).take(i as int),
        decreases t@.len() - i,
    {
        if t[i] == '\\' {
            out.push('/');
        } else {
            out.push(t[i]);
        }
        i += 1;
        assert(out@ =~= front + slashed(t@).take(i as int));
    }
    assert(out@ =~= normal_path(path@));
    out
}

fn parse_subtune_marker(line: &[char]) -> (r: Option<SubtuneIndex>)
    ensures
        r == subtune_marker(line@),
{
    if !starts_with(line, "(#") {
        return None;
    }
    proof {
        reveal_strlit("(#");
    }
    if line.len() < 3 || line[line.len() - 1] != ')' {
        return None;
    }
    match parse_unsigned(slice_subrange(line, 2, line.len() - 1), 0xFFFF) {
        Some(v) => if v > 0 {
            Some(SubtuneIndex(v as u16))
        } else {
            None
        },
        None => None,
    }
}

fn parse_field_kind(line: &[char]) -> (r: Option<(StilFieldKind, usize)>)
    ensures
        match r {
            Some(f) => line_kind(line@) == Some(f.0) && f.1 == field_label(f.0).len() && f.1
                <= line@.len(),
            None => line_kind(line@) is None,
        },
{
    proof {
        reveal_strlit("NAME:");
        reveal_strlit("TITLE:");
        reveal_strlit("ARTIST:");
        reveal_strlit("AUTHOR:");
        reveal_strlit("COMMENT:");
        reveal_strlit("BUG:");
    }
    if starts_with(line, "NAME:") {
        Some((StilFieldKind::Name, 5))
    } else if starts_with(line, "TITLE:") {
        Some((StilFieldKind::Title, 6))
    } else if starts_with(line, "ARTIST:") {
        Some((StilFieldKind::Artist, 7))
    } else if starts_with(line, "AUTHOR:") {
        Some((StilFieldKind::Author, 7))
    } else if starts_with(line, "COMMENT:") {
        Some((StilFieldKind::Comment, 8))
    } else if starts_with(line, "BUG:") {
        Some((StilFieldKind::Bug, 4))
    } else {
        None
    }
}

fn continue_field(fields: &mut Vec<StilField>, text: &[char])
    ensures
        old(fields)@.len() == 0 ==> final(fields)@ == old(fields)@,
        old(fields)@.len() > 0 ==> field_views(final(fields)@) == field_views(
            old(fields)@,
        ).drop_last().push(
            (FieldView {
                value: old(fields)@.last().value@ + seq!['\n'] + text@,
                ..old(fields)@.last().view()
            }),
        ),
{
    let ghost before = fields@;
    if let Some(mut field) = fields.pop() {
        let ghost was = field;
        let mut value: Vec<char> = to_chars(field.value.as_str());
        value.push('\n');
        push_slice(&mut value, text);
        field.value = from_chars(value.as_slice());
        assert(field.value@ =~= was.value@ + seq!['\n'] + text@);
        fields.push(field);
        assert(field_views(fields@) =~= field_views(before).drop_last().push(field.view()));
    }
}

impl StilDatabase {
    fn insert_entry(&mut self, path: &[char], fields: Vec<StilField>)
        requires
            old(self).wf(),
        ensures
            final(self).wf(),
            final(self)@ == old(self)@.insert(path@, field_views(fields@)),
    {
        let key: String = from_chars(path);
        let ghost fv = field_views(fields@);
        let found: Option<usize> = match self.index.get(key.as_str()) {
            Some(i) => Some(*i),
            None => None,
        };
        let entry: StilEntry = StilEntry { path: StilPath(key.clone()), fields };
        match found {
            Some(i) => {
                self.entries[i] = entry;
                assert(self@ =~= old(self)@.insert(path@, fv));
            },
            None => {
                let i: usize = self.entries.len();
                self.index.insert(key, i);
                self.entries.push(entry);
                assert(self@ =~= old(self)@.insert(path@, fv));
            },
        }
    }

    fn empty() -> (r: StilDatabase)
        ensures
            r.wf(),
            r@ == Map::<Seq<char>, Seq<FieldView>>::empty(),
    {
        let r: StilDatabase = StilDatabase { entries: Vec::new(), index: StringHashMap::new() };
        assert(r@ =~= Map::empty());
        r
    }

    /// Reads a list.
    #[must_use]
    pub fn parse(contents: &str) -> (r: StilDatabase)
        ensures
            r.wf(),
            r@ == list_entries(contents@),
    {
        let all: Vec<char> = to_chars(contents);
        let list: Vec<Vec<char>> = lines(all.as_slice());
        let ghost seqs = lines_spec(contents@);
        let mut db: StilDatabase = StilDatabase::empty();
        let mut path: Option<Vec<char>> = None;
        let mut subtune: Option<SubtuneIndex> = None;
        let mut fields: Vec<StilField> = Vec::new();
        let mut i: usize = 0;
        assert(seqs.take(0) =~= Seq::<Seq<char>>::empty());
        assert(field_views(fields@) =~= Seq::empty());
        while i < list.len()
            invariant
                i <= list@.len(),
                seqs == views(list@),
                db.wf(),
                ({
                    let st = ListState::read(seqs.take(i as int));
                    &&& db@ == st.entries
                    &&& (match path {
                        Some(p) => st.path == Some(p@),
                        None => st.path is None && st.fields.len() == 0,
                    })
                    &&& subtune == st.subtune
                    &&& field_views(fields@) == st.fields
                }),
            decreases list@.len() - i,
        {
            let ghost st = ListState::read(seqs.take(i as int));
            let raw: &[char] = list[i].as_slice();
            assert(raw@ == seqs[i as int]);
            assert(seqs.take(i + 1).drop_last() =~= seqs.take(i as int));
            assert(ListState::read(seqs.take(i + 1)) == st.step(raw@));
            let line: &[char] = trim_end(raw);
            i += 1;
            if line.len() > 0 && line[0] == '/' {
                if let Some(p) = &path {
                    db.insert_entry(p.as_slice(), fields);
                }
                fields = Vec::new();
                assert(field_views(fields@) =~= Seq::empty());
                path = Some(normalize_path(line));
                subtune = None;
                continue;
            }
            if path.is_none() || starts_with(trim_start(line), "#") {
                continue;
            }
            let text: &[char] = trim(line);
            if let Some(marker) = parse_subtune_marker(text) {
                subtune = Some(marker);
                continue;
            }
            if let Some((kind, skip)) = parse_field_kind(text) {
                let value: &[char] = trim_start(slice_subrange(text, skip, text.len()));
                assert(text@.skip(skip as int) =~= text@.subrange(skip as int, text@.len() as int));
                let ghost before = fields@;
                let field: StilField = StilField { subtune, kind, value: from_chars(value) };
                fields.push(field);
                assert(field_views(fields@) =~= field_views(before).push(field.view()));
            } else if text.len() > 0 {
                let ghost before = fields@;
                continue_field(&mut fields, text);
                proof {
                    assert(field_views(before).len() == before.len());
                }
            }
        }
        assert(seqs.take(seqs.len() as int) =~= seqs);
        if let Some(p) = &path {
            db.insert_entry(p.as_slice(), fields);
        }
        db
    }

    /// Finds the entry of a path; failing that, the only entry with its file
    /// name.
    #[must_use]
    pub fn lookup<'a>(&'a self, path: &str, file_name: Option<&str>) -> (r: Option<&'a StilEntry>)
        requires
            self.wf(),
        ensures
            match r {
                Some(e) => {
                    &&& self@.dom().contains(e.path.0@)
                    &&& self@[e.path.0@] == field_views(e.fields@)
                    &&& e.path.0@ == normal_path(path@) || {
                        &&& !self@.dom().contains(normal_path(path@))
                        &&& file_name matches Some(f) && names_file(e.path.0@, f@) && forall|
                            k: Seq<char>,
                        | #[trigger]
                            self@.dom().contains(k) && names_file(k, f@) ==> k == e.path.0@
                    }
                },
                None => {
                    &&& !self@.dom().contains(normal_path(path@))
                    &&& file_name matches Some(f) ==> {
                        ||| forall|k: Seq<char>| #[trigger]
                            self@.dom().contains(k) ==> !names_file(k, f@)
                        ||| exists|j: Seq<char>, k: Seq<char>| #[trigger]
                            self@.dom().contains(j) && #[trigger] self@.dom().contains(k) && j != k
                                && names_file(j, f@) && names_file(k, f@)
                    }
                },
            },
    {
        let chars: Vec<char> = to_chars(path);
        let normalized: Vec<char> = normalize_path(chars.as_slice());
        let key: String = from_chars(normalized.as_slice());
        if let Some(i) = self.index.get(key.as_str()) {
            return Some(&self.entries[*i]);
        }
        let name: &str = match file_name {
            None => {
                return None;
            },
            Some(f) => f,
        };
        let mut suffix: Vec<char> = Vec::new();
        suffix.push('/');
        let file: Vec<char> = to_chars(name);
        push_slice(&mut suffix, file.as_slice());
        assert(suffix@ =~= seq!['/'] + name@);
        let mut found: Option<usize> = None;
        let mut i: usize = 0;
        while i < self.entries.len()
            invariant
                self.wf(),
                i <= self.entries@.len(),
                suffix@ == seq!['/'] + name@,
                file_name == Some(name),
                !self@.dom().contains(normal_path(path@)),
                match found {
                    Some(m) => m < i && names_file(self.entries@[m as int].path.0@, name@)
                        && forall|j: int|
                        0 <= j < i && j != m ==> !names_file(
                            (#[trigger] self.entries@[j]).path.0@,
                            name@,
                        ),
                    None => forall|j: int|
                        0 <= j < i ==> !names_file((#[trigger] self.entries@[j]).path.0@, name@),
                },
            decreases self.entries@.len() - i,
        {
            let candidate: Vec<char> = to_chars(self.entries[i].path.0.as_str());
            if ends_with(candidate.as_slice(), suffix.as_slice()) {
                if let Some(m) = found {
                    proof {
                        let a = self.entries@[m as int].path.0@;
                        let b = self.entries@[i as int].path.0@;
                        assert(self.index@.dom().contains(a) && self.index@.dom().contains(b));
                        assert(self@.dom().contains(a) && self@.dom().contains(b) && a != b);
                    }
                    return None;
                }
                found = Some(i);
            }
            i += 1;
        }
        match found {
            Some(m) => {
                let e: &StilEntry = &self.entries[m];
                proof {
                    assert(self.index@.dom().contains(e.path.0@));
                    assert forall|k: Seq<char>| #[trigger]
                        self@.dom().contains(k) && names_file(k, name@) implies k == e.path.0@ by {
                        assert(self.index@.dom().contains(k));
                        let j = self.index@[k] as int;
                        assert(self.entries@[j].path.0@ == k);
                    }
                }
                Some(e)
            },
            None => {
                proof {
                    assert forall|k: Seq<char>| #[trigger]
                        self@.dom().contains(k) implies !names_file(k, name@) by {
                        assert(self.index@.dom().contains(k));
                        let j = self.index@[k] as int;
                        assert(self.entries@[j].path.0@ == k);
                    }
                }
                None
            },
        }
    }

    /// How many paths are listed.
    #[must_use]
    pub fn len(&self) -> (r: usize)
        requires
            self.wf(),
        ensures
            self@.dom().finite(),
            r == self@.dom().len(),
    {
        proof {
            self.count_entries(self.entries@.len() as int);
            let all = Set::new(
                |k: Seq<char>|
                    exists|i: int|
                        0 <= i < self.entries@.len() && (#[trigger] self.entries@[i]).path.0@ == k,
            );
            assert(self@.dom() =~= all) by {
                assert forall|k: Seq<char>| self@.dom().contains(k) implies all.contains(k) by {
                    assert(self.index@.dom().contains(k));
                    let j = self.index@[k] as int;
                    assert(self.entries@[j].path.0@ == k);
                }
            }
        }
        self.entries.len()
    }

    /// Whether no path is listed.
    #[must_use]
    pub fn is_empty(&self) -> (r: bool)
        requires
            self.wf(),
        ensures
            r == (self@.dom() =~= Set::empty()),
    {
        proof {
            if self.entries@.len() > 0 {
                assert(self.index@.dom().contains(self.entries@[0].path.0@));
                assert(self@.dom().contains(self.entries@[0].path.0@));
            } else {
                assert forall|k: Seq<char>| !self@.dom().contains(k) by {
                    if self@.dom().contains(k) {
                        assert(self.index@.dom().contains(k));
                    }
                }
            }
        }
        self.entries.len() == 0
    }

    proof fn count_entries(self, n: int)
        requires
            self.wf(),
            0 <= n <= self.entries@.len(),
        ensures
            ({
                let first = Set::new(
                    |k: Seq<char>|
                        exists|i: int|
                            0 <= i < n && (#[trigger] self.entries@[i]).path.0@ == k,
                );
                first.finite() && first.len() == n
            }),
        decreases n,
    {
        let first = Set::new(
            |k: Seq<char>|
                exists|i: int| 0 <= i < n && (#[trigger] self.entries@[i]).path.0@ == k,
        );
        if n == 0 {
            assert(first =~= Set::empty());
        } else {
            self.count_entries(n - 1);
            let before = Set::new(
                |k: Seq<char>|
                    exists|i: int| 0 <= i < n - 1 && (#[trigger] self.entries@[i]).path.0@ == k,
            );
            let last = self.entries@[n - 1].path.0@;
            assert(!before.contains(last));
            assert(first =~= before.insert(last)) by {
                assert forall|k: Seq<char>| before.insert(last).contains(k) implies first.contains(
                    k,
                ) by {
                    if k == last {
                        assert(self.entries@[n - 1].path.0@ == k);
                    }
                }
            }
        }
    }
}

impl Default for StilDatabase {
    fn default() -> (r: StilDatabase)
        ensures
            r.wf(),
            r@ == Map::<Seq<char>, Seq<FieldView>>::empty(),
    {
        StilDatabase::empty()
    }
}

fn ends_with(s: &[char], suffix: &[char]) -> (r: bool)
    ensures
        r == suffix@.is_suffix_of(s@),
{
    if suffix.len() > s.len() {
        return false;
    }
    let end: usize = s.len();
    let start: usize = end - suffix.len();
    let mut i: usize = 0;
    while i < suffix.len()
        invariant
            i <= suffix@.len() <= s@.len(),
            end == s@.len(),
            start == end - suffix@.len(),
            forall|j: int| 0 <= j < i ==> s@[start + j] == suffix@[j],
        decreases suffix@.len() - i,
    {
        if s[start + i] != suffix[i] {
            assert(s@.subrange(start as int, s@.len() as int)[i as int] != suffix@[i as int]);
            return false;
        }
        i += 1;
    }
    assert(s@.subrange(start as int, s@.len() as int) =~= suffix@);
    true
}

proof fn trim_end_bound(s: Seq<char>)
    ensures
        trim_end_spec(s).len() <= s.len(),
        trim_end_spec(s).len() > 0 ==> !is_white(trim_end_spec(s).last()) && trim_end_spec(s)[0]
            == s[0],
    decreases s.len(),
{
    if s.len() > 0 && is_white(s.last()) {
        trim_end_bound(s.drop_last());
    }
}

/// A normalized path is in its final form: normalizing it again changes
/// nothing.
pub proof fn normal_path_is_idempotent(path: Seq<char>)
    ensures
        normal_path(normal_path(path)) == normal_path(path),
        normal_path(path).len() > 0,
        normal_path(path)[0] == '/',
{
    let t = trim_spec(path);
    let n = normal_path(path);
    trim_start_bound(path);
    trim_end_bound(trim_start_spec(path));
    assert(n.last() == '/' || n.last() == t.last());
    assert(!is_white(n[0]) && !is_white(n.last()));
    assert(trim_spec(n) == n);
    assert(slashed(n) =~= n);
}

proof fn read_paths_are_normal(lines: Seq<Seq<char>>, k: Seq<char>)
    ensures
        ListState::read(lines).path == Some(k) ==> normal_path(k) == k,
        ListState::read(lines).entries.dom().contains(k) ==> normal_path(k) == k,
    decreases lines.len(),
{
    if lines.len() > 0 {
        read_paths_are_normal(lines.drop_last(), k);
        normal_path_is_idempotent(trim_end_spec(lines.last()));
    }
}

/// Every listed path is normalized, so that looking it up as it is listed finds
/// its own entry.
pub proof fn listed_paths_are_normal(contents: Seq<char>, path: Seq<char>)
    requires
        list_entries(contents).dom().contains(path),
    ensures
        normal_path(path) == path,
{
    read_paths_are_normal(lines_spec(contents), path);
}

/// A subtune is marked by its number in brackets behind a hash sign; there is no subtune
/// zero.
pub proof fn markers_name_their_subtune(n: nat)
    ensures
        subtune_marker("(#"@ + numeral(n, 10) + ")"@) == (if 0 < n <= 0xFFFF {
            Some(SubtuneIndex(n as u16))
        } else {
            None
        }),
{
    reveal_strlit("(#");
    reveal_strlit(")");
    written_numbers_are_read_back(n, 0xFFFF);
    let s = numeral(n, 10);
    let line = "(#"@ + s + ")"@;
    assert("(#"@.is_prefix_of(line)) by {
        assert(line.subrange(0, 2) =~= "(#"@);
    }
    assert(line.subrange(2, line.len() - 1) =~= s);
    assert(line.last() == ')');
    numerals_are_read_back(n);
}

/// A path opens an entry: what was open is finished under its own path, and the new one
/// starts without fields and without a subtune.
pub proof fn paths_open_an_entry(lines: Seq<Seq<char>>, raw: Seq<char>)
    requires
        raw.len() > 0,
        raw[0] == '/',
        !is_white(raw.last()),
        forall|i: int| 0 <= i < raw.len() ==> #[trigger] raw[i] != '\\',
    ensures
        ({
            let before = ListState::read(lines);
            let after = ListState::read(lines.push(raw));
            &&& after.path == Some(raw)
            &&& after.subtune is None
            &&& after.fields.len() == 0
            &&& before.path is None ==> after.entries == before.entries
            &&& before.path is Some ==> after.entries == before.entries.insert(
                before.path->0,
                before.fields,
            )
            &&& after.finish().dom().contains(raw)
            &&& after.finish()[raw] == Seq::<FieldView>::empty()
        }),
{
    assert(lines.push(raw).drop_last() =~= lines);
    assert(trim_end_spec(raw) == raw);
    assert(!is_white(raw[0]));
    assert(trim_spec(raw) == raw);
    assert(slashed(raw) =~= raw);
    assert(ListState::read(lines.push(raw)).fields =~= Seq::<FieldView>::empty());
}

/// Whether a text is one of the list's labels and a value behind it.
pub open spec fn labelled(text: Seq<char>, kind: StilFieldKind, value: Seq<char>) -> bool {
    match kind {
        StilFieldKind::Name => text == "NAME: "@ + value,
        StilFieldKind::Title => text == "TITLE: "@ + value,
        StilFieldKind::Artist => text == "ARTIST: "@ + value,
        StilFieldKind::Author => text == "AUTHOR: "@ + value,
        StilFieldKind::Comment => text == "COMMENT: "@ + value,
        StilFieldKind::Bug => text == "BUG: "@ + value,
    }
}

proof fn labels_are_told_apart(text: Seq<char>, kind: StilFieldKind, value: Seq<char>)
    requires
        labelled(text, kind, value),
        value.len() > 0,
        !is_white(value[0]),
        !is_white(value.last()),
    ensures
        line_kind(text) == Some(kind),
        line_value(text, kind) == value,
        text.len() > 0,
        text[0] != '(',
        text[0] != '#',
        text[0] != '/',
        !is_white(text[0]),
        text.last() == value.last(),
{
    reveal_strlit("NAME:");
    reveal_strlit("TITLE:");
    reveal_strlit("ARTIST:");
    reveal_strlit("AUTHOR:");
    reveal_strlit("COMMENT:");
    reveal_strlit("BUG:");
    reveal_strlit("NAME: ");
    reveal_strlit("TITLE: ");
    reveal_strlit("ARTIST: ");
    reveal_strlit("AUTHOR: ");
    reveal_strlit("COMMENT: ");
    reveal_strlit("BUG: ");
    let label = field_label(kind);
    let n = label.len() as int;
    assert(text.subrange(0, n) =~= label);
    assert(label.is_prefix_of(text));
    assert(text.skip(n) =~= seq![' '] + value);
    assert((seq![' '] + value).drop_first() =~= value);
    assert(is_white((seq![' '] + value)[0]));
    assert(trim_start_spec(value) == value);
    assert(trim_start_spec(seq![' '] + value) == value);
    assert forall|other: StilFieldKind| other != kind implies !(
    #[trigger] field_label(other)).is_prefix_of(text) by {
        let m = field_label(other).len() as int;
        if field_label(other).is_prefix_of(text) {
            let cut = text.subrange(0, m);
            assert(cut == field_label(other));
            assert(cut[0] == text[0] && cut[1] == text[1]);
            assert(field_label(other)[0] == label[0] && field_label(other)[1] == label[1]);
        }
    }
}

/// A labelled line of an entry adds a field with its value, for the subtune that was marked
/// last, and changes nothing else.
pub proof fn labelled_lines_are_fields(
    lines: Seq<Seq<char>>,
    raw: Seq<char>,
    kind: StilFieldKind,
    value: Seq<char>,
)
    requires
        ListState::read(lines).path is Some,
        labelled(raw, kind, value),
        value.len() > 0,
        !is_white(value[0]),
        !is_white(value.last()),
    ensures
        ({
            let before = ListState::read(lines);
            let after = ListState::read(lines.push(raw));
            &&& after.fields == before.fields.push(
                FieldView { subtune: before.subtune, kind, value },
            )
            &&& after.path == before.path
            &&& after.subtune == before.subtune
            &&& after.entries == before.entries
        }),
{
    labels_are_told_apart(raw, kind, value);
    unmarked_lines_stay(raw);
    field_line_steps(ListState::read(lines), raw, kind, value);
    assert(lines.push(raw).drop_last() =~= lines);
    assert(lines.push(raw).last() == raw);
}

proof fn unmarked_lines_stay(raw: Seq<char>)
    requires
        raw.len() > 0,
        raw[0] != '(',
        raw[0] != '#',
        !is_white(raw[0]),
        !is_white(raw.last()),
    ensures
        trim_end_spec(raw) == raw,
        trim_start_spec(raw) == raw,
        trim_spec(raw) == raw,
        !"#"@.is_prefix_of(raw),
        subtune_marker(raw) is None,
{
    reveal_strlit("#");
    reveal_strlit("(#");
    if "#"@.is_prefix_of(raw) {
        assert(raw.subrange(0, 1)[0] == "#"@[0]);
    }
    if "(#"@.is_prefix_of(raw) {
        assert(raw.subrange(0, 2)[0] == "(#"@[0]);
    }
}

proof fn field_line_steps(st: ListState, raw: Seq<char>, kind: StilFieldKind, value: Seq<char>)
    requires
        st.path is Some,
        raw.len() > 0,
        raw[0] != '/',
        trim_end_spec(raw) == raw,
        trim_start_spec(raw) == raw,
        trim_spec(raw) == raw,
        !"#"@.is_prefix_of(raw),
        subtune_marker(raw) is None,
        line_kind(raw) == Some(kind),
        line_value(raw, kind) == value,
    ensures
        st.step(raw) == (ListState {
            fields: st.fields.push(FieldView { subtune: st.subtune, kind, value }),
            ..st
        }),
{
}

/// A path is normal if it begins with a slash and has no backslash and no white space
/// around it; a backslash stands for a slash, and a missing slash in front is put there.
pub proof fn paths_are_brought_into_one_form(path: Seq<char>)
    requires
        path.len() > 0,
        !is_white(path[0]),
        !is_white(path.last()),
        forall|i: int| 0 <= i < path.len() ==> #[trigger] path[i] != '\\',
    ensures
        path[0] == '/' ==> normal_path(path) == path,
        path[0] != '/' ==> normal_path(path) == seq!['/'] + path,
        normal_path(seq!['\\'] + path) == seq!['/'] + path,
        normal_path(seq![' '] + path + seq![' ']) == normal_path(path),
{
    assert(trim_spec(path) == path);
    assert(slashed(path) =~= path);
    let back = seq!['\\'] + path;
    assert(back[0] == '\\' && back.last() == path.last());
    assert(trim_spec(back) == back);
    assert(slashed(back) =~= seq!['/'] + path);
    let spaced = seq![' '] + path + seq![' '];
    assert(spaced[0] == ' ');
    assert(spaced.drop_first() =~= path + seq![' ']);
    assert((path + seq![' '])[0] == path[0]);
    assert(trim_start_spec(path + seq![' ']) == path + seq![' ']);
    assert(trim_start_spec(spaced) == path + seq![' ']);
    assert((path + seq![' ']).last() == ' ');
    assert((path + seq![' ']).drop_last() =~= path);
    assert(trim_end_spec(path) == path);
    assert(trim_end_spec(path + seq![' ']) == path);
}

} // verus!
