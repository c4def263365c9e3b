//! Operations on character sequences.
//!
//! Text is handled as `&[char]` slices, whose view is a `Seq<char>`, so that
//! every operation is stated over plain sequences.

use vstd::prelude::*;
use vstd::slice::slice_subrange;

verus! {

/// `String::push` appends one character at the end of the text.
pub assume_specification[ String::push ](s: &mut String, c: char)
    ensures
        final(s)@ == old(s)@.push(c),
;

/// Characters with the Unicode `White_Space` property.
pub open spec fn is_white(c: char) -> bool {
    ||| '\u{9}' <= c <= '\u{d}'
    ||| c == ' '
    ||| c == '\u{85}'
    ||| c == '\u{a0}'
    ||| c == '\u{1680}'
    ||| '\u{2000}' <= c <= '\u{200a}'
    ||| c == '\u{2028}'
    ||| c == '\u{2029}'
    ||| c == '\u{202f}'
    ||| c == '\u{205f}'
    ||| c == '\u{3000}'
}

/// Tests a character for the `White_Space` property.
pub fn white(c: char) -> (r: bool)
    ensures
        r == is_white(c),
{
    ('\u{9}' <= c && c <= '\u{d}') || c == ' ' || c == '\u{85}' || c == '\u{a0}' || c == '\u{1680}'
        || ('\u{2000}' <= c && c <= '\u{200a}') || c == '\u{2028}' || c == '\u{2029}' || c
        == '\u{202f}' || c == '\u{205f}' || c == '\u{3000}'
}

/// The characters of a text.
pub fn to_chars(s: &str) -> (r: Vec<char>)
    ensures
        r@ == s@,
{
    let mut out: Vec<char> = Vec::new();
    for c in it: s.chars()
        invariant
            out@ == it.seq().take(it.index()),
            it.seq() == s@,
    {
        out.push(c);
    }
    out
}

/// The text made of the given characters.
pub fn from_chars(v: &[char]) -> (r: String)
    ensures
        r@ == v@,
{
    let mut out: String = String::new();
    let mut i: usize = 0;
    while i < v.len()
        invariant
            i <= v@.len(),
            out@ == v@.take(i as int),
        decreases v@.len() - i,
    {
        out.push(v[i]);
        i += 1;
        assert(v@.take(i as int) =~= v@.take(i - 1).push(v@[i - 1]));
    }
    assert(v@.take(v@.len() as int) =~= v@);
    out
}

/// Whether a slice holds exactly the characters of a text.
pub fn same_chars(v: &[char], s: &str) -> (r: bool)
    ensures
        r == (v@ == s@),
{
    let t: Vec<char> = to_chars(s);
    equal_chars(v, t.as_slice())
}

/// Whether two slices hold the same characters.
pub fn equal_chars(v: &[char], t: &[char]) -> (r: bool)
    ensures
        r == (v@ == t@),
{
    if v.len() != t.len() {
        return false;
    }
    let mut i: usize = 0;
    while i < v.len()
        invariant
            i <= v@.len(),
            v@.len() == t@.len(),
            forall|j: int| 0 <= j < i ==> v@[j] == t@[j],
        decreases v@.len() - i,
    {
        if v[i] != t[i] {
            return false;
        }
        i += 1;
    }
    assert(v@ =~= t@);
    true
}

/// The sequence without its leading white space.
pub open spec fn trim_start_spec(s: Seq<char>) -> Seq<char>
    decreases s.len(),
{
    if s.len() > 0 && is_white(s[0]) {
        trim_start_spec(s.drop_first())
    } else {
        s
    }
}

/// The sequence without its trailing white space.
pub open spec fn trim_end_spec(s: Seq<char>) -> Seq<char>
    decreases s.len(),
{
    if s.len() > 0 && is_white(s.last()) {
        trim_end_spec(s.drop_last())
    } else {
        s
    }
}

/// The sequence without leading and trailing white space.
pub open spec fn trim_spec(s: Seq<char>) -> Seq<char> {
    trim_end_spec(trim_start_spec(s))
}

/// Drops leading white space.
pub fn trim_start(s: &[char]) -> (r: &[char])
    ensures
        r@ == trim_start_spec(s@),
{
    let mut i: usize = 0;
    assert(s@.skip(0) =~= s@);
    while i < s.len() && white(s[i])
        invariant
            i <= s@.len(),
            trim_start_spec(s@) == trim_start_spec(s@.skip(i as int)),
        decreases s@.len() - i,
    {
        assert(s@.skip(i as int).drop_first() =~= s@.skip(i + 1));
        i += 1;
    }
    assert(s@.skip(i as int) =~= s@.subrange(i as int, s@.len() as int));
    slice_subrange(s, i, s.len())
}

/// Drops trailing white space.
pub fn trim_end(s: &[char]) -> (r: &[char])
    ensures
        r@ == trim_end_spec(s@),
{
    let mut i: usize = s.len();
    assert(s@.take(i as int) =~= s@);
    while i > 0 && white(s[i - 1])
        invariant
            i <= s@.len(),
            trim_end_spec(s@) == trim_end_spec(s@.take(i as int)),
        decreases i,
    {
        assert(s@.take(i as int).drop_last() =~= s@.take(i - 1));
        i -= 1;
    }
    assert(s@.take(i as int) =~= s@.subrange(0, i as int));
    slice_subrange(s, 0, i)
}

/// Drops leading and trailing white space.
pub fn trim(s: &[char]) -> (r: &[char])
    ensures
        r@ == trim_spec(s@),
{
    trim_end(trim_start(s))
}

/// How many leading characters differ from `c`.
pub open spec fn run_before(s: Seq<char>, c: char) -> nat
    decreases s.len(),
{
    if s.len() == 0 || s[0] == c {
        0
    } else {
        1 + run_before(s.drop_first(), c)
    }
}

/// The run before a character stays inside the sequence.
pub proof fn run_before_bound(s: Seq<char>, c: char)
    ensures
        run_before(s, c) <= s.len(),
    decreases s.len(),
{
    if s.len() > 0 && s[0] != c {
        run_before_bound(s.drop_first(), c);
    }
}

/// Finds the first occurrence of `c`, or the length if there is none.
pub fn find_char(s: &[char], c: char) -> (r: usize)
    ensures
        r == run_before(s@, c),
        r <= s@.len(),
        r < s@.len() ==> s@[r as int] == c,
{
    let mut i: usize = 0;
    assert(s@.skip(0) =~= s@);
    while i < s.len() && s[i] != c
        invariant
            i <= s@.len(),
            run_before(s@, c) == i + run_before(s@.skip(i as int), c),
        decreases s@.len() - i,
    {
        assert(s@.skip(i as int).drop_first() =~= s@.skip(i + 1));
        i += 1;
    }
    i
}

/// How many leading characters are not white space.
pub open spec fn word_run(s: Seq<char>) -> nat
    decreases s.len(),
{
    if s.len() == 0 || is_white(s[0]) {
        0
    } else {
        1 + word_run(s.drop_first())
    }
}

/// A word run stays inside the sequence.
pub proof fn word_run_bound(s: Seq<char>)
    ensures
        word_run(s) <= s.len(),
    decreases s.len(),
{
    if s.len() > 0 && !is_white(s[0]) {
        word_run_bound(s.drop_first());
    }
}

/// Trimming the start never lengthens a sequence, and leaves it empty or
/// beginning with a character that is no white space.
pub proof fn trim_start_bound(s: Seq<char>)
    ensures
        trim_start_spec(s).len() <= s.len(),
        trim_start_spec(s).len() > 0 ==> !is_white(trim_start_spec(s)[0]),
    decreases s.len(),
{
    if s.len() > 0 && is_white(s[0]) {
        trim_start_bound(s.drop_first());
    }
}

/// The maximal runs of characters between white space, in order.
pub open spec fn words_spec(s: Seq<char>) -> Seq<Seq<char>>
    decreases s.len(),
    via words_decreases
{
    let t = trim_start_spec(s);
    if t.len() == 0 {
        Seq::empty()
    } else {
        let n = word_run(t) as int;
        seq![t.take(n)] + words_spec(t.skip(n))
    }
}

#[via_fn]
proof fn words_decreases(s: Seq<char>) {
    let t = trim_start_spec(s);
    trim_start_bound(s);
    word_run_bound(t);
}

/// The views of a list of character vectors.
pub open spec fn views(v: Seq<Vec<char>>) -> Seq<Seq<char>> {
    v.map_values(|x: Vec<char>| x@)
}

/// Copies a slice of characters.
pub fn copy_chars(s: &[char]) -> (r: Vec<char>)
    ensures
        r@ == s@,
{
    let mut out: Vec<char> = Vec::new();
    let mut i: usize = 0;
    while i < s.len()
        invariant
            i <= s@.len(),
            out@ == s@.take(i as int),
        decreases s@.len() - i,
    {
        out.push(s[i]);
        i += 1;
    }
    out
}

/// Splits at white space.
pub fn words(s: &[char]) -> (r: Vec<Vec<char>>)
    ensures
        views(r@) == words_spec(s@),
{
    let mut out: Vec<Vec<char>> = Vec::new();
    let mut rest: &[char] = s;
    assert(views(out@) + words_spec(s@) =~= words_spec(s@));
    loop
        invariant
            views(out@) + words_spec(rest@) == words_spec(s@),
        ensures
            views(out@) == words_spec(s@),
        decreases rest@.len(),
    {
        let t: &[char] = trim_start(rest);
        proof {
            trim_start_bound(rest@);
            word_run_bound(t@);
        }
        if t.len() == 0 {
            assert(views(out@) + words_spec(rest@) =~= views(out@));
            break;
        }
        let mut n: usize = 0;
        assert(t@.skip(0) =~= t@);
        while n < t.len() && !white(t[n])
            invariant
                n <= t@.len(),
                word_run(t@) == n + word_run(t@.skip(n as int)),
            decreases t@.len() - n,
        {
            assert(t@.skip(n as int).drop_first() =~= t@.skip(n + 1));
            n += 1;
        }
        let word: Vec<char> = copy_chars(slice_subrange(t, 0, n));
        let ghost before = views(out@);
        assert(word@ =~= t@.take(n as int));
        out.push(word);
        assert(views(out@) =~= before.push(t@.take(n as int)));
        assert(t@.skip(n as int) =~= t@.subrange(n as int, t@.len() as int));
        assert(before.push(t@.take(n as int)) + words_spec(t@.skip(n as int)) =~= before + (seq![
            t@.take(n as int),
        ] + words_spec(t@.skip(n as int))));
        rest = slice_subrange(t, n, t.len());
    }
    out
}

/// The sequence without one trailing carriage return.
pub open spec fn strip_return(s: Seq<char>) -> Seq<char> {
    if s.len() > 0 && s.last() == '\r' {
        s.drop_last()
    } else {
        s
    }
}

/// The lines of a text: it is split at line feeds, a carriage return before a
/// line feed belongs to the line ending, and a final line ending opens no
/// further line.
pub open spec fn lines_spec(s: Seq<char>) -> Seq<Seq<char>>
    decreases s.len(),
    via lines_decreases
{
    if s.len() == 0 {
        Seq::empty()
    } else {
        let n = run_before(s, '\n') as int;
        if n >= s.len() {
            seq![s]
        } else {
            seq![strip_return(s.take(n))] + lines_spec(s.skip(n + 1))
        }
    }
}

#[via_fn]
proof fn lines_decreases(s: Seq<char>) {
    run_before_bound(s, '\n');
}

/// Splits a text into its lines.
pub fn lines(s: &[char]) -> (r: Vec<Vec<char>>)
    ensures
        views(r@) == lines_spec(s@),
{
    let mut out: Vec<Vec<char>> = Vec::new();
    let mut rest: &[char] = s;
    assert(views(out@) + lines_spec(s@) =~= lines_spec(s@));
    while rest.len() > 0
        invariant
            views(out@) + lines_spec(rest@) == lines_spec(s@),
        decreases rest@.len(),
    {
        let n: usize = find_char(rest, '\n');
        let ghost before = views(out@);
        if n == rest.len() {
            let line: Vec<char> = copy_chars(rest);
            out.push(line);
            assert(views(out@) =~= before.push(rest@));
            assert(before.push(rest@) + lines_spec(Seq::<char>::empty()) =~= before + seq![rest@]);
            rest = slice_subrange(rest, n, n);
            assert(rest@ =~= Seq::<char>::empty());
        } else {
            let mut end: usize = n;
            if n > 0 && rest[n - 1] == '\r' {
                end = n - 1;
            }
            let line: Vec<char> = copy_chars(slice_subrange(rest, 0, end));
            assert(line@ =~= strip_return(rest@.take(n as int)));
            out.push(line);
            assert(views(out@) =~= before.push(line@));
            assert(rest@.skip(n + 1) =~= rest@.subrange(n + 1, rest@.len() as int));
            assert(before.push(line@) + lines_spec(rest@.skip(n + 1)) =~= before + (seq![line@]
                + lines_spec(rest@.skip(n + 1))));
            rest = slice_subrange(rest, n + 1, rest.len());
        }
    }
    assert(views(out@) + lines_spec(rest@) =~= views(out@));
    out
}

/// Whether the characters of `p` begin the slice.
pub fn starts_with(s: &[char], p: &str) -> (r: bool)
    ensures
        r == p@.is_prefix_of(s@),
{
    let t: Vec<char> = to_chars(p);
    if t.len() > s.len() {
        return false;
    }
    let mut i: usize = 0;
    while i < t.len()
        invariant
            i <= t@.len() <= s@.len(),
            t@ == p@,
            forall|j: int| 0 <= j < i ==> s@[j] == t@[j],
        decreases t@.len() - i,
    {
        if s[i] != t[i] {
            assert(s@.subrange(0, t@.len() as int)[i as int] != t@[i as int]);
            return false;
        }
        i += 1;
    }
    assert(s@.subrange(0, t@.len() as int) =~= t@);
    true
}

/// Lower-case form of an ASCII letter; every other character is itself.
pub open spec fn ascii_lower(c: char) -> char {
    if 'A' <= c <= 'Z' {
        (c as int + 32) as char
    } else {
        c
    }
}

/// Lower-case form of an ASCII letter.
pub fn to_ascii_lower(c: char) -> (r: char)
    ensures
        r == ascii_lower(c),
{
    if 'A' <= c && c <= 'Z' {
        let b: u8 = c as u8;
        (b + 32) as char
    } else {
        c
    }
}

/// Equality up to the case of ASCII letters.
pub open spec fn same_ignoring_case(a: Seq<char>, b: Seq<char>) -> bool {
    a.len() == b.len() && forall|i: int|
        0 <= i < a.len() ==> ascii_lower(#[trigger] a[i]) == ascii_lower(b[i])
}

/// Compares up to the case of ASCII letters.
pub fn same_chars_ignoring_case(v: &[char], s: &str) -> (r: bool)
    ensures
        r == same_ignoring_case(v@, s@),
{
    let t: Vec<char> = to_chars(s);
    if v.len() != t.len() {
        return false;
    }
    let mut i: usize = 0;
    while i < v.len()
        invariant
            i <= v@.len(),
            v@.len() == t@.len(),
            t@ == s@,
            forall|j: int| 0 <= j < i ==> ascii_lower(#[trigger] v@[j]) == ascii_lower(t@[j]),
        decreases v@.len() - i,
    {
        if to_ascii_lower(v[i]) != to_ascii_lower(t[i]) {
            return false;
        }
        i += 1;
    }
    true
}

/// Whether a text is nothing but white space.
pub open spec fn is_blank(s: Seq<char>) -> bool {
    forall|i: int| 0 <= i < s.len() ==> is_white(#[trigger] s[i])
}

proof fn start_is_cut(s: Seq<char>) -> (n: int)
    ensures
        0 <= n <= s.len(),
        trim_start_spec(s) == s.skip(n),
        is_blank(s.take(n)),
        n < s.len() ==> !is_white(s[n]),
    decreases s.len(),
{
    if s.len() > 0 && is_white(s[0]) {
        let m = start_is_cut(s.drop_first());
        assert(s.drop_first().skip(m) =~= s.skip(m + 1));
        assert forall|i: int| 0 <= i < m + 1 implies is_white(#[trigger] s.take(m + 1)[i]) by {
            if i > 0 {
                assert(is_white(s.drop_first().take(m)[i - 1]));
            }
        }
        m + 1
    } else {
        assert(s.skip(0) =~= s);
        0
    }
}

proof fn end_is_cut(s: Seq<char>) -> (n: int)
    ensures
        0 <= n <= s.len(),
        trim_end_spec(s) == s.take(n),
        is_blank(s.skip(n)),
        n > 0 ==> !is_white(s[n - 1]),
    decreases s.len(),
{
    if s.len() > 0 && is_white(s.last()) {
        let m = end_is_cut(s.drop_last());
        assert(s.drop_last().take(m) =~= s.take(m));
        assert forall|i: int| 0 <= i < s.len() - m implies is_white(#[trigger] s.skip(m)[i]) by {
            if m + i < s.len() - 1 {
                assert(is_white(s.drop_last().skip(m)[i]));
            } else {
                assert(s.skip(m)[i] == s.last());
            }
        }
        m
    } else {
        assert(s.take(s.len() as int) =~= s);
        s.len() as int
    }
}

/// Trimming takes white space off both ends and nothing else: the text is what is left with
/// white space around it, and what is left neither begins nor ends with any.
pub proof fn trimming_takes_off_white_space(s: Seq<char>) -> (r: (Seq<char>, Seq<char>))
    ensures
        s == r.0 + trim_spec(s) + r.1,
        is_blank(r.0),
        is_blank(r.1),
        trim_spec(s).len() > 0 ==> !is_white(trim_spec(s)[0]) && !is_white(trim_spec(s).last()),
{
    let a = start_is_cut(s);
    let t = s.skip(a);
    let b = end_is_cut(t);
    let r = (s.take(a), t.skip(b));
    assert(s =~= r.0 + t.take(b) + r.1);
    if b > 0 {
        assert(t.take(b)[0] == s[a]);
    }
    r
}

proof fn word_run_is(s: Seq<char>, n: int)
    requires
        0 <= n <= s.len(),
        forall|i: int| 0 <= i < n ==> !is_white(#[trigger] s[i]),
        n < s.len() ==> is_white(s[n]),
    ensures
        word_run(s) == n,
    decreases s.len(),
{
    if n > 0 {
        assert(!is_white(s[0]));
        let t = s.drop_first();
        assert forall|i: int| 0 <= i < n - 1 implies !is_white(#[trigger] t[i]) by {
            assert(!is_white(s[i + 1]));
        }
        word_run_is(t, n - 1);
    }
}

/// A text is cut into words at its white space: a word in front of white space comes first,
/// and the words of the rest follow. White space in front of the first word is passed over,
/// and a text without any is a single word.
pub proof fn words_are_parted_by_white_space(word: Seq<char>, gap: char, rest: Seq<char>)
    requires
        word.len() > 0,
        forall|i: int| 0 <= i < word.len() ==> !is_white(#[trigger] word[i]),
        is_white(gap),
    ensures
        words_spec(word) == seq![word],
        words_spec(word + seq![gap] + rest) == seq![word] + words_spec(rest),
        words_spec(seq![gap] + rest) == words_spec(rest),
        words_spec(Seq::empty()) == Seq::<Seq<char>>::empty(),
{
    assert(!is_white(word[0]));
    word_run_is(word, word.len() as int);
    assert(word.take(word.len() as int) =~= word);
    assert(word.skip(word.len() as int) =~= Seq::empty());
    assert(words_spec(Seq::<char>::empty()) =~= Seq::empty());
    assert(words_spec(word) =~= seq![word]);
    let all = word + seq![gap] + rest;
    let n = word.len() as int;
    assert(all[0] == word[0]);
    assert forall|i: int| 0 <= i < n implies !is_white(#[trigger] all[i]) by {
        assert(all[i] == word[i]);
    }
    word_run_is(all, n);
    assert(all.take(n) =~= word);
    assert(all.skip(n) =~= seq![gap] + rest);
    assert((seq![gap] + rest).drop_first() =~= rest);
    assert((seq![gap] + rest)[0] == gap);
    assert(trim_start_spec(seq![gap] + rest) == trim_start_spec(rest));
    assert(words_spec(seq![gap] + rest) == words_spec(rest));
    assert(trim_start_spec(all) == all);
    assert(words_spec(all) == seq![all.take(n)] + words_spec(all.skip(n)));
}

proof fn run_before_is(s: Seq<char>, c: char, n: int)
    requires
        0 <= n <= s.len(),
        forall|i: int| 0 <= i < n ==> #[trigger] s[i] != c,
        n < s.len() ==> s[n] == c,
    ensures
        run_before(s, c) == n,
    decreases s.len(),
{
    if n > 0 {
        assert(s[0] != c);
        let t = s.drop_first();
        assert forall|i: int| 0 <= i < n - 1 implies #[trigger] t[i] != c by {
            assert(s[i + 1] != c);
        }
        run_before_is(t, c, n - 1);
    }
}

/// The part of a text in front of a character is what stands before its first occurrence,
/// or all of the text.
pub proof fn parts_end_at_the_first_occurrence(front: Seq<char>, c: char, rest: Seq<char>)
    requires
        forall|i: int| 0 <= i < front.len() ==> #[trigger] front[i] != c,
    ensures
        run_before(front, c) == front.len(),
        run_before(front + seq![c] + rest, c) == front.len(),
        (front + seq![c] + rest).take(front.len() as int) == front,
        (front + seq![c] + rest).skip(front.len() as int + 1) == rest,
{
    let all = front + seq![c] + rest;
    run_before_is(front, c, front.len() as int);
    assert forall|i: int| 0 <= i < front.len() implies #[trigger] all[i] != c by {
        assert(all[i] == front[i]);
    }
    run_before_is(all, c, front.len() as int);
    assert(all.take(front.len() as int) =~= front);
    assert(all.skip(front.len() as int + 1) =~= rest);
}

/// A text is cut into lines at its line feeds. A carriage return in front of a line feed is
/// not part of the line.
pub proof fn lines_are_parted_by_line_feeds(line: Seq<char>, rest: Seq<char>)
    requires
        forall|i: int| 0 <= i < line.len() ==> #[trigger] line[i] != '\n',
        line.len() > 0 ==> line.last() != '\r',
    ensures
        lines_spec(line + seq!['\n'] + rest) == seq![line] + lines_spec(rest),
        lines_spec(line + seq!['\r', '\n'] + rest) == seq![line] + lines_spec(rest),
        line.len() > 0 ==> lines_spec(line) == seq![line],
        lines_spec(Seq::empty()) == Seq::<Seq<char>>::empty(),
{
    parts_end_at_the_first_occurrence(line, '\n', rest);
    assert((line + seq!['\n'] + rest).len() > 0);
    let returned = line.push('\r');
    assert forall|i: int| 0 <= i < returned.len() implies #[trigger] returned[i] != '\n' by {
        if i < line.len() {
            assert(returned[i] == line[i]);
        }
    }
    parts_end_at_the_first_occurrence(returned, '\n', rest);
    assert(line + seq!['\r', '\n'] + rest =~= returned + seq!['\n'] + rest);
    assert(returned.drop_last() =~= line);
    assert(returned.last() == '\r');
    run_before_is(line, '\n', line.len() as int);
}

/// Letters are compared without their case, and nothing else is: a capital letter equals the
/// small one of its place in the alphabet.
pub proof fn case_is_ignored_for_letters_only(a: char, b: char)
    ensures
        same_ignoring_case(seq![a], seq![b]) <==> a == b || ('A' <= a <= 'Z' && b as int == a as int
            + 32) || ('A' <= b <= 'Z' && a as int == b as int + 32),
{
    let x = seq![a];
    let y = seq![b];
    assert(x[0] == a && y[0] == b);
    if same_ignoring_case(x, y) {
        assert(ascii_lower(x[0]) == ascii_lower(y[0]));
    }
}

} // verus!
