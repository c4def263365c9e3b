//! Playroutine identification by code signature.
//!
//! A signature database in the style of SIDId (by Cadaver of Covert Bitops,
//! with signatures contributed by the C64 scene) pairs each playroutine name
//! with byte patterns of its code. Its text is a list of tokens separated by
//! white space:
//!
//! - two hexadecimal digits are a byte that must match exactly;
//! - `??` matches any single byte;
//! - `AND` skips forward to the next place where the pattern goes on;
//! - `END` closes the current signature;
//! - anything else is a player name, whose alternative signatures follow.

use crate::chars::{
    from_chars, same_chars, same_chars_ignoring_case, same_ignoring_case, to_chars, views, words,
    words_spec,
};
use crate::numerals::{hex_value, parse_hex_digit};
use vstd::prelude::*;

verus! {

/// One token in a signature pattern.
#[derive(Debug, Clone, Copy, PartialEq, Eq, Structural)]
pub enum Token {
    /// A concrete byte that must match.
    Byte(u8),
    /// Matches any single byte.
    Any,
    /// Skips forward to the next place where the rest matches.
    And,
}

/// A single alternative pattern for a player.
#[derive(Debug, Clone)]
pub struct Signature {
    pub tokens: Vec<Token>,
}

/// A named playroutine with one or more alternative signatures.
#[derive(Debug, Clone)]
pub struct Player {
    pub name: String,
    pub signatures: Vec<Signature>,
}

/// A signature database.
#[derive(Debug, Clone)]
pub struct PlayerDb {
    pub players: Vec<Player>,
}

/// Why no signature database could be had.
#[derive(Debug, Clone, Copy, PartialEq, Eq, Structural)]
pub enum LoadError {
    /// The text holds no signature.
    Empty,
}

impl LoadError {
    /// What the error says to a reader.
    pub fn message(self) -> (r: &'static str)
        ensures
            r@ == "config has no signatures"@,
    {
        "config has no signatures"
    }
}

/// Whether a token accepts a byte.
pub open spec fn accepts(t: Token, b: u8) -> bool {
    match t {
        Token::Byte(x) => x == b,
        Token::Any => true,
        Token::And => false,
    }
}

/// Where the segment that begins at token `d` ends: at the next `AND`, or at
/// the end of the pattern.
pub open spec fn segment_end(tokens: Seq<Token>, d: int) -> int
    decreases tokens.len() - d,
{
    if d < 0 || d >= tokens.len() || tokens[d] == Token::And {
        d
    } else {
        segment_end(tokens, d + 1)
    }
}

/// Whether the tokens from `d` up to `e` accept the bytes from `p` on, one each.
pub open spec fn run_at(tokens: Seq<Token>, d: int, e: int, data: Seq<u8>, p: int) -> bool {
    &&& p + (e - d) <= data.len()
    &&& forall|j: int| d <= j < e ==> accepts(#[trigger] tokens[j], data[p + (j - d)])
}

/// Whether the segment at token `d` is anchored by a concrete byte.
pub open spec fn anchored(tokens: Seq<Token>, d: int) -> bool {
    0 <= d < tokens.len() && tokens[d] is Byte
}

/// Whether the segments from token `d` on occur in `data` one after the other,
/// without overlap, the first of them at position `c` or later. Each segment
/// has to begin with a concrete byte.
pub open spec fn occurs_from(tokens: Seq<Token>, d: int, data: Seq<u8>, c: int) -> bool
    decreases tokens.len() - d,
{
    let e = segment_end(tokens, d);
    &&& anchored(tokens, d)
    &&& e > d
    &&& exists|p: int|
        c <= p && #[trigger] run_at(tokens, d, e, data, p) && (e >= tokens.len() || occurs_from(
            tokens,
            e + 1,
            data,
            p + (e - d),
        ))
}

/// What a signature means: its segments occur in the data in order. The empty
/// pattern occurs everywhere.
pub open spec fn signature_occurs(tokens: Seq<Token>, data: Seq<u8>) -> bool {
    tokens.len() == 0 || occurs_from(tokens, 0, data, 0)
}

proof fn segment_end_bounds(tokens: Seq<Token>, d: int)
    requires
        0 <= d <= tokens.len(),
    ensures
        d <= segment_end(tokens, d) <= tokens.len(),
        forall|j: int| d <= j < segment_end(tokens, d) ==> tokens[j] != Token::And,
        segment_end(tokens, d) < tokens.len() ==> tokens[segment_end(tokens, d)] == Token::And,
    decreases tokens.len() - d,
{
    if d < tokens.len() && tokens[d] != Token::And {
        segment_end_bounds(tokens, d + 1);
    }
}

proof fn segment_end_unique(tokens: Seq<Token>, d: int, e: int)
    requires
        0 <= d <= e <= tokens.len(),
        forall|j: int| d <= j < e ==> tokens[j] != Token::And,
        e < tokens.len() ==> tokens[e] == Token::And,
    ensures
        segment_end(tokens, d) == e,
    decreases e - d,
{
    if d < e {
        segment_end_unique(tokens, d + 1, e);
    }
}

/// A pattern that occurs from a later position on occurs from an earlier one.
pub proof fn occurs_earlier(tokens: Seq<Token>, d: int, data: Seq<u8>, c: int, b: int)
    requires
        b <= c,
        occurs_from(tokens, d, data, c),
    ensures
        occurs_from(tokens, d, data, b),
{
    let e = segment_end(tokens, d);
    let p = choose|p: int|
        c <= p && #[trigger] run_at(tokens, d, e, data, p) && (e >= tokens.len() || occurs_from(
            tokens,
            e + 1,
            data,
            p + (e - d),
        ));
    assert(b <= p && run_at(tokens, d, e, data, p));
}

/// Once the first segment is found at the earliest position, the rest of the
/// pattern may be looked for right behind it.
proof fn earliest_is_best(tokens: Seq<Token>, d: int, data: Seq<u8>, p: int)
    requires
        anchored(tokens, d),
        run_at(tokens, d, segment_end(tokens, d), data, p),
        segment_end(tokens, d) > d,
    ensures
        occurs_from(tokens, d, data, p) <==> (segment_end(tokens, d) >= tokens.len()
            || occurs_from(tokens, segment_end(tokens, d) + 1, data, p + (segment_end(tokens, d)
            - d))),
{
    let e = segment_end(tokens, d);
    if occurs_from(tokens, d, data, p) {
        let q = choose|q: int|
            p <= q && #[trigger] run_at(tokens, d, e, data, q) && (e >= tokens.len()
                || occurs_from(tokens, e + 1, data, q + (e - d)));
        if e < tokens.len() {
            occurs_earlier(tokens, e + 1, data, q + (e - d), p + (e - d));
        }
    }
}

/// A position where the first segment does not match can be passed over.
proof fn pass_over(tokens: Seq<Token>, d: int, data: Seq<u8>, c: int)
    requires
        !run_at(tokens, d, segment_end(tokens, d), data, c),
    ensures
        occurs_from(tokens, d, data, c) == occurs_from(tokens, d, data, c + 1),
{
    let e = segment_end(tokens, d);
    if occurs_from(tokens, d, data, c) {
        let q = choose|q: int|
            c <= q && #[trigger] run_at(tokens, d, e, data, q) && (e >= tokens.len()
                || occurs_from(tokens, e + 1, data, q + (e - d)));
        assert(q != c);
        assert(c + 1 <= q && run_at(tokens, d, e, data, q));
    }
    if occurs_from(tokens, d, data, c + 1) {
        occurs_earlier(tokens, d, data, c + 1, c);
    }
}

/// Behind the last byte nothing occurs.
proof fn nothing_behind(tokens: Seq<Token>, d: int, data: Seq<u8>, c: int)
    requires
        c >= data.len(),
    ensures
        !occurs_from(tokens, d, data, c),
{
}

fn literal_eq(tokens: &[Token], d: usize, b: u8) -> (r: bool)
    ensures
        r == (d < tokens@.len() && tokens@[d as int] == Token::Byte(b)),
{
    if d < tokens.len() {
        match tokens[d] {
            Token::Byte(x) => x == b,
            _ => false,
        }
    } else {
        false
    }
}

fn token_matches(tokens: &[Token], d: usize, b: u8) -> (r: bool)
    ensures
        r == (d < tokens@.len() && accepts(tokens@[d as int], b)),
{
    if d < tokens.len() {
        match tokens[d] {
            Token::Byte(x) => x == b,
            Token::Any => true,
            Token::And => false,
        }
    } else {
        false
    }
}

/// Searches `data` for a pattern, walking both with a cursor and falling back
/// to a saved restart point on a mismatch.
#[must_use]
pub fn signature_matches(tokens: &[Token], data: &[u8]) -> (r: bool)
    ensures
        r == signature_occurs(tokens@, data@),
{
    let len: usize = data.len();
    let ghost t = tokens@;
    let ghost b = data@;
    // `c` and `d` walk the data and the tokens; `rc` and `rd` are where the
    // search for the current segment resumes.
    let mut c: usize = 0;
    let mut d: usize = 0;
    let mut rc: usize = 0;
    let mut rd: usize = 0;
    if tokens.len() == 0 {
        return true;
    }
    while c < len
        invariant
            t == tokens@,
            b == data@,
            len == b.len(),
            t.len() > 0,
            c <= len,
            rc <= c,
            rd <= d <= t.len(),
            rd < t.len(),
            d == rd ==> occurs_from(t, 0, b, 0) == occurs_from(t, rd as int, b, c as int),
            d > rd ==> {
                &&& anchored(t, rd as int)
                &&& rc == c - (d - rd) + 1
                &&& c >= d - rd
                &&& run_at(t, rd as int, d as int, b, c - (d - rd))
                &&& forall|j: int| rd <= j < d ==> t[j] != Token::And
                &&& occurs_from(t, 0, b, 0) == occurs_from(t, rd as int, b, c - (d - rd))
            },
        decreases
                t.len() - rd,
                len + 1 - rc,
                if d == rd {
                    0int
                } else {
                    1int
                },
                len - c,
    {
        if d == rd {
            if literal_eq(tokens, d, data[c]) {
                rc = c + 1;
                d += 1;
            } else {
                proof {
                    segment_end_bounds(t, rd as int);
                    if anchored(t, rd as int) {
                        assert(!accepts(t[rd as int], b[c as int]));
                        assert(segment_end(t, rd as int) > rd) by {
                            reveal_with_fuel(segment_end, 2);
                            segment_end_bounds(t, rd + 1);
                        }
                        if run_at(t, rd as int, segment_end(t, rd as int), b, c as int) {
                            assert(accepts(t[rd as int], b[c + (rd - rd)]));
                        }
                        pass_over(t, rd as int, b, c as int);
                    }
                }
            }
            c += 1;
        } else {
            if d >= tokens.len() {
                proof {
                    segment_end_unique(t, rd as int, t.len() as int);
                    earliest_is_best(t, rd as int, b, c - (d - rd));
                }
                return true;
            }
            if tokens[d] == Token::And {
                let ghost start = c - (d - rd);
                proof {
                    segment_end_unique(t, rd as int, d as int);
                    earliest_is_best(t, rd as int, b, start);
                }
                d += 1;
                while c < len && !literal_eq(tokens, d, data[c])
                    invariant
                        t == tokens@,
                        b == data@,
                        len == b.len(),
                        c <= len,
                        0 <= d <= t.len(),
                        occurs_from(t, 0, b, 0) == occurs_from(t, d as int, b, c as int),
                    decreases len - c,
                {
                    proof {
                        segment_end_bounds(t, d as int);
                        if anchored(t, d as int) {
                            assert(segment_end(t, d as int) > d) by {
                                reveal_with_fuel(segment_end, 2);
                                segment_end_bounds(t, d + 1);
                            }
                            if run_at(t, d as int, segment_end(t, d as int), b, c as int) {
                                assert(accepts(t[d as int], b[c + (d - d)]));
                            }
                            pass_over(t, d as int, b, c as int);
                        }
                    }
                    c += 1;
                }
                if c >= len {
                    proof {
                        nothing_behind(t, d as int, b, c as int);
                    }
                    return false;
                }
                rc = c + 1;
                rd = d;
                c += 1;
                d += 1;
            } else if !token_matches(tokens, d, data[c]) {
                proof {
                    let start = c - (d - rd);
                    segment_end_bounds(t, rd as int);
                    let e = segment_end(t, rd as int);
                    if e <= d {
                        assert(t[e] == Token::And);
                        assert(false);
                    }
                    if run_at(t, rd as int, e, b, start) {
                        assert(accepts(t[d as int], b[start + (d - rd)]));
                    }
                    pass_over(t, rd as int, b, start);
                }
                c = rc;
                d = rd;
            } else {
                c += 1;
                d += 1;
            }
        }
    }
    proof {
        if d == rd {
            nothing_behind(t, rd as int, b, c as int);
        } else if d >= t.len() {
            segment_end_unique(t, rd as int, t.len() as int);
            earliest_is_best(t, rd as int, b, c - (d - rd));
        } else {
            let start = c - (d - rd);
            segment_end_bounds(t, rd as int);
            let e = segment_end(t, rd as int);
            if occurs_from(t, rd as int, b, start) {
                if e <= d {
                    assert(t[e] == Token::And);
                    if e < d {
                        assert(false);
                    }
                    earliest_is_best(t, rd as int, b, start);
                    nothing_behind(t, e + 1, b, start + (e - rd));
                } else {
                    let q = choose|q: int|
                        start <= q && #[trigger] run_at(t, rd as int, e, b, q) && (e >= t.len()
                            || occurs_from(t, e + 1, b, q + (e - rd)));
                    assert(q + (e - rd) <= b.len());
                }
                assert(false);
            }
        }
    }
    d >= tokens.len()
}

/// A player entry as plain sequences.
pub struct PlayerView {
    pub name: Seq<char>,
    pub signatures: Seq<Seq<Token>>,
}

impl Player {
    /// The name and the signatures of the player.
    pub open spec fn view(self) -> PlayerView {
        PlayerView {
            name: self.name@,
            signatures: self.signatures@.map_values(|s: Signature| s.tokens@),
        }
    }
}

/// What has been read of a database: the players with a signature, the name
/// that new signatures belong to, whether that name has its entry already, and
/// the tokens of the signature that is still open.
pub struct ReadState {
    pub players: Seq<PlayerView>,
    pub name: Option<Seq<char>>,
    pub entered: bool,
    pub pending: Seq<Token>,
}

/// The byte that two hexadecimal digits denote.
pub open spec fn hex_byte(word: Seq<char>) -> Option<u8> {
    if word.len() == 2 && hex_value(word[0]) is Some && hex_value(word[1]) is Some {
        Some((hex_value(word[0])->Some_0 * 16 + hex_value(word[1])->Some_0) as u8)
    } else {
        None
    }
}

/// The pattern token that a word stands for, if it is one.
pub open spec fn word_token(word: Seq<char>) -> Option<Token> {
    if word == "??"@ {
        Some(Token::Any)
    } else if same_ignoring_case(word, "and"@) {
        Some(Token::And)
    } else if hex_byte(word) is Some {
        Some(Token::Byte(hex_byte(word)->Some_0))
    } else {
        None
    }
}

impl ReadState {
    /// Nothing read yet.
    pub open spec fn start() -> ReadState {
        ReadState {
            players: Seq::empty(),
            name: None,
            entered: false,
            pending: Seq::empty(),
        }
    }

    /// A closed signature goes to the current name; the name gets its entry
    /// with its first signature.
    pub open spec fn close(self) -> ReadState {
        if self.pending.len() > 0 && self.name is Some {
            let players = if self.entered {
                let last = self.players.last();
                self.players.drop_last().push(
                    PlayerView { name: last.name, signatures: last.signatures.push(self.pending) },
                )
            } else {
                self.players.push(
                    PlayerView { name: self.name->Some_0, signatures: seq![self.pending] },
                )
            };
            ReadState { players, entered: true, pending: Seq::empty(), ..self }
        } else {
            ReadState { pending: Seq::empty(), ..self }
        }
    }

    /// Reads one word.
    pub open spec fn step(self, word: Seq<char>) -> ReadState {
        if same_ignoring_case(word, "end"@) {
            self.close()
        } else if word_token(word) is Some {
            ReadState { pending: self.pending.push(word_token(word)->Some_0), ..self }
        } else {
            ReadState { name: Some(word), entered: false, pending: Seq::empty(), ..self }
        }
    }

    /// Reads words one after the other.
    pub open spec fn read(words: Seq<Seq<char>>) -> ReadState
        decreases words.len(),
    {
        if words.len() == 0 {
            ReadState::start()
        } else {
            ReadState::read(words.drop_last()).step(words.last())
        }
    }
}

/// The players of a database text, in order; names without a signature are
/// left out.
pub open spec fn database_players(text: Seq<char>) -> Seq<PlayerView> {
    ReadState::read(words_spec(text)).players
}

/// The entries of a list of players.
pub open spec fn entries(players: Seq<Player>) -> Seq<PlayerView> {
    players.map_values(|p: Player| p.view())
}

/// Whether one of the player's signatures occurs in the data.
pub open spec fn player_occurs(player: Player, data: Seq<u8>) -> bool {
    exists|i: int|
        0 <= i < player.signatures@.len() && signature_occurs(
            (#[trigger] player.signatures@[i]).tokens@,
            data,
        )
}

/// The names of the players whose signatures occur in the data, in order.
pub open spec fn hits(players: Seq<Player>, data: Seq<u8>) -> Seq<Seq<char>>
    decreases players.len(),
{
    if players.len() == 0 {
        Seq::empty()
    } else if player_occurs(players.last(), data) {
        hits(players.drop_last(), data).push(players.last().name@)
    } else {
        hits(players.drop_last(), data)
    }
}

/// Reads two hexadecimal digits as a byte.
fn parse_hex_byte(word: &[char]) -> (r: Option<u8>)
    ensures
        r == hex_byte(word@),
{
    if word.len() != 2 {
        return None;
    }
    match (parse_hex_digit(word[0]), parse_hex_digit(word[1])) {
        (Some(hi), Some(lo)) => Some(hi * 16 + lo),
        _ => None,
    }
}

fn read_token(word: &[char]) -> (r: Option<Token>)
    ensures
        r == word_token(word@),
{
    if same_chars(word, "??") {
        Some(Token::Any)
    } else if same_chars_ignoring_case(word, "and") {
        Some(Token::And)
    } else {
        match parse_hex_byte(word) {
            Some(b) => Some(Token::Byte(b)),
            None => None,
        }
    }
}

fn add_signature(players: &mut Vec<Player>, name: &String, entered: bool, tokens: Vec<Token>)
    requires
        entered ==> old(players)@.len() > 0,
    ensures
        entries(final(players)@) == (ReadState {
            players: entries(old(players)@),
            name: Some(name@),
            entered,
            pending: tokens@,
        }).close().players || tokens@.len() == 0,
        final(players)@.len() > 0,
{
    let ghost before = players@;
    let ghost pending = tokens@;
    let sig: Signature = Signature { tokens };
    if entered {
        if let Some(mut p) = players.pop() {
            let ghost old_p = p;
            p.signatures.push(sig);
            proof {
                assert(p.view().signatures =~= old_p.view().signatures.push(pending));
            }
            players.push(p);
            assert(entries(players@) =~= entries(before).drop_last().push(p.view()));
        }
    } else {
        let mut signatures: Vec<Signature> = Vec::new();
        signatures.push(sig);
        let p: Player = Player { name: name.clone(), signatures };
        assert(p.view().signatures =~= seq![pending]);
        players.push(p);
        assert(entries(players@) =~= entries(before).push(p.view()));
    }
}

/// Whether any of the player's alternative signatures occurs in the data.
#[must_use]
pub fn player_matches(player: &Player, data: &[u8]) -> (r: bool)
    ensures
        r == player_occurs(*player, data@),
{
    let mut i: usize = 0;
    while i < player.signatures.len()
        invariant
            i <= player.signatures@.len(),
            forall|j: int|
                0 <= j < i ==> !signature_occurs(
                    (#[trigger] player.signatures@[j]).tokens@,
                    data@,
                ),
        decreases player.signatures@.len() - i,
    {
        if signature_matches(player.signatures[i].tokens.as_slice(), data) {
            return true;
        }
        i += 1;
    }
    false
}

impl PlayerDb {
    /// Reads a signature database. Consecutive `END`s and names without bytes
    /// are ignored; bytes that no `END` closes are dropped.
    #[must_use]
    pub fn parse(text: &str) -> (r: PlayerDb)
        ensures
            entries(r.players@) == database_players(text@),
    {
        let all: Vec<char> = to_chars(text);
        let list: Vec<Vec<char>> = words(all.as_slice());
        let ghost seqs = words_spec(text@);
        let mut players: Vec<Player> = Vec::new();
        let mut name: Option<String> = None;
        let mut entered: bool = false;
        let mut pending: Vec<Token> = Vec::new();
        let mut i: usize = 0;
        assert(entries(players@) =~= Seq::empty());
        assert(seqs.take(0) =~= Seq::<Seq<char>>::empty());
        while i < list.len()
            invariant
                i <= list@.len(),
                seqs == views(list@),
                ({
                    let st = ReadState::read(seqs.take(i as int));
                    &&& entries(players@) == st.players
                    &&& (match name {
                        Some(n) => st.name == Some(n@),
                        None => st.name is None,
                    })
                    &&& entered == st.entered
                    &&& pending@ == st.pending
                    &&& entered ==> players@.len() > 0
                }),
            decreases list@.len() - i,
        {
            let word: &[char] = list[i].as_slice();
            let ghost st = ReadState::read(seqs.take(i as int));
            assert(word@ == seqs[i as int]);
            assert(seqs.take(i + 1).drop_last() =~= seqs.take(i as int));
            assert(ReadState::read(seqs.take(i + 1)) == st.step(word@));
            if same_chars_ignoring_case(word, "end") {
                match &name {
                    Some(n) => {
                        if pending.len() > 0 {
                            add_signature(&mut players, n, entered, pending);
                            entered = true;
                        }
                    },
                    None => {},
                }
                pending = Vec::new();
            } else {
                match read_token(word) {
                    Some(t) => {
                        pending.push(t);
                    },
                    None => {
                        name = Some(from_chars(word));
                        entered = false;
                        pending = Vec::new();
                    },
                }
            }
            i += 1;
        }
        assert(seqs.take(seqs.len() as int) =~= seqs);
        PlayerDb { players }
    }

    /// Reads a signature database that has to hold at least one signature.
    pub fn load(text: &str) -> (r: Result<PlayerDb, LoadError>)
        ensures
            match r {
                Ok(db) => entries(db.players@) == database_players(text@) && database_players(
                    text@,
                ).len() > 0,
                Err(e) => e == LoadError::Empty && database_players(text@).len() == 0,
            },
    {
        let db: PlayerDb = PlayerDb::parse(text);
        if db.players.len() == 0 {
            return Err(LoadError::Empty);
        }
        Ok(db)
    }

    /// The name of the first player with a signature that occurs in the data.
    #[must_use]
    pub fn identify<'a>(&'a self, data: &[u8]) -> (r: Option<&'a str>)
        ensures
            match r {
                Some(name) => hits(self.players@, data@).len() > 0 && name@ == hits(
                    self.players@,
                    data@,
                )[0],
                None => hits(self.players@, data@).len() == 0,
            },
    {
        let mut i: usize = 0;
        let ghost all = self.players@;
        assert(all.take(0) =~= Seq::<Player>::empty());
        while i < self.players.len()
            invariant
                i <= self.players@.len(),
                all == self.players@,
                hits(all.take(i as int), data@).len() == 0,
            decreases self.players@.len() - i,
        {
            assert(all.take(i + 1).drop_last() =~= all.take(i as int));
            if player_matches(&self.players[i], data) {
                proof {
                    hits_extend(all, i + 1, data@);
                    let found = hits(all.take(i + 1), data@);
                    assert(found == hits(all.take(i as int), data@).push(all[i as int].name@));
                    assert(found[0] == hits(all, data@).take(1)[0]);
                }
                return Some(self.players[i].name.as_str());
            }
            i += 1;
        }
        assert(all.take(all.len() as int) =~= all);
        None
    }

    /// The names of all players with a signature that occurs in the data.
    #[must_use]
    pub fn identify_all<'a>(&'a self, data: &[u8]) -> (r: Vec<&'a str>)
        ensures
            r@.map_values(|s: &'a str| s@) == hits(self.players@, data@),
    {
        let mut out: Vec<&'a str> = Vec::new();
        let mut i: usize = 0;
        let ghost all = self.players@;
        assert(all.take(0) =~= Seq::<Player>::empty());
        assert(out@.map_values(|s: &'a str| s@) =~= Seq::empty());
        while i < self.players.len()
            invariant
                i <= self.players@.len(),
                all == self.players@,
                out@.map_values(|s: &'a str| s@) == hits(all.take(i as int), data@),
            decreases self.players@.len() - i,
        {
            assert(all.take(i + 1).drop_last() =~= all.take(i as int));
            if player_matches(&self.players[i], data) {
                let ghost before = out@.map_values(|s: &'a str| s@);
                let name: &'a str = self.players[i].name.as_str();
                out.push(name);
                assert(out@.map_values(|s: &'a str| s@) =~= before.push(name@));
            }
            i += 1;
        }
        assert(all.take(all.len() as int) =~= all);
        out
    }
}

impl Default for PlayerDb {
    fn default() -> (r: PlayerDb)
        ensures
            r.players@.len() == 0,
    {
        PlayerDb { players: Vec::new() }
    }
}

/// Further players only add names behind the ones that were hit before.
proof fn hits_extend(players: Seq<Player>, n: int, data: Seq<u8>)
    requires
        0 <= n <= players.len(),
    ensures
        hits(players, data).len() >= hits(players.take(n), data).len(),
        hits(players.take(n), data) == hits(players, data).take(
            hits(players.take(n), data).len() as int,
        ),
    decreases players.len() - n,
{
    if n == players.len() {
        assert(players.take(n) =~= players);
        assert(hits(players, data).take(hits(players, data).len() as int) =~= hits(players, data));
    } else {
        hits_extend(players, n + 1, data);
        assert(players.take(n + 1).drop_last() =~= players.take(n));
        let shorter = hits(players.take(n), data);
        let longer = hits(players.take(n + 1), data);
        let full = hits(players, data);
        assert(shorter =~= longer.take(shorter.len() as int));
        assert(full.take(longer.len() as int).take(shorter.len() as int) =~= full.take(
            shorter.len() as int,
        ));
    }
}

/// Every player that a database text yields has a signature, and no signature
/// is empty.
pub proof fn players_have_signatures(text: Seq<char>, i: int)
    requires
        0 <= i < database_players(text).len(),
    ensures
        database_players(text)[i].signatures.len() > 0,
        forall|j: int|
            0 <= j < database_players(text)[i].signatures.len() ==> (
            #[trigger] database_players(text)[i].signatures[j]).len() > 0,
{
    read_keeps_signatures(words_spec(text));
}

proof fn read_keeps_signatures(words: Seq<Seq<char>>)
    ensures
        forall|i: int, j: int|
            0 <= i < ReadState::read(words).players.len() && 0 <= j < ReadState::read(
                words,
            ).players[i].signatures.len() ==> (#[trigger] ReadState::read(
                words,
            ).players[i].signatures[j]).len() > 0,
        forall|i: int|
            0 <= i < ReadState::read(words).players.len() ==> (#[trigger] ReadState::read(
                words,
            ).players[i]).signatures.len() > 0,
        ReadState::read(words).entered ==> ReadState::read(words).players.len() > 0,
    decreases words.len(),
{
    if words.len() > 0 {
        read_keeps_signatures(words.drop_last());
    }
}

/// A pattern that occurs in some data occurs wherever that data is contained.
pub proof fn occurrence_survives_surroundings(
    tokens: Seq<Token>,
    before: Seq<u8>,
    data: Seq<u8>,
    after: Seq<u8>,
)
    requires
        signature_occurs(tokens, data),
    ensures
        signature_occurs(tokens, before + data + after),
{
    if tokens.len() > 0 {
        occurs_shifted(tokens, 0, before, data, after, 0);
        occurs_earlier(tokens, 0, before + data + after, before.len() as int, 0);
    }
}

proof fn occurs_shifted(
    tokens: Seq<Token>,
    d: int,
    before: Seq<u8>,
    data: Seq<u8>,
    after: Seq<u8>,
    c: int,
)
    requires
        0 <= c,
        occurs_from(tokens, d, data, c),
    ensures
        occurs_from(tokens, d, before + data + after, before.len() + c),
    decreases tokens.len() - d,
{
    let e = segment_end(tokens, d);
    let whole = before + data + after;
    let p = choose|p: int|
        c <= p && #[trigger] run_at(tokens, d, e, data, p) && (e >= tokens.len() || occurs_from(
            tokens,
            e + 1,
            data,
            p + (e - d),
        ));
    let n = before.len();
    assert(run_at(tokens, d, e, whole, n + p)) by {
        assert forall|j: int| d <= j < e implies accepts(
            #[trigger] tokens[j],
            whole[(n + p) + (j - d)],
        ) by {
            assert(whole[(n + p) + (j - d)] == data[p + (j - d)]);
        }
    }
    if e < tokens.len() {
        occurs_shifted(tokens, e + 1, before, data, after, p + (e - d));
        assert(n + (p + (e - d)) == (n + p) + (e - d));
    }
}

/// Whether the bytes from a position on agree with a pattern one by one, up to those that
/// may be any.
pub open spec fn agrees_at(tokens: Seq<Token>, data: Seq<u8>, p: int) -> bool {
    &&& 0 <= p
    &&& p + tokens.len() <= data.len()
    &&& forall|j: int|
        0 <= j < tokens.len() && (#[trigger] tokens[j]) is Byte ==> data[p + j] == tokens[j]->0
}

/// A pattern without skips that begins with a byte occurs just where some stretch of the
/// data agrees with it byte by byte.
pub proof fn plain_patterns_occur_as_one_stretch(tokens: Seq<Token>, data: Seq<u8>)
    requires
        tokens.len() > 0,
        tokens[0] is Byte,
        forall|j: int| 0 <= j < tokens.len() ==> #[trigger] tokens[j] != Token::And,
    ensures
        signature_occurs(tokens, data) <==> exists|p: int| #[trigger] agrees_at(tokens, data, p),
{
    let n = tokens.len() as int;
    segment_end_unique(tokens, 0, n);
    if signature_occurs(tokens, data) {
        let p = choose|p: int| 0 <= p && #[trigger] run_at(tokens, 0, n, data, p);
        assert forall|j: int| 0 <= j < tokens.len() && (#[trigger] tokens[j]) is Byte implies data[p
            + j] == tokens[j]->0 by {
            assert(accepts(tokens[j], data[p + (j - 0)]));
        }
        assert(agrees_at(tokens, data, p));
    }
    if exists|p: int| #[trigger] agrees_at(tokens, data, p) {
        let p = choose|p: int| #[trigger] agrees_at(tokens, data, p);
        assert forall|j: int| 0 <= j < n implies accepts(#[trigger] tokens[j], data[p + (j - 0)]) by {
            if tokens[j] is Byte {
                assert(data[p + j] == tokens[j]->0);
            }
        }
        assert(run_at(tokens, 0, n, data, p));
    }
}

proof fn segments_follow(tokens: Seq<Token>, front: Seq<Token>, data: Seq<u8>, d: int, c: int)
    requires
        0 <= d <= tokens.len(),
    ensures
        occurs_from(front + tokens, front.len() + d, data, c) <==> occurs_from(tokens, d, data, c),
    decreases tokens.len() - d,
{
    let all = front + tokens;
    let n = front.len() as int;
    segment_end_bounds(tokens, d);
    let e = segment_end(tokens, d);
    assert forall|j: int| n + d <= j < n + e implies all[j] != Token::And by {
        assert(all[j] == tokens[j - n]);
    }
    segment_end_unique(all, n + d, n + e);
    assert forall|p: int| #[trigger] run_at(all, n + d, n + e, data, p) <==> run_at(
        tokens,
        d,
        e,
        data,
        p,
    ) by {
        if run_at(tokens, d, e, data, p) {
            assert forall|j: int| n + d <= j < n + e implies accepts(
                #[trigger] all[j],
                data[p + (j - (n + d))],
            ) by {
                assert(accepts(tokens[j - n], data[p + (j - n - d)]));
            }
        }
        if run_at(all, n + d, n + e, data, p) {
            assert forall|j: int| d <= j < e implies accepts(
                #[trigger] tokens[j],
                data[p + (j - d)],
            ) by {
                assert(accepts(all[n + j], data[p + (n + j - (n + d))]));
            }
        }
    }
    if d < tokens.len() {
        assert(all[n + d] == tokens[d]);
    }
    if e < tokens.len() {
        assert forall|p: int| #[trigger] run_at(tokens, d, e, data, p) implies (occurs_from(
            all,
            n + e + 1,
            data,
            p + (e - d),
        ) <==> occurs_from(tokens, e + 1, data, p + (e - d))) by {
            segments_follow(tokens, front, data, e + 1, p + (e - d));
        }
    }
    if occurs_from(tokens, d, data, c) {
        let p = choose|p: int|
            c <= p && #[trigger] run_at(tokens, d, e, data, p) && (e >= tokens.len() || occurs_from(
                tokens,
                e + 1,
                data,
                p + (e - d),
            ));
        assert(run_at(all, n + d, n + e, data, p));
    }
    if occurs_from(all, n + d, data, c) {
        let p = choose|p: int|
            c <= p && #[trigger] run_at(all, n + d, n + e, data, p) && (n + e >= all.len()
                || occurs_from(all, n + e + 1, data, p + (n + e - (n + d))));
        assert(run_at(tokens, d, e, data, p));
    }
}

/// A pattern with a skip occurs just where what stands before the skip occurs as one
/// stretch and the rest occurs somewhere behind that.
pub proof fn skips_part_a_pattern(first: Seq<Token>, rest: Seq<Token>, data: Seq<u8>)
    requires
        first.len() > 0,
        first[0] is Byte,
        forall|j: int| 0 <= j < first.len() ==> #[trigger] first[j] != Token::And,
    ensures
        signature_occurs(first + seq![Token::And] + rest, data) <==> exists|p: int|
            0 <= p && #[trigger] run_at(first, 0, first.len() as int, data, p) && occurs_from(
                rest,
                0,
                data,
                p + first.len(),
            ),
{
    let all = first + seq![Token::And] + rest;
    let n = first.len() as int;
    assert forall|j: int| 0 <= j < n implies all[j] != Token::And by {
        assert(all[j] == first[j]);
    }
    assert(all[n] == Token::And);
    segment_end_unique(all, 0, n);
    assert(all[0] == first[0]);
    assert(all =~= first.push(Token::And) + rest);
    assert forall|p: int| #[trigger] run_at(all, 0, n, data, p) <==> run_at(first, 0, n, data, p) by {
        if run_at(all, 0, n, data, p) {
            assert forall|j: int| 0 <= j < n implies accepts(#[trigger] first[j], data[p + (j - 0)]) by {
                assert(accepts(all[j], data[p + (j - 0)]));
            }
        }
        if run_at(first, 0, n, data, p) {
            assert forall|j: int| 0 <= j < n implies accepts(#[trigger] all[j], data[p + (j - 0)]) by {
                assert(accepts(first[j], data[p + (j - 0)]));
            }
        }
    }
    assert forall|c: int| occurs_from(all, n + 1, data, c) <==> #[trigger] occurs_from(
        rest,
        0,
        data,
        c,
    ) by {
        segments_follow(rest, first.push(Token::And), data, 0, c);
    }
    if signature_occurs(all, data) {
        let p = choose|p: int|
            0 <= p && #[trigger] run_at(all, 0, n, data, p) && (n >= all.len() || occurs_from(
                all,
                n + 1,
                data,
                p + (n - 0),
            ));
        assert(run_at(first, 0, n, data, p));
        assert(occurs_from(rest, 0, data, p + n));
    }
    if exists|p: int|
        0 <= p && #[trigger] run_at(first, 0, n, data, p) && occurs_from(rest, 0, data, p + n) {
        let p = choose|p: int|
            0 <= p && #[trigger] run_at(first, 0, n, data, p) && occurs_from(rest, 0, data, p + n);
        assert(run_at(all, 0, n, data, p));
        assert(occurs_from(all, n + 1, data, p + (n - 0)));
    }
}

proof fn hit_of(players: Seq<Player>, data: Seq<u8>, i: int) -> (k: int)
    requires
        0 <= i < players.len(),
        player_occurs(players[i], data),
    ensures
        0 <= k < hits(players, data).len(),
        hits(players, data)[k] == players[i].name@,
        k <= i,
        (forall|j: int| 0 <= j < i ==> !player_occurs(#[trigger] players[j], data)) ==> k == 0,
    decreases players.len(),
{
    if i < players.len() - 1 {
        hit_of(players.drop_last(), data, i)
    } else {
        if forall|j: int| 0 <= j < i ==> !player_occurs(#[trigger] players[j], data) {
            let t = players.drop_last();
            assert forall|j: int| 0 <= j < t.len() implies !player_occurs(#[trigger] t[j], data) by {
                assert(t[j] == players[j]);
            }
            no_hits(t, data);
        }
        few_hits(players.drop_last(), data);
        hits(players, data).len() - 1
    }
}

proof fn few_hits(players: Seq<Player>, data: Seq<u8>)
    ensures
        hits(players, data).len() <= players.len(),
    decreases players.len(),
{
    if players.len() > 0 {
        few_hits(players.drop_last(), data);
    }
}

proof fn no_hits(players: Seq<Player>, data: Seq<u8>)
    requires
        forall|j: int| 0 <= j < players.len() ==> !player_occurs(#[trigger] players[j], data),
    ensures
        hits(players, data).len() == 0,
    decreases players.len(),
{
    if players.len() > 0 {
        let t = players.drop_last();
        assert forall|j: int| 0 <= j < t.len() implies !player_occurs(#[trigger] t[j], data) by {
            assert(t[j] == players[j]);
        }
        assert(!player_occurs(players[players.len() - 1], data));
        no_hits(t, data);
    }
}

/// The player that is identified is the first of the list with a signature that occurs; all
/// that have one are listed, and where none has, none is identified.
pub proof fn the_first_player_that_occurs_is_identified(players: Seq<Player>, data: Seq<u8>, i: int)
    requires
        0 <= i < players.len(),
    ensures
        (exists|s: int|
            0 <= s < players[i].signatures@.len() && signature_occurs(
                (#[trigger] players[i].signatures@[s]).tokens@,
                data,
            )) ==> hits(players, data).contains(players[i].name@),
        player_occurs(players[i], data) && (forall|j: int|
            0 <= j < i ==> !player_occurs(#[trigger] players[j], data)) ==> hits(players, data).len()
            > 0 && hits(players, data)[0] == players[i].name@,
        (forall|j: int|
            0 <= j < players.len() ==> !player_occurs(#[trigger] players[j], data)) ==> hits(
            players,
            data,
        ).len() == 0,
{
    if player_occurs(players[i], data) {
        let k = hit_of(players, data, i);
    }
    if forall|j: int| 0 <= j < players.len() ==> !player_occurs(#[trigger] players[j], data) {
        no_hits(players, data);
    }
}

/// Two hexadecimal digits are the byte of their value, the first digit being the greater;
/// two question marks are any byte, and `and` in any case is a skip.
pub proof fn words_are_read_as_tokens(hi: char, lo: char)
    requires
        hex_value(hi) is Some,
        hex_value(lo) is Some,
    ensures
        word_token(seq![hi, lo]) == Some(
            Token::Byte((16 * hex_value(hi)->0 + hex_value(lo)->0) as u8),
        ),
        word_token("??"@) == Some(Token::Any),
        word_token("AND"@) == Some(Token::And),
        word_token("and"@) == Some(Token::And),
{
    reveal_strlit("??");
    reveal_strlit("and");
    reveal_strlit("AND");
    let w = seq![hi, lo];
    assert(w[0] == hi && w[1] == lo);
    assert(w != "??"@) by {
        assert("??"@[0] == '?');
    }
}

proof fn tokens_are_collected(st: Seq<Seq<char>>, words: Seq<Seq<char>>)
    requires
        forall|i: int|
            0 <= i < words.len() ==> word_token(#[trigger] words[i]) is Some
                && !same_ignoring_case(words[i], "end"@),
    ensures
        ReadState::read(st + words) == (ReadState {
            pending: ReadState::read(st).pending + Seq::new(
                words.len(),
                |i: int| word_token(words[i])->0,
            ),
            ..ReadState::read(st)
        }),
    decreases words.len(),
{
    if words.len() == 0 {
        assert(st + words =~= st);
        assert(ReadState::read(st).pending + Seq::new(
            words.len(),
            |i: int| word_token(words[i])->0,
        ) =~= ReadState::read(st).pending);
    } else {
        let t = words.drop_last();
        assert forall|i: int| 0 <= i < t.len() implies word_token(#[trigger] t[i]) is Some
            && !same_ignoring_case(t[i], "end"@) by {
            assert(t[i] == words[i]);
        }
        tokens_are_collected(st, t);
        assert((st + words).drop_last() =~= st + t);
        assert((st + words).last() == words.last());
        assert(words.last() == words[words.len() - 1]);
        let a = ReadState::read(st).pending;
        let b = Seq::new(t.len(), |i: int| word_token(t[i])->0);
        let c = Seq::new(words.len(), |i: int| word_token(words[i])->0);
        assert(a + c =~= (a + b).push(word_token(words.last())->0));
    }
}

/// A name with a closed signature behind it becomes a player of that name with that
/// signature, behind all players before it. A second signature goes to the same player.
pub proof fn listed_signatures_are_read(
    before: Seq<Seq<char>>,
    name: Seq<char>,
    first: Seq<Seq<char>>,
    second: Seq<Seq<char>>,
    end: Seq<char>,
)
    requires
        word_token(name) is None,
        !same_ignoring_case(name, "end"@),
        same_ignoring_case(end, "end"@),
        first.len() > 0,
        second.len() > 0,
        forall|i: int|
            0 <= i < first.len() ==> word_token(#[trigger] first[i]) is Some && !same_ignoring_case(
                first[i],
                "end"@,
            ),
        forall|i: int|
            0 <= i < second.len() ==> word_token(#[trigger] second[i]) is Some
                && !same_ignoring_case(second[i], "end"@),
    ensures
        ({
            let players = ReadState::read(before).players;
            let a = Seq::new(first.len(), |i: int| word_token(first[i])->0);
            let b = Seq::new(second.len(), |i: int| word_token(second[i])->0);
            let one = before.push(name) + first + seq![end];
            &&& ReadState::read(one).players == players.push(
                PlayerView { name, signatures: seq![a] },
            )
            &&& ReadState::read(one + second + seq![end]).players == players.push(
                PlayerView { name, signatures: seq![a, b] },
            )
        }),
{
    let players = ReadState::read(before).players;
    let a = Seq::new(first.len(), |i: int| word_token(first[i])->0);
    let b = Seq::new(second.len(), |i: int| word_token(second[i])->0);
    let named = before.push(name);
    assert(named.drop_last() =~= before);
    assert(named.last() == name);
    let s0 = ReadState::read(named);
    assert(s0.name == Some(name) && !s0.entered && s0.pending.len() == 0 && s0.players == players);
    tokens_are_collected(named, first);
    let s1 = ReadState::read(named + first);
    assert(s1.pending =~= a);
    let one = named + first + seq![end];
    assert(one.drop_last() =~= named + first);
    assert(one.last() == end);
    let s2 = ReadState::read(one);
    assert(s2 == s1.step(end));
    assert(s2.players =~= players.push(PlayerView { name, signatures: seq![a] }));
    tokens_are_collected(one, second);
    let s3 = ReadState::read(one + second);
    assert(s3.pending =~= b);
    let two = one + second + seq![end];
    assert(two.drop_last() =~= one + second);
    assert(two.last() == end);
    assert(ReadState::read(two) == s3.step(end));
    assert(s3.players.last() == (PlayerView { name, signatures: seq![a] }));
    assert(seq![a].push(b) =~= seq![a, b]);
    assert(s3.players.drop_last() =~= players);
}

} // verus!
