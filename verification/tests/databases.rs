use sid_analyzer::header;
use sid_analyzer::header::SubtuneIndex;
use sid_analyzer::playerid::{signature_matches, LoadError, PlayerDb};
use sid_analyzer::songlengths::{
    compute_sid_md5, format_duration, parse_line, LengthLine, SongLengths, SongTime,
};
use sid_analyzer::stil::{StilDatabase, StilFieldKind};
use sid_analyzer::support::UnsupportedInputKind;

fn db_from(s: &str) -> PlayerDb {
    PlayerDb::parse(s)
}

#[test]
fn parses_simple_signature() {
    let db = db_from("Test_Player\nA9 1F 8D 18 D4 END\n");
    assert_eq!(db.players.len(), 1);
    assert_eq!(db.players[0].name, "Test_Player");
    assert_eq!(db.players[0].signatures.len(), 1);
    assert_eq!(db.players[0].signatures[0].tokens.len(), 5);
}

#[test]
fn matches_literal_run_anywhere() {
    let db = db_from("P\nAA BB CC END\n");
    let data = [0x00, 0x11, 0xAA, 0xBB, 0xCC, 0x99];
    assert_eq!(db.identify(&data), Some("P"));
    let nope = [0xAA, 0xBB, 0x00];
    assert_eq!(db.identify(&nope), None);
}

#[test]
fn wildcard_matches_any_byte() {
    let db = db_from("P\nAA ?? CC END\n");
    assert!(signature_matches(
        &db.players[0].signatures[0].tokens,
        &[0xAA, 0x42, 0xCC]
    ));
    assert!(signature_matches(
        &db.players[0].signatures[0].tokens,
        &[0xAA, 0xFF, 0xCC]
    ));
    assert!(!signature_matches(
        &db.players[0].signatures[0].tokens,
        &[0xAA, 0x42, 0xCD]
    ));
}

#[test]
fn and_skips_to_next_literal() {
    let db = db_from("P\nAA AND CC END\n");
    let toks = &db.players[0].signatures[0].tokens;
    // AA, then somewhere later a CC.
    assert!(signature_matches(toks, &[0xAA, 0x01, 0x02, 0xCC]));
    assert!(signature_matches(toks, &[0xAA, 0xCC]));
    // No CC after AA → no match.
    assert!(!signature_matches(toks, &[0xAA, 0x01, 0x02]));
}

#[test]
fn alternatives_match_any() {
    let db = db_from("P\nAA AA END\nBB BB END\n");
    assert_eq!(db.players[0].signatures.len(), 2);
    assert_eq!(db.identify(&[0x00, 0xBB, 0xBB]), Some("P"));
}

#[test]
fn backtracking_finds_later_start() {
    // A false start (AA AB) followed by a true match (AA AC).
    let db = db_from("P\nAA AC END\n");
    let toks = &db.players[0].signatures[0].tokens;
    assert!(signature_matches(toks, &[0xAA, 0xAB, 0xAA, 0xAC]));
}

#[test]
fn identify_all_returns_multiple() {
    let db = db_from("P1\nAA END\nP2\nBB END\n");
    let mut hits = db.identify_all(&[0xAA, 0xBB]);
    hits.sort_unstable();
    assert_eq!(hits, vec!["P1", "P2"]);
}

#[test]
fn a_signature_database_without_players_is_refused() {
    assert!(matches!(PlayerDb::load("no signature here\n"), Err(LoadError::Empty)));
    assert_eq!(PlayerDb::load("P\nAA END\n").unwrap().players.len(), 1);
}

#[test]
fn a_match_survives_bytes_around_it() {
    let db = db_from("P\nAA ?? CC END\n");
    let toks = &db.players[0].signatures[0].tokens;
    let inner = [0xAA, 0x10, 0xCC];
    assert!(signature_matches(toks, &inner));
    let mut outer = vec![1, 2, 3];
    outer.extend(inner);
    outer.extend([4, 5]);
    assert!(signature_matches(toks, &outer));
}

const SAMPLE: &str = "; STIL sample\n\
/MUSICIANS/H/Hubbard_Rob/Nemesis.sid\n\
   COMMENT: Global note\n\
            continued\n\
       BUG: Playback clicks on real hardware\n\
  (#1)\n\
   NAME: Main Theme\n\
  TITLE: Nemesis the Warlock\n\
 ARTIST: Rob Hubbard\n\
  (#2)\n\
  AUTHOR: Unknown\n\
\n\
/DEMOS/A/Nemesis.sid\n\
 COMMENT: Ambiguous filename\n";

#[test]
fn parses_fields_subtunes_and_continuations() {
    let database = StilDatabase::parse(SAMPLE);
    assert_eq!(database.len(), 2);
    let entry = database
        .lookup("MUSICIANS/H/Hubbard_Rob/Nemesis.sid", Some("Nemesis.sid"))
        .unwrap();
    assert_eq!(entry.fields.len(), 6);
    assert_eq!(entry.fields[0].value, "Global note\ncontinued");
    assert_eq!(entry.fields[1].kind, StilFieldKind::Bug);
    assert_eq!(entry.fields[1].value, "Playback clicks on real hardware");
    assert_eq!(entry.fields[2].subtune, Some(SubtuneIndex(1)));
    assert_eq!(entry.fields[5].subtune, Some(SubtuneIndex(2)));
}

#[test]
fn filename_fallback_requires_a_unique_match() {
    let database = StilDatabase::parse(SAMPLE);
    assert!(database.lookup("Nemesis.sid", Some("Nemesis.sid")).is_none());

    let unique = StilDatabase::parse("/MUSICIANS/H/Hubbard_Rob/Nemesis.sid\n COMMENT: One match\n");
    assert!(unique
        .lookup("assets/music/Nemesis.sid", Some("Nemesis.sid"))
        .is_some());
}

#[test]
fn an_empty_list_has_no_entries() {
    let database = StilDatabase::parse("; nothing\n");
    assert!(database.is_empty());
    assert_eq!(database.len(), 0);
}

#[test]
fn paths_are_found_however_their_separators_are_written() {
    let database = StilDatabase::parse(SAMPLE);
    let slashes = database.lookup("/DEMOS/A/Nemesis.sid", Some("Nemesis.sid"));
    let backslashes = database.lookup("\\DEMOS\\A\\Nemesis.sid", Some("Nemesis.sid"));
    assert_eq!(slashes.unwrap().path.0, backslashes.unwrap().path.0);
}

fn psid(flags: u16) -> Vec<u8> {
    let mut bytes = vec![0_u8; 0x7c];
    bytes[0..4].copy_from_slice(b"PSID");
    bytes[4..6].copy_from_slice(&2_u16.to_be_bytes());
    bytes[6..8].copy_from_slice(&0x7c_u16.to_be_bytes());
    bytes[8..10].copy_from_slice(&0x1000_u16.to_be_bytes());
    bytes[10..12].copy_from_slice(&0x1000_u16.to_be_bytes());
    bytes[12..14].copy_from_slice(&0x1003_u16.to_be_bytes());
    bytes[14..16].copy_from_slice(&1_u16.to_be_bytes());
    bytes[16..18].copy_from_slice(&1_u16.to_be_bytes());
    bytes[0x76..0x78].copy_from_slice(&flags.to_be_bytes());
    bytes
}

#[test]
fn mus_classification_takes_precedence_over_container_format() {
    let bytes = psid(1);
    let parsed = header::parse(&bytes).unwrap();
    assert_eq!(
        UnsupportedInputKind::classify(&parsed),
        Some(UnsupportedInputKind::MusStrPayload)
    );
}

#[test]
fn header_text_is_decoded_as_windows_1252() {
    let mut bytes = psid(0);
    // 0x80 is the euro sign and 0xE9 an e with an acute accent; the name ends at
    // the first zero.
    bytes[0x16] = 0x80;
    bytes[0x17] = 0xE9;
    bytes[0x18] = b'x';
    let parsed = header::parse(&bytes).unwrap();
    assert_eq!(parsed.name, "\u{20AC}\u{E9}x");
    assert_eq!(parsed.author, "");
}

#[test]
fn a_byte_order_mark_overrides_the_encoding() {
    let mut bytes = psid(0);
    bytes[0x16..0x1B].copy_from_slice(&[0xEF, 0xBB, 0xBF, 0xC3, 0xA9]);
    let parsed = header::parse(&bytes).unwrap();
    assert_eq!(parsed.name, "\u{E9}");
}

#[test]
fn header_errors_tell_what_is_wrong() {
    assert!(header::parse(&[]).is_err());
    let mut magic = psid(0);
    magic[0] = b'X';
    assert!(header::parse(&magic).is_err());
    let mut version = psid(0);
    version[5] = 9;
    assert!(header::parse(&version).is_err());
    let mut short = psid(0);
    short.truncate(0x40);
    assert!(header::parse(&short).is_err());
    // Every message is a sentence of its own.
    let texts: Vec<String> = vec![
        header::parse(&[]).unwrap_err().message(),
        header::parse(&magic).unwrap_err().message(),
        header::parse(&version).unwrap_err().message(),
    ];
    assert!(texts.iter().all(|t| !t.is_empty()));
    assert_ne!(texts[1], texts[2]);
}

#[test]
fn speed_bits_split_the_subtunes() {
    let mut bytes = psid(0);
    bytes[14..16].copy_from_slice(&4_u16.to_be_bytes());
    bytes[0x12..0x16].copy_from_slice(&0b0101_u32.to_be_bytes());
    let parsed = header::parse(&bytes).unwrap();
    let summary = parsed.speed_summary();
    assert_eq!(summary.cia, vec![SubtuneIndex(1), SubtuneIndex(3)]);
    assert_eq!(summary.vblank, vec![SubtuneIndex(2), SubtuneIndex(4)]);
    assert!(parsed.is_cia_timed(SubtuneIndex(1)));
    assert!(!parsed.is_cia_timed(SubtuneIndex(2)));
}

#[test]
fn an_address_of_zero_is_read_from_the_data() {
    let mut bytes = psid(0);
    bytes[8] = 0;
    bytes[9] = 0;
    bytes.extend([0x34, 0x12]);
    let parsed = header::parse(&bytes).unwrap();
    assert_eq!(parsed.effective_load_address(&bytes).unwrap().0, 0x1234);
    let plain = psid(0);
    let given = header::parse(&plain).unwrap();
    assert_eq!(given.effective_load_address(&plain).unwrap().0, 0x1000);
}

#[test]
fn the_digest_is_that_of_the_whole_file() {
    // The digests of no bytes and of "abc".
    assert_eq!(
        compute_sid_md5(b""),
        [
            0xd4, 0x1d, 0x8c, 0xd9, 0x8f, 0x00, 0xb2, 0x04, 0xe9, 0x80, 0x09, 0x98, 0xec, 0xf8,
            0x42, 0x7e
        ]
    );
    assert_eq!(
        compute_sid_md5(b"abc"),
        [
            0x90, 0x01, 0x50, 0x98, 0x3c, 0xd2, 0x4f, 0xb0, 0xd6, 0x96, 0x3f, 0x7d, 0x28, 0xe1,
            0x7f, 0x72
        ]
    );
}

#[test]
fn a_line_gives_a_digest_and_its_times() {
    let line: LengthLine =
        parse_line("900150983cd24fb0d6963f7d28e17f72=1:02 3:04.5(G)").expect("a data line");
    assert_eq!(line.md5, compute_sid_md5(b"abc"));
    assert_eq!(line.times.len(), 2);
    assert_eq!(line.times[0].minutes, 1);
    assert_eq!(line.times[0].seconds, "02");
    assert_eq!(line.times[1].seconds, "04.5");
    for skipped in ["", "; comment", "[Database]", "no equals sign", "12=1:00", "900150983cd24fb0d6963f7d28e17f72="] {
        assert!(parse_line(skipped).is_none() || parse_line(skipped).unwrap().times.is_empty());
    }
}

#[test]
fn recorded_lengths_are_found_again() {
    let mut lengths = SongLengths::new();
    assert!(lengths.is_empty());
    let key = compute_sid_md5(b"abc");
    let one = SongTime { secs: 62, nanos: 0 };
    lengths.record(&key, &vec![Some(one)]);
    assert_eq!(lengths.len(), 1);
    assert_eq!(lengths.lookup(&key).unwrap()[0].secs, 62);
    assert!(lengths.lookup(&compute_sid_md5(b"")).is_none());
    // A line with a time that could not be read, or without any, is skipped.
    lengths.record(&compute_sid_md5(b"x"), &vec![Some(one), None]);
    lengths.record(&compute_sid_md5(b"y"), &vec![]);
    assert_eq!(lengths.len(), 1);
    // A later line replaces an earlier one.
    lengths.record(&key, &vec![Some(SongTime { secs: 7, nanos: 0 })]);
    assert_eq!(lengths.len(), 1);
    assert_eq!(lengths.lookup(&key).unwrap()[0].secs, 7);
}

#[test]
fn durations_are_cut_to_seconds() {
    assert_eq!(format_duration(SongTime { secs: 0, nanos: 999 }), "0:00");
    assert_eq!(format_duration(SongTime { secs: 62, nanos: 0 }), "1:02");
    assert_eq!(format_duration(SongTime { secs: 3_599, nanos: 0 }), "59:59");
}

#[test]
fn unsupported_kinds_have_codes_and_details() {
    let kind = UnsupportedInputKind::MusStrPayload;
    assert!(!kind.code().is_empty());
    assert!(!kind.detail().is_empty());
    let plain = header::parse(&psid(0)).unwrap();
    assert_eq!(UnsupportedInputKind::classify(&plain), None);
}
