use cathedral::parser::parse_song_tr;
use cathedral::parser::parse_subheader;
use cathedral::parser::parse_version;
use cathedral::parser::ParseError;
use cathedral::parser::Subheader;
use cathedral::songdata::Difficulty;
use cathedral::songdata::NoteType;
use cathedral::songdata::PlaySide;
use cathedral::songdata::ScratchType;

fn cell(fragments: &[&str]) -> Vec<String> {
    fragments.iter().map(|s| s.to_string()).collect()
}

#[test]
fn version_first_style() {
    let v = parse_version("beatmania IIDX").unwrap();
    assert_eq!(v.name, "beatmania IIDX");
    assert_eq!(v.abbrev, "1st style");
    assert_eq!(v.number, 1);
}

#[test]
fn version_substream() {
    let v = parse_version("beatmania IIDX substream").unwrap();
    assert_eq!(v.abbrev, "substream");
    assert_eq!(v.number, 1);
}

#[test]
fn version_numbered_styles() {
    let v = parse_version("beatmania IIDX 2nd style").unwrap();
    assert_eq!(v.abbrev, "2nd style");
    assert_eq!(v.number, 2);
    let v = parse_version("beatmania IIDX 3rd style").unwrap();
    assert_eq!(v.abbrev, "3rd style");
    assert_eq!(v.number, 3);
    let v = parse_version("beatmania IIDX 10th style").unwrap();
    assert_eq!(v.abbrev, "10th style");
    assert_eq!(v.number, 10);
}

#[test]
fn version_modern_era() {
    let v = parse_version("beatmania IIDX 17 SIRIUS").unwrap();
    assert_eq!(v.abbrev, "SIRIUS");
    assert_eq!(v.number, 17);
    let v = parse_version("beatmania IIDX 25 CANNON BALLERS").unwrap();
    assert_eq!(v.abbrev, "CANNON BALLERS");
    assert_eq!(v.number, 25);
}

#[test]
fn version_rejects_shapeless_text() {
    assert_eq!(parse_version("IIDX"), Err(ParseError::MalformedVersion));
    assert_eq!(parse_version("beatmania IIDX NONUMBER"), Err(ParseError::MalformedVersion));
}

#[test]
fn subheader_version_row() {
    let cells = vec![cell(&["beatmania IIDX 17 SIRIUS", "\u{25B2}\u{25B3}"])];
    match parse_subheader(&cells).unwrap() {
        Subheader::Version(v) => {
            assert_eq!(v.abbrev, "SIRIUS");
            assert_eq!(v.number, 17);
        },
        other => panic!("unexpected subheader: {:?}", other),
    }
}

#[test]
fn subheader_event_row() {
    let cells = vec![cell(&["  SOME EVENT  "])];
    assert_eq!(parse_subheader(&cells), Ok(Subheader::Event("SOME EVENT".to_string())));
}

#[test]
fn subheader_rejects_blank_text() {
    let cells = vec![cell(&["   "])];
    assert_eq!(parse_subheader(&cells), Err(ParseError::EmptySubheader));
}

fn song_row() -> Vec<Vec<String>> {
    vec![
        cell(&["1"]),
        cell(&["5"]),
        cell(&["-"]),
        cell(&["[CN]", "10"]),
        cell(&["-"]),
        cell(&["5"]),
        cell(&["[HBSS]", "9"]),
        cell(&["11"]),
        cell(&["-"]),
        cell(&["120-180"]),
        cell(&[" pop "]),
        cell(&["Song ", "Title "]),
        cell(&[" Artist "]),
    ]
}

#[test]
fn song_row_parses_fields() {
    let (song, _) = parse_song_tr(&song_row()).unwrap();
    assert_eq!(song.genre, "pop");
    assert_eq!(song.title, "Song Title");
    assert_eq!(song.artist, "Artist");
    assert_eq!(song.min_bpm, Some(120));
    assert_eq!(song.max_bpm, 180);
}

#[test]
fn song_row_parses_charts() {
    let (_, diffs) = parse_song_tr(&song_row()).unwrap();
    assert_eq!(diffs.len(), 6);
    assert_eq!(diffs[0].play_side, PlaySide::Single);
    assert_eq!(diffs[0].difficulty, Difficulty::Beginner);
    assert_eq!(diffs[0].level, 1);
    assert_eq!(diffs[1].difficulty, Difficulty::Normal);
    assert_eq!(diffs[1].level, 5);
    // the hyper cell was absent; next is another with a charge-note marker
    assert_eq!(diffs[2].difficulty, Difficulty::Another);
    assert_eq!(diffs[2].level, 10);
    assert_eq!(diffs[2].note_type, Some(NoteType::Charge));
    assert_eq!(diffs[3].play_side, PlaySide::Double);
    assert_eq!(diffs[3].difficulty, Difficulty::Normal);
    assert_eq!(diffs[4].difficulty, Difficulty::Hyper);
    assert_eq!(diffs[4].scratch_type, Some(ScratchType::HellBack));
    assert_eq!(diffs[4].level, 9);
    assert_eq!(diffs[5].difficulty, Difficulty::Another);
    assert_eq!(diffs[5].level, 11);
}

#[test]
fn song_row_indeterminate_tempo() {
    let mut cells = song_row();
    cells[9] = cell(&["\u{203B}"]);
    let (song, _) = parse_song_tr(&cells).unwrap();
    assert_eq!(song.min_bpm, None);
    assert_eq!(song.max_bpm, 0);
}

#[test]
fn song_row_single_tempo() {
    let mut cells = song_row();
    cells[9] = cell(&["150"]);
    let (song, _) = parse_song_tr(&cells).unwrap();
    assert_eq!(song.min_bpm, None);
    assert_eq!(song.max_bpm, 150);
}

#[test]
fn song_row_rejects_wrong_cell_count() {
    let cells = vec![cell(&["only one"])];
    assert_eq!(parse_song_tr(&cells), Err(ParseError::MalformedRow));
}

#[test]
fn song_row_rejects_unreadable_tempo() {
    let mut cells = song_row();
    cells[9] = cell(&["fast"]);
    assert_eq!(parse_song_tr(&cells), Err(ParseError::BadNumber));
}

#[test]
fn chart_cell_level_defaults_to_zero() {
    let mut cells = song_row();
    cells[0] = cell(&["??"]);
    let (_, diffs) = parse_song_tr(&cells).unwrap();
    assert_eq!(diffs[0].level, 0);
}
