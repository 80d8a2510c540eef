use cathedral::dbschema::Diff;
use cathedral::dbschema::FilterQuery;
use cathedral::dbschema::Song;
use cathedral::dbschema::Version;
use cathedral::numtext::i64_to_string;
use cathedral::numtext::u64_to_string;
use cathedral::render::attachment_for_song;
use cathedral::render::bpm_field;
use cathedral::render::diff_line;
use cathedral::render::diff_lines;
use cathedral::render::enqueue_result;
use cathedral::render::join_strings;
use cathedral::render::level_field;
use cathedral::songdata::Difficulty;
use cathedral::songdata::PlaySide;
use cathedral::sqlbuild::diffs_by_ids_sql;
use cathedral::sqlbuild::diffs_by_song_ids_sql;
use cathedral::sqlbuild::filter_diffs_sql;
use cathedral::sqlbuild::in_placeholders;
use cathedral::sqlbuild::song_summaries_sql;
use cathedral::sqlbuild::songs_with_versions_sql;
use cathedral::summary::arrange_search_results;
use cathedral::summary::SongSummary;

fn sample_song() -> Song {
    Song {
        version_id: 17,
        id: 1,
        genre: "pop".to_string(),
        title: "T".to_string(),
        artist: "A".to_string(),
        min_bpm: None,
        max_bpm: 150,
        unlock_info: None,
    }
}

fn sample_version() -> Version {
    Version { id: 17, name: "beatmania IIDX 17 SIRIUS".to_string(), abbrev: "SIRIUS".to_string() }
}

fn chart(song_id: i64, side: PlaySide, difficulty: Difficulty, level: i64) -> Diff {
    Diff { song_id, play_side: side, difficulty, level, note_type: None, scratch_type: None }
}

#[test]
fn decimal_renderings() {
    assert_eq!(u64_to_string(0), "0");
    assert_eq!(u64_to_string(1200), "1200");
    assert_eq!(i64_to_string(-45), "-45");
    assert_eq!(i64_to_string(7), "7");
    assert_eq!(i64_to_string(i64::MIN), "-9223372036854775808");
}

#[test]
fn level_field_text() {
    assert_eq!(level_field(Difficulty::Hyper, 12), ":diff-h: :level-12:");
    assert_eq!(level_field(Difficulty::Leggendaria, 9), ":diff-l: :level-9:");
}

#[test]
fn bpm_field_text() {
    assert_eq!(bpm_field(Some(120), 180), "120 - 180");
    assert_eq!(bpm_field(None, 150), "150");
}

#[test]
fn joining() {
    let parts = vec!["a".to_string(), "b".to_string(), "c".to_string()];
    assert_eq!(join_strings(&parts, " / "), "a / b / c");
    assert_eq!(join_strings(&Vec::new(), " / "), "");
    assert_eq!(join_strings(&vec!["x".to_string()], " / "), "x");
}

#[test]
fn chart_line_text() {
    let d = chart(1, PlaySide::Double, Difficulty::Another, 12);
    assert_eq!(diff_line(&d, "T", "RED"), "* [DP :diff-a: :level-12:] **T** (RED)");
}

#[test]
fn chart_lines_skip_unfetched_songs() {
    let pairs = vec![(sample_song(), sample_version())];
    let charts = vec![
        chart(1, PlaySide::Single, Difficulty::Hyper, 10),
        chart(99, PlaySide::Single, Difficulty::Hyper, 11),
    ];
    let lines = diff_lines(&charts, &pairs);
    assert_eq!(lines, vec!["* [SP :diff-h: :level-10:] **T** (SIRIUS)".to_string()]);
}

#[test]
fn song_card_fields() {
    let song = sample_song();
    let version = sample_version();
    let charts = vec![
        chart(1, PlaySide::Single, Difficulty::Normal, 5),
        chart(1, PlaySide::Single, Difficulty::Hyper, 9),
        chart(1, PlaySide::Double, Difficulty::Another, 11),
        chart(2, PlaySide::Single, Difficulty::Another, 12),
    ];
    let card = attachment_for_song(&song, &version, &charts);
    assert_eq!(card.title, "T / A");
    assert_eq!(card.footer, "beatmania IIDX 17 SIRIUS");
    assert_eq!(card.fields.len(), 3);
    assert_eq!(card.fields[0].title, "SP Levels");
    assert_eq!(card.fields[0].value, ":diff-n: :level-5: / :diff-h: :level-9:");
    assert_eq!(card.fields[1].title, "DP Levels");
    assert_eq!(card.fields[1].value, ":diff-a: :level-11:");
    assert_eq!(card.fields[2].title, "BPM");
    assert_eq!(card.fields[2].value, "150");
    assert!(card.fields.iter().all(|f| f.short));
}

#[test]
fn chat_message_shape() {
    let texts = vec!["one".to_string(), "two".to_string()];
    let message = enqueue_result(&texts, Vec::new());
    assert_eq!(message.username, "Cathedral");
    assert_eq!(message.text, "one\ntwo");
    assert!(message.attachments.is_empty());
}

#[test]
fn placeholder_lists() {
    assert_eq!(in_placeholders(1), "?");
    assert_eq!(in_placeholders(3), "?, ?, ?");
}

#[test]
fn statement_texts() {
    assert!(songs_with_versions_sql(2).ends_with("WHERE songs.id IN (?, ?);"));
    assert!(song_summaries_sql(2).ends_with("WHERE songs.id IN (?,?);"));
    assert!(diffs_by_song_ids_sql(1).ends_with("WHERE diffs.song_id IN (?);"));
    assert!(
        diffs_by_ids_sql(2).ends_with(
            "WHERE (diffs.song_id, diffs.play_side, diffs.difficulty) IN ((?, ?, ?), (?, ?, ?));"
        )
    );
}

#[test]
fn filter_statement_joins_conditions() {
    let queries = vec![FilterQuery::Level(5), FilterQuery::Soflan(true)];
    let sql = filter_diffs_sql(&queries);
    assert!(sql.ends_with("WHERE diffs.level = ? AND (songs.min_bpm IS NOT NULL) = ?;"));
    assert!(sql.starts_with("SELECT diffs.song_id, diffs.play_side, diffs.difficulty FROM diffs"));
}

#[test]
fn search_results_follow_ranking_order() {
    let rows = vec![
        SongSummary {
            id: 1,
            version_abbrev: "RED".to_string(),
            genre: "g1".to_string(),
            title: "t1".to_string(),
            artist: "a1".to_string(),
        },
        SongSummary {
            id: 3,
            version_abbrev: "SIRIUS".to_string(),
            genre: "g3".to_string(),
            title: "t3".to_string(),
            artist: "a3".to_string(),
        },
    ];
    let ids = vec![3, 1, 9];
    let arranged = arrange_search_results(&ids, &rows);
    assert_eq!(arranged.len(), 2);
    assert_eq!(arranged[0].id, 3);
    assert_eq!(arranged[0].version_abbrev, "SIRIUS");
    assert_eq!(arranged[1].id, 1);
    assert_eq!(arranged[1].title, "t1");
}
