use cathedral::dbschema::FilterQuery;
use cathedral::dbschema::FilterQueryError;
use cathedral::songdata::Difficulty;
use cathedral::songdata::NoteType;
use cathedral::songdata::PlaySide;
use cathedral::songdata::ScratchType;

#[test]
fn version_number_condition() {
    assert_eq!(FilterQuery::from_str("v:28"), Ok(FilterQuery::VersionNumber(28)));
    assert_eq!(FilterQuery::from_str("version:3"), Ok(FilterQuery::VersionNumber(3)));
}

#[test]
fn version_number_must_be_numeric() {
    assert_eq!(FilterQuery::from_str("v:x"), Err(FilterQueryError::InvalidNumber));
    assert_eq!(FilterQuery::from_str("v:"), Err(FilterQueryError::InvalidNumber));
}

#[test]
fn play_side_condition() {
    assert_eq!(FilterQuery::from_str("p:s"), Ok(FilterQuery::PlaySide(PlaySide::Single)));
    assert_eq!(FilterQuery::from_str("p:sp"), Ok(FilterQuery::PlaySide(PlaySide::Single)));
    assert_eq!(FilterQuery::from_str("play:dp"), Ok(FilterQuery::PlaySide(PlaySide::Double)));
    assert_eq!(
        FilterQuery::from_str("p:x"),
        Err(FilterQueryError::InvalidValue("x".to_string()))
    );
}

#[test]
fn difficulty_condition() {
    assert_eq!(FilterQuery::from_str("d:b"), Ok(FilterQuery::Difficulty(Difficulty::Beginner)));
    assert_eq!(
        FilterQuery::from_str("diff:leggendaria"),
        Ok(FilterQuery::Difficulty(Difficulty::Leggendaria))
    );
    assert_eq!(FilterQuery::from_str("d:a"), Ok(FilterQuery::Difficulty(Difficulty::Another)));
    assert_eq!(
        FilterQuery::from_str("d:q"),
        Err(FilterQueryError::InvalidValue("q".to_string()))
    );
}

#[test]
fn level_condition() {
    assert_eq!(FilterQuery::from_str("l:12"), Ok(FilterQuery::Level(12)));
    assert_eq!(FilterQuery::from_str("level:-3"), Ok(FilterQuery::Level(-3)));
    assert_eq!(FilterQuery::from_str("l:twelve"), Err(FilterQueryError::InvalidNumber));
}

#[test]
fn level_condition_at_the_integer_limits() {
    assert_eq!(
        FilterQuery::from_str("l:-9223372036854775808"),
        Ok(FilterQuery::Level(i64::MIN))
    );
    assert_eq!(
        FilterQuery::from_str("l:9223372036854775807"),
        Ok(FilterQuery::Level(i64::MAX))
    );
    assert_eq!(
        FilterQuery::from_str("l:9223372036854775808"),
        Err(FilterQueryError::InvalidNumber)
    );
}

#[test]
fn soflan_condition() {
    assert_eq!(FilterQuery::from_str("f:yes"), Ok(FilterQuery::Soflan(true)));
    assert_eq!(FilterQuery::from_str("f:t"), Ok(FilterQuery::Soflan(true)));
    assert_eq!(FilterQuery::from_str("soflan:no"), Ok(FilterQuery::Soflan(false)));
    assert_eq!(FilterQuery::from_str("f:f"), Ok(FilterQuery::Soflan(false)));
    assert_eq!(
        FilterQuery::from_str("f:maybe"),
        Err(FilterQueryError::InvalidValue("maybe".to_string()))
    );
}

#[test]
fn note_condition_maps_both_spellings_to_charge() {
    assert_eq!(FilterQuery::from_str("n:cn"), Ok(FilterQuery::Note(NoteType::Charge)));
    assert_eq!(FilterQuery::from_str("n:hcn"), Ok(FilterQuery::Note(NoteType::Charge)));
    assert_eq!(
        FilterQuery::from_str("note:x"),
        Err(FilterQueryError::InvalidValue("x".to_string()))
    );
}

#[test]
fn scratch_condition() {
    assert_eq!(FilterQuery::from_str("s:bss"), Ok(FilterQuery::Scratch(ScratchType::Back)));
    assert_eq!(
        FilterQuery::from_str("scratch:h"),
        Ok(FilterQuery::Scratch(ScratchType::HellBack))
    );
    assert_eq!(FilterQuery::from_str("s:m"), Ok(FilterQuery::Scratch(ScratchType::Multi)));
}

#[test]
fn bpm_single_value() {
    assert_eq!(FilterQuery::from_str("b:120"), Ok(FilterQuery::BpmRange(120, 120)));
}

#[test]
fn bpm_full_range() {
    assert_eq!(FilterQuery::from_str("bpm:100-200"), Ok(FilterQuery::BpmRange(100, 200)));
}

#[test]
fn bpm_open_ranges() {
    assert_eq!(FilterQuery::from_str("b:-"), Ok(FilterQuery::BpmRange(i64::MIN, i64::MAX)));
    assert_eq!(FilterQuery::from_str("b:-200"), Ok(FilterQuery::BpmRange(i64::MIN, 200)));
    assert_eq!(FilterQuery::from_str("b:100-"), Ok(FilterQuery::BpmRange(100, i64::MAX)));
}

#[test]
fn bpm_rejects_non_numbers() {
    assert_eq!(FilterQuery::from_str("b:x"), Err(FilterQueryError::InvalidNumber));
    assert_eq!(FilterQuery::from_str("b:a-b"), Err(FilterQueryError::InvalidNumber));
}

#[test]
fn unknown_key() {
    assert_eq!(
        FilterQuery::from_str("z:1"),
        Err(FilterQueryError::UnknownQuery("z".to_string()))
    );
}

#[test]
fn missing_colon_leaves_value_empty() {
    assert_eq!(
        FilterQuery::from_str("p"),
        Err(FilterQueryError::InvalidValue(String::new()))
    );
}

#[test]
fn extra_colon_parts_are_ignored() {
    assert_eq!(FilterQuery::from_str("l:7:9"), Ok(FilterQuery::Level(7)));
}

#[test]
fn where_clauses() {
    assert_eq!(FilterQuery::VersionNumber(1).where_clause_str(), "versions.number = ?");
    assert_eq!(
        FilterQuery::PlaySide(PlaySide::Single).where_clause_str(),
        "diffs.play_side = ?"
    );
    assert_eq!(
        FilterQuery::Difficulty(Difficulty::Hyper).where_clause_str(),
        "diffs.difficulty = ?"
    );
    assert_eq!(FilterQuery::Level(9).where_clause_str(), "diffs.level = ?");
    assert_eq!(
        FilterQuery::Soflan(true).where_clause_str(),
        "(songs.min_bpm IS NOT NULL) = ?"
    );
    assert_eq!(FilterQuery::Note(NoteType::Charge).where_clause_str(), "songs.cn_type = ?");
    assert_eq!(
        FilterQuery::Scratch(ScratchType::Multi).where_clause_str(),
        "songs.bss_type = ?"
    );
    assert_eq!(
        FilterQuery::BpmRange(1, 2).where_clause_str(),
        "songs.max_bpm BETWEEN ? and ?"
    );
}

#[test]
fn error_messages() {
    assert_eq!(FilterQueryError::InvalidFormat.message(), "invalid query format");
    assert_eq!(
        FilterQueryError::UnknownQuery("x".to_string()).message(),
        "unknown query type: x"
    );
    assert_eq!(
        FilterQueryError::InvalidValue("y".to_string()).message(),
        "invalid query value: y"
    );
    assert_eq!(FilterQueryError::InvalidNumber.message(), "invalid number");
}
