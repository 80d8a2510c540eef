use cathedral::dbschema::FilterQuery;
use cathedral::dbschema::FilterQueryError;
use cathedral::plan::choose_diff_keys;
use cathedral::plan::parse_compact_queries;
use cathedral::plan::parse_extended_query;
use cathedral::plan::plan_enqueue_text;
use cathedral::plan::DiffKey;
use cathedral::plan::EnqueuePlan;
use cathedral::songdata::Difficulty;
use cathedral::songdata::PlaySide;

#[test]
fn extended_query_parses_every_token() {
    let (filters, count) = parse_extended_query(" v:28  l:12 ").unwrap();
    assert_eq!(count, 1);
    assert_eq!(filters, vec![FilterQuery::VersionNumber(28), FilterQuery::Level(12)]);
}

#[test]
fn extended_query_empty_text() {
    let (filters, count) = parse_extended_query("   ").unwrap();
    assert_eq!(count, 1);
    assert_eq!(filters, Vec::<FilterQuery>::new());
}

#[test]
fn extended_query_reports_first_error() {
    assert_eq!(
        parse_extended_query("l:1 z:2 q:3"),
        Err(FilterQueryError::UnknownQuery("z".to_string()))
    );
}

#[test]
fn compact_queries_parse_known_prefixes() {
    let queries = parse_compact_queries("sph12 dpa11*3");
    assert_eq!(queries.len(), 2);
    assert_eq!(
        queries[0].0,
        [
            FilterQuery::PlaySide(PlaySide::Single),
            FilterQuery::Difficulty(Difficulty::Beginner),
            FilterQuery::Level(12),
        ]
    );
    assert_eq!(queries[0].1, 1);
    assert_eq!(
        queries[1].0,
        [
            FilterQuery::PlaySide(PlaySide::Single),
            FilterQuery::Difficulty(Difficulty::Beginner),
            FilterQuery::Level(11),
        ]
    );
    assert_eq!(queries[1].1, 3);
}

#[test]
fn compact_queries_skip_bad_tokens() {
    // too short, unknown prefix, bad level, bad count
    let queries = parse_compact_queries("spb xx9 sphx spa7*z dph8");
    assert_eq!(queries.len(), 1);
    assert_eq!(queries[0].0[2], FilterQuery::Level(8));
    assert_eq!(queries[0].1, 1);
}

#[test]
fn compact_query_extra_star_parts_ignored() {
    let queries = parse_compact_queries("spn10*2*9");
    assert_eq!(queries.len(), 1);
    assert_eq!(queries[0].0[2], FilterQuery::Level(10));
    assert_eq!(queries[0].1, 2);
}

#[test]
fn plan_comment_text_asks_nothing() {
    assert_eq!(plan_enqueue_text("// just a note"), Ok(None));
}

#[test]
fn plan_classifies_lines() {
    let plans = plan_enqueue_text("red zone\n?l:12\n!sph10*2\n\n  \n").unwrap().unwrap();
    assert_eq!(plans.len(), 3);
    assert_eq!(plans[0], EnqueuePlan::Title("red zone".to_string()));
    assert_eq!(plans[1], EnqueuePlan::Filters(vec![FilterQuery::Level(12)], 1));
    match &plans[2] {
        EnqueuePlan::Compact(queries) => {
            assert_eq!(queries.len(), 1);
            assert_eq!(queries[0].0[2], FilterQuery::Level(10));
            assert_eq!(queries[0].1, 2);
        },
        other => panic!("unexpected plan: {:?}", other),
    }
}

#[test]
fn plan_trims_lines() {
    let plans = plan_enqueue_text("  spaced title  ").unwrap().unwrap();
    assert_eq!(plans, vec![EnqueuePlan::Title("spaced title".to_string())]);
}

#[test]
fn plan_propagates_filter_errors() {
    assert_eq!(
        plan_enqueue_text("good title\n?z:1"),
        Err(FilterQueryError::UnknownQuery("z".to_string()))
    );
}

#[test]
fn choose_caps_at_available() {
    let filtered: Vec<DiffKey> = vec![
        (1, PlaySide::Single, Difficulty::Beginner),
        (2, PlaySide::Double, Difficulty::Hyper),
        (3, PlaySide::Single, Difficulty::Another),
    ];
    assert_eq!(choose_diff_keys(&filtered, 10).len(), 3);
    assert_eq!(choose_diff_keys(&filtered, 0).len(), 0);
}

#[test]
fn choose_draws_from_the_input() {
    let filtered: Vec<DiffKey> = vec![
        (1, PlaySide::Single, Difficulty::Beginner),
        (2, PlaySide::Double, Difficulty::Hyper),
        (3, PlaySide::Single, Difficulty::Another),
    ];
    let chosen = choose_diff_keys(&filtered, 2);
    assert_eq!(chosen.len(), 2);
    for key in &chosen {
        assert!(filtered.contains(key));
    }
    assert_ne!(chosen[0], chosen[1]);
}
