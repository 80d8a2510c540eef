use cathedral::search::CandidateEntry;
use cathedral::Lyricism;
use cathedral::StandardCosts;

fn searcher() -> Lyricism<StandardCosts> {
    Lyricism::new(StandardCosts)
}

fn catalog(entries: &[(i64, &str)]) -> Vec<CandidateEntry> {
    entries.iter().map(|(id, title)| CandidateEntry { id: *id, title: title.to_string() }).collect()
}

#[test]
fn top_k_ranks_best_first() {
    let cat = catalog(&[(1, "alphabet"), (2, "alpha"), (3, "gamma")]);
    // the exact query scores far better against "alpha" than the others
    let ids = searcher().top_k(&cat, "alpha", 3);
    assert_eq!(ids[0], 2);
    assert_eq!(ids.len(), 3);
}

#[test]
fn top_k_returns_min_of_k_and_size() {
    let cat = catalog(&[(1, "a"), (2, "b"), (3, "c"), (4, "d")]);
    assert_eq!(searcher().top_k(&cat, "a", 2).len(), 2);
    assert_eq!(searcher().top_k(&cat, "a", 9).len(), 4);
    assert_eq!(searcher().top_k(&cat, "a", 0).len(), 0);
}

#[test]
fn top_k_keeps_catalog_order_on_ties() {
    let cat = catalog(&[(10, "same"), (20, "same"), (30, "same")]);
    let ids = searcher().top_k(&cat, "same", 3);
    assert_eq!(ids, vec![10, 20, 30]);
}

#[test]
fn top_k_excluded_scores_no_better() {
    let e = searcher();
    let cat = catalog(&[(1, "night"), (2, "knight rider"), (3, "nights"), (4, "daylight")]);
    let kept = e.top_k(&cat, "night", 2);
    assert_eq!(kept.len(), 2);
    let best_excluded = cat
        .iter()
        .filter(|c| !kept.contains(&c.id))
        .map(|c| e.distance("night", &c.title))
        .min()
        .unwrap();
    for id in &kept {
        let title = &cat.iter().find(|c| c.id == *id).unwrap().title;
        assert!(e.distance("night", title) <= best_excluded);
    }
}

#[test]
fn top_k_empty_catalog() {
    let cat = catalog(&[]);
    assert_eq!(searcher().top_k(&cat, "anything", 5), Vec::<i64>::new());
}

#[test]
fn best_match_none_on_empty_catalog() {
    let cat = catalog(&[]);
    assert_eq!(searcher().best_match(&cat, "anything"), None);
}

#[test]
fn best_match_picks_lowest_score() {
    let cat = catalog(&[(7, "zzzzzz"), (8, "target"), (9, "tarmac")]);
    assert_eq!(searcher().best_match(&cat, "target"), Some(8));
}

#[test]
fn best_match_prefers_earliest_on_ties() {
    let cat = catalog(&[(5, "twin"), (6, "twin")]);
    assert_eq!(searcher().best_match(&cat, "twin"), Some(5));
    let reversed = catalog(&[(6, "twin"), (5, "twin")]);
    assert_eq!(searcher().best_match(&reversed, "twin"), Some(6));
}

#[test]
fn retrieval_is_idempotent() {
    let e = searcher();
    let cat = catalog(&[(1, "red zone"), (2, "blue rain"), (3, "gold rush")]);
    assert_eq!(e.top_k(&cat, "zone", 2), e.top_k(&cat, "zone", 2));
    assert_eq!(e.best_match(&cat, "rain"), e.best_match(&cat, "rain"));
}
