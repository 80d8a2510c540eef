use cathedral::Lyricism;
use cathedral::StandardCosts;

fn engine() -> Lyricism<StandardCosts> {
    Lyricism::new(StandardCosts)
}

#[test]
fn single_char_against_itself() {
    assert_eq!(engine().distance("A", "A"), -20);
}

#[test]
fn single_char_against_doubled() {
    assert_eq!(engine().distance("A", "AA"), -13);
}

#[test]
fn doubled_against_single_char() {
    assert_eq!(engine().distance("AA", "A"), 10);
}

#[test]
fn doubled_against_itself() {
    assert_eq!(engine().distance("AA", "AA"), -40);
}

#[test]
fn self_similarity_scales_with_length() {
    assert_eq!(engine().distance("Hello!", "Hello!"), -120);
    assert_eq!(engine().distance("ab cd", "ab cd"), -100);
}

#[test]
fn empty_both_sides() {
    assert_eq!(engine().distance("", ""), 0);
}

#[test]
fn empty_target_sums_deletions() {
    // every non-whitespace character costs 10 to delete
    assert_eq!(engine().distance("ab", ""), 20);
    // whitespace deletes for 2
    assert_eq!(engine().distance(" a", ""), 12);
}

#[test]
fn empty_query_sums_insertions() {
    // two ordinary target characters cost 7 each to insert; the empty query
    // occurs at position 0 with a zero bonus
    assert_eq!(engine().distance("", "AB"), 14);
}

#[test]
fn asymmetric_in_general() {
    let e = engine();
    assert_ne!(e.distance("A", "AA"), e.distance("AA", "A"));
}

#[test]
fn leet_substitution_is_cheap() {
    assert_eq!(engine().distance("e", "3"), 3);
}

#[test]
fn case_difference_is_cheaper_upwards() {
    assert_eq!(engine().distance("a", "A"), 1);
    assert_eq!(engine().distance("A", "a"), 2);
}

#[test]
fn substring_bonus_weakens_with_position() {
    // "b" occurs in "ab" at position 1: base distance plus -20 + 0
    let early = engine().distance("b", "ba");
    let late = engine().distance("b", "ab");
    assert!(early <= late);
}

#[test]
fn identical_calls_identical_results() {
    let e = engine();
    let first = e.distance("queen", "QUEEN ZONE");
    let second = e.distance("queen", "QUEEN ZONE");
    assert_eq!(first, second);
}
