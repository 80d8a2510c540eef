use cathedral::query_delete;
use cathedral::query_insert;
use cathedral::query_replace;
use cathedral::query_substring;

#[test]
fn insert_whitespace_is_cheapest() {
    assert_eq!(query_insert(' '), 1);
    assert_eq!(query_insert('\t'), 1);
    assert_eq!(query_insert('\n'), 1);
}

#[test]
fn insert_punctuation_is_cheap() {
    assert_eq!(query_insert('!'), 2);
    assert_eq!(query_insert('-'), 2);
    assert_eq!(query_insert('@'), 2);
    assert_eq!(query_insert('~'), 2);
    assert_eq!(query_insert('_'), 2);
}

#[test]
fn insert_ordinary_characters() {
    assert_eq!(query_insert('a'), 7);
    assert_eq!(query_insert('Z'), 7);
    assert_eq!(query_insert('0'), 7);
}

#[test]
fn delete_costs() {
    assert_eq!(query_delete(' '), 2);
    assert_eq!(query_delete('\r'), 2);
    assert_eq!(query_delete('a'), 10);
    assert_eq!(query_delete('!'), 10);
}

#[test]
fn replace_equal_is_free() {
    assert_eq!(query_replace('x', 'x'), 0);
    assert_eq!(query_replace(' ', ' '), 0);
}

#[test]
fn replace_case_only() {
    assert_eq!(query_replace('a', 'A'), 1);
    assert_eq!(query_replace('z', 'Z'), 1);
    assert_eq!(query_replace('A', 'a'), 2);
}

#[test]
fn replace_leet_pairs() {
    assert_eq!(query_replace('e', '3'), 3);
    assert_eq!(query_replace('o', '0'), 3);
    assert_eq!(query_replace('a', 'V'), 3);
    // direction matters
    assert_eq!(query_replace('3', 'e'), 4);
}

#[test]
fn replace_everything_else() {
    assert_eq!(query_replace('a', 'b'), 4);
    assert_eq!(query_replace('A', 'B'), 4);
}

#[test]
fn substring_bonus_formula() {
    assert_eq!(query_substring("abc", 5), -58);
    assert_eq!(query_substring("abc", 4), -58);
    assert_eq!(query_substring("a", 0), -20);
    assert_eq!(query_substring("", 0), 0);
}
