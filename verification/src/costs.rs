//! The cost model of the fuzzy metric: per-character insertion and deletion
//! costs, per-pair replacement costs, and the substring-occurrence bonus.
//!
//! The model is a parameter of the distance engine ([`CostModel`]), so that
//! alternative tunings can be swapped in without touching the engine itself.
//! [`StandardCosts`] is the reference assignment used by the service.

use vstd::prelude::*;

verus! {

/// Every single-step cost of a model is bounded by this constant, so that any
/// score the engine can produce fits comfortably in an `i64`.
pub const MAX_UNIT_COST: u64 = 65535;

/// ASCII whitespace: space, horizontal tab, line feed, form feed, carriage return.
pub open spec fn is_ascii_space(c: char) -> bool {
    c == ' ' || c == '\t' || c == '\n' || c == '\x0c' || c == '\r'
}

/// The ASCII punctuation and symbol characters, as four contiguous code-point
/// ranges: `!`..=`/`, `:`..=`@`, `[`..=`` ` ``, `{`..=`~`.
pub open spec fn is_sign_char(c: char) -> bool {
    let v = c as u32;
    (0x21 <= v && v <= 0x2f) || (0x3a <= v && v <= 0x40) || (0x5b <= v && v <= 0x60) || (0x7b <= v
        && v <= 0x7e)
}

/// `a`..=`z`.
pub open spec fn is_ascii_lower(c: char) -> bool {
    0x61 <= c as u32 && c as u32 <= 0x7a
}

/// `A`..=`Z`.
pub open spec fn is_ascii_upper(c: char) -> bool {
    0x41 <= c as u32 && c as u32 <= 0x5a
}

/// The fixed leetspeak substitutions the metric forgives cheaply; the first
/// component is the query character, the second the target character.
pub open spec fn is_leet_pair(qc: char, tc: char) -> bool {
    (qc == 'e' && tc == '3') || (qc == 'o' && tc == '0') || (qc == 'a' && tc == 'V')
}

/// Insertion cost of the reference model.
pub open spec fn standard_insert_cost(c: char) -> nat {
    if is_ascii_space(c) {
        1
    } else if is_sign_char(c) {
        2
    } else {
        7
    }
}

/// Deletion cost of the reference model.
pub open spec fn standard_delete_cost(c: char) -> nat {
    if is_ascii_space(c) {
        2
    } else {
        10
    }
}

/// Replacement cost of the reference model. A case-only difference is cheap
/// (cheapest when the query is lowercase and the target uppercase), a known
/// leet substitution costs a little more, anything else the full price.
pub open spec fn standard_replace_cost(qc: char, tc: char) -> nat {
    if qc == tc {
        0
    } else if is_ascii_lower(qc) && tc as u32 == qc as u32 - 32 {
        1
    } else if is_ascii_upper(qc) && tc as u32 == qc as u32 + 32 {
        2
    } else if is_leet_pair(qc, tc) {
        3
    } else {
        4
    }
}

/// Substring bonus of the reference model: a large reward per character of the
/// query, weakened by half the position at which the query occurs.
pub open spec fn standard_substring_bonus(q: Seq<char>, position: int) -> int {
    q.len() * (-20) + position / 2
}

/// Insertion cost that transforms the query string into the target string.
pub fn query_insert(c: char) -> (cost: u64)
    ensures
        cost == standard_insert_cost(c),
{
    let v = c as u32;
    if c == ' ' || c == '\t' || c == '\n' || c == '\x0c' || c == '\r' {
        1
    } else if (0x21 <= v && v <= 0x2f) || (0x3a <= v && v <= 0x40) || (0x5b <= v && v <= 0x60) || (
    0x7b <= v && v <= 0x7e) {
        2
    } else {
        7
    }
}

/// Deletion cost that transforms the query string into the target string.
pub fn query_delete(c: char) -> (cost: u64)
    ensures
        cost == standard_delete_cost(c),
{
    if c == ' ' || c == '\t' || c == '\n' || c == '\x0c' || c == '\r' {
        2
    } else {
        10
    }
}

/// Replacement cost that transforms the query string into the target string.
pub fn query_replace(qc: char, tc: char) -> (cost: u64)
    ensures
        cost == standard_replace_cost(qc, tc),
{
    let qv = qc as u32;
    let tv = tc as u32;
    if qc == tc {
        0
    } else if 0x61 <= qv && qv <= 0x7a && tv == qv - 32 {
        1
    } else if 0x41 <= qv && qv <= 0x5a && tv == qv + 32 {
        2
    } else if (qc == 'e' && tc == '3') || (qc == 'o' && tc == '0') || (qc == 'a' && tc == 'V') {
        3
    } else {
        4
    }
}

/// Substring bonus granted when the query occurs verbatim in the target at the
/// given code-point position.
pub fn query_substring(s: &str, position: usize) -> (bonus: i64)
    requires
        s@.len() <= 0x7fff_ffff,
        position <= 0x7fff_ffff,
    ensures
        bonus == standard_substring_bonus(s@, position as int),
{
    let count = s.unicode_len();
    assert(count <= 0x7fff_ffff);
    let scaled: i64 = count as i64;
    assert(scaled * (-20) >= (-20) * 0x7fff_ffff && scaled * (-20) <= 0) by (nonlinear_arith)
        requires
            0 <= scaled <= 0x7fff_ffff,
    ;
    scaled * -20 + (position as i64) / 2
}

/// The four cost functions that drive the distance engine, with the bounds the
/// engine needs to rule out overflow. Implementations must be pure: the spec
/// functions fix each cost, and the executable methods return exactly them.
pub trait CostModel: Sized {
    /// Cost of inserting `c` while turning the query into the target.
    spec fn insert_cost(&self, c: char) -> nat;

    /// Cost of deleting `c` while turning the query into the target.
    spec fn delete_cost(&self, c: char) -> nat;

    /// Cost of replacing the query character `qc` by the target character `tc`.
    spec fn replace_cost(&self, qc: char, tc: char) -> nat;

    /// Signed adjustment applied when the query `q` occurs verbatim in the
    /// target at code-point position `position`.
    spec fn substring_bonus_at(&self, q: Seq<char>, position: int) -> int;

    /// Every single-step cost stays within [`MAX_UNIT_COST`].
    proof fn lemma_unit_cost_bounds(&self, c: char, qc: char, tc: char)
        ensures
            self.insert_cost(c) <= MAX_UNIT_COST,
            self.delete_cost(c) <= MAX_UNIT_COST,
            self.replace_cost(qc, tc) <= MAX_UNIT_COST,
    ;

    /// The bonus is bounded in proportion to the query length and the position.
    proof fn lemma_bonus_bounds(&self, q: Seq<char>, position: int)
        requires
            0 <= position,
        ensures
            -((q.len() + position + 1) * MAX_UNIT_COST) <= self.substring_bonus_at(q, position),
            self.substring_bonus_at(q, position) <= (q.len() + position + 1) * MAX_UNIT_COST,
    ;

    fn insert(&self, c: char) -> (cost: u64)
        ensures
            cost == self.insert_cost(c),
    ;

    fn delete(&self, c: char) -> (cost: u64)
        ensures
            cost == self.delete_cost(c),
    ;

    fn replace(&self, qc: char, tc: char) -> (cost: u64)
        ensures
            cost == self.replace_cost(qc, tc),
    ;

    fn substring_bonus(&self, q: &str, position: usize) -> (bonus: i64)
        requires
            q@.len() <= 0x7fff_ffff,
            position <= 0x7fff_ffff,
        ensures
            bonus == self.substring_bonus_at(q@, position as int),
    ;
}

/// The reference cost model: the four `query_*` functions bundled as a value.
pub struct StandardCosts;

impl CostModel for StandardCosts {
    open spec fn insert_cost(&self, c: char) -> nat {
        standard_insert_cost(c)
    }

    open spec fn delete_cost(&self, c: char) -> nat {
        standard_delete_cost(c)
    }

    open spec fn replace_cost(&self, qc: char, tc: char) -> nat {
        standard_replace_cost(qc, tc)
    }

    open spec fn substring_bonus_at(&self, q: Seq<char>, position: int) -> int {
        standard_substring_bonus(q, position)
    }

    proof fn lemma_unit_cost_bounds(&self, c: char, qc: char, tc: char) {
    }

    proof fn lemma_bonus_bounds(&self, q: Seq<char>, position: int) {
        assert(20 * q.len() <= (q.len() + position + 1) * MAX_UNIT_COST) by (nonlinear_arith)
            requires
                0 <= position,
        ;
        assert(position / 2 <= (q.len() + position + 1) * MAX_UNIT_COST) by (nonlinear_arith)
            requires
                0 <= position,
        ;
    }

    fn insert(&self, c: char) -> (cost: u64) {
        query_insert(c)
    }

    fn delete(&self, c: char) -> (cost: u64) {
        query_delete(c)
    }

    fn replace(&self, qc: char, tc: char) -> (cost: u64) {
        query_replace(qc, tc)
    }

    fn substring_bonus(&self, q: &str, position: usize) -> (bonus: i64) {
        query_substring(q, position)
    }
}

} // verus!
