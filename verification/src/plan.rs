//! Planning for the chat-webhook endpoint: classify each line of the posted
//! text into a chart-filter query, a compact chart query or a song-title
//! lookup, and pick a random sample of the charts a filter matched.
//!
//! The surrounding request loop performs the database work; everything that
//! decides is here.

use vstd::prelude::*;

use rand::rngs::ThreadRng;
use rand::seq::SliceRandom;

use crate::dbschema::filter_query_parses_to;
use crate::dbschema::filter_token_ok;
use crate::dbschema::FilterQuery;
use crate::dbschema::FilterQueryError;
use crate::numtext::i64_string_val;
use crate::numtext::i64_string_wf;
use crate::numtext::parse_i64;
use crate::numtext::parse_usize;
use crate::numtext::uint_string_val;
use crate::numtext::uint_string_wf;
use crate::songdata::Difficulty;
use crate::songdata::PlaySide;
use crate::text::ascii_tokens;
use crate::text::chars_equal_str;
use crate::text::chars_of;
use crate::text::split_ascii_tokens;
use crate::text::split_at_char;
use crate::text::split_chars;
use crate::text::string_of;
use crate::text::sub_chars;
use crate::text::trim_chars;
use crate::text::trimmed;

verus! {

/// The key of one chart row: song identifier, play side and difficulty.
pub type DiffKey = (i64, PlaySide, Difficulty);

/// What one non-empty line of the posted text asks for.
#[derive(Clone, Debug, PartialEq, Eq)]
pub enum EnqueuePlan {
    /// A `?`-prefixed line: filter conditions and how many matching charts to
    /// draw.
    Filters(Vec<FilterQuery>, usize),
    /// A `!`-prefixed line: compact chart queries, each with its own draw
    /// count.
    Compact(Vec<([FilterQuery; 3], usize)>),
    /// Any other line: a song title to resolve by fuzzy match.
    Title(String),
}

/// The index of the first token that no condition family accepts, or the
/// token count when every token parses.
pub open spec fn first_bad_token(ts: Seq<Seq<char>>) -> int
    decreases ts.len(),
{
    if ts.len() == 0 {
        0
    } else if !filter_token_ok(ts[0]) {
        0
    } else {
        1 + first_bad_token(ts.drop_first())
    }
}

proof fn lemma_first_bad_token_at(ts: Seq<Seq<char>>, i: int)
    requires
        0 <= i <= ts.len(),
        forall|j: int| 0 <= j < i ==> filter_token_ok(#[trigger] ts[j]),
        i < ts.len() ==> !filter_token_ok(ts[i]),
    ensures
        first_bad_token(ts) == i,
    decreases i,
{
    if ts.len() == 0 {
    } else if i == 0 {
    } else {
        assert(filter_token_ok(ts[0]));
        let t1 = ts.drop_first();
        assert(forall|j: int| 0 <= j < i - 1 ==> #[trigger] t1[j] == ts[j + 1]);
        lemma_first_bad_token_at(t1, i - 1);
    }
}

/// The white-space-separated tokens of a filter line, after trimming.
pub open spec fn filter_tokens(s: Seq<char>) -> Seq<Seq<char>> {
    ascii_tokens(trimmed(s))
}

/// Parse the tokens of `v` as filter conditions, exactly as the extended
/// query line does.
fn parse_extended_chars(v: &Vec<char>) -> (r: Result<(Vec<FilterQuery>, usize), FilterQueryError>)
    ensures
        ({
            let ts = filter_tokens(v@);
            match r {
                Ok((fs, count)) => first_bad_token(ts) == ts.len() && count == 1 && fs@.len()
                    == ts.len() && (forall|i: int|
                    0 <= i < ts.len() ==> filter_query_parses_to(ts[i], Ok(#[trigger] fs@[i]))),
                Err(e) => first_bad_token(ts) < ts.len() && filter_query_parses_to(
                    ts[first_bad_token(ts)],
                    Err(e),
                ),
            }
        }),
{
    let trimmed_chars = trim_chars(v);
    let tokens = split_ascii_tokens(&trimmed_chars);
    let ghost ts = filter_tokens(v@);
    assert(tokens@.map_values(|p: Vec<char>| p@) == ts);
    let mut filters: Vec<FilterQuery> = Vec::new();
    let mut i: usize = 0;
    while i < tokens.len()
        invariant
            ts == filter_tokens(v@),
            tokens@.map_values(|p: Vec<char>| p@) == ts,
            i <= ts.len(),
            filters@.len() == i,
            forall|j: int| 0 <= j < i ==> filter_token_ok(#[trigger] ts[j]),
            forall|j: int|
                0 <= j < i ==> filter_query_parses_to(ts[j], Ok(#[trigger] filters@[j])),
        decreases ts.len() - i,
    {
        let token_str = string_of(&tokens[i]);
        assert(token_str@ == ts[i as int]);
        match FilterQuery::from_str(token_str.as_str()) {
            Ok(f) => {
                proof {
                    crate::dbschema::lemma_filter_token_outcome(ts[i as int], Ok(f));
                }
                filters.push(f);
            },
            Err(e) => {
                proof {
                    crate::dbschema::lemma_filter_token_outcome(ts[i as int], Err(e));
                    lemma_first_bad_token_at(ts, i as int);
                }
                return Err(e);
            },
        }
        i = i + 1;
    }
    proof {
        lemma_first_bad_token_at(ts, ts.len() as int);
    }
    Ok((filters, 1))
}

/// Parse a whole extended-query line (everything after the `?`): every
/// white-space-separated token must be a valid condition; the draw count of
/// such a line is always one.
pub fn parse_extended_query(query: &str) -> (r: Result<
    (Vec<FilterQuery>, usize),
    FilterQueryError,
>)
    ensures
        ({
            let ts = filter_tokens(query@);
            match r {
                Ok((fs, count)) => first_bad_token(ts) == ts.len() && count == 1 && fs@.len()
                    == ts.len() && (forall|i: int|
                    0 <= i < ts.len() ==> filter_query_parses_to(ts[i], Ok(#[trigger] fs@[i]))),
                Err(e) => first_bad_token(ts) < ts.len() && filter_query_parses_to(
                    ts[first_bad_token(ts)],
                    Err(e),
                ),
            }
        }),
{
    let chars = chars_of(query);
    parse_extended_chars(&chars)
}

/// The play-side/difficulty prefixes a compact token may start with; every
/// one of them selects single-play beginner, the only mapping the service
/// has ever applied.
pub open spec fn is_compact_prefix(p: Seq<char>) -> bool {
    p == "spb"@ || p == "spn"@ || p == "sph"@ || p == "spa"@ || p == "spl"@ || p == "dpn"@ || p
        == "dph"@ || p == "dpa"@ || p == "dpl"@
}

/// The level and draw count a compact token asks for, if it is well-formed:
/// a known three-character prefix, a level, and optionally `*` and a count.
pub open spec fn compact_of(t: Seq<char>) -> Option<(int, nat)> {
    if t.len() <= 3 {
        None
    } else if !is_compact_prefix(t.take(3)) {
        None
    } else {
        let parts = split_at_char(t.skip(3), '*');
        if !i64_string_wf(parts[0]) {
            None
        } else if parts.len() >= 2 {
            if uint_string_wf(parts[1], usize::MAX as int) {
                Some((i64_string_val(parts[0]), uint_string_val(parts[1])))
            } else {
                None
            }
        } else {
            Some((i64_string_val(parts[0]), 1))
        }
    }
}

/// The parsed entries of a sequence of compact tokens, in order; tokens that
/// [`compact_of`] rejects are skipped.
pub open spec fn compact_queries_spec(ts: Seq<Seq<char>>) -> Seq<(int, nat)>
    decreases ts.len(),
{
    if ts.len() == 0 {
        Seq::<(int, nat)>::empty()
    } else {
        let done = compact_queries_spec(ts.drop_last());
        match compact_of(ts.last()) {
            Some(p) => done.push(p),
            None => done,
        }
    }
}

/// The query triple and count produced for one parsed compact entry.
pub open spec fn compact_entry_matches(e: ([FilterQuery; 3], usize), p: (int, nat)) -> bool {
    e.0@ == seq![
        FilterQuery::PlaySide(PlaySide::Single),
        FilterQuery::Difficulty(Difficulty::Beginner),
        FilterQuery::Level(p.0 as i64),
    ] && e.1 as nat == p.1
}

/// Parse the tokens of a compact line into query triples and counts.
fn parse_compact_chars(v: &Vec<char>) -> (r: Vec<([FilterQuery; 3], usize)>)
    ensures
        ({
            let qs = compact_queries_spec(filter_tokens(v@));
            r@.len() == qs.len() && (forall|i: int|
                0 <= i < qs.len() ==> compact_entry_matches(#[trigger] r@[i], qs[i]))
        }),
{
    let trimmed_chars = trim_chars(v);
    let tokens = split_ascii_tokens(&trimmed_chars);
    let ghost ts = filter_tokens(v@);
    assert(tokens@.map_values(|p: Vec<char>| p@) == ts);
    let mut queries: Vec<([FilterQuery; 3], usize)> = Vec::new();
    let mut i: usize = 0;
    while i < tokens.len()
        invariant
            tokens@.map_values(|p: Vec<char>| p@) == ts,
            i <= ts.len(),
            ({
                let qs = compact_queries_spec(ts.take(i as int));
                queries@.len() == qs.len() && (forall|j: int|
                    0 <= j < qs.len() ==> compact_entry_matches(#[trigger] queries@[j], qs[j]))
            }),
        decreases ts.len() - i,
    {
        let token = &tokens[i];
        assert(token@ == ts[i as int]);
        proof {
            assert(ts.take(i + 1).drop_last() =~= ts.take(i as int));
            assert(ts.take(i + 1).last() == ts[i as int]);
        }
        if token.len() > 3 {
            let prefix = sub_chars(token, 0, 3);
            assert(prefix@ == token@.take(3));
            let known = chars_equal_str(&prefix, "spb") || chars_equal_str(&prefix, "spn")
                || chars_equal_str(&prefix, "sph") || chars_equal_str(&prefix, "spa")
                || chars_equal_str(&prefix, "spl") || chars_equal_str(&prefix, "dpn")
                || chars_equal_str(&prefix, "dph") || chars_equal_str(&prefix, "dpa")
                || chars_equal_str(&prefix, "dpl");
            if known {
                let rest = sub_chars(token, 3, token.len());
                assert(rest@ == token@.skip(3));
                let level_count = split_chars(&rest, '*');
                let ghost parts = split_at_char(token@.skip(3), '*');
                assert(level_count@[0]@ == parts[0]);
                match parse_i64(&level_count[0]) {
                    Some(level) => {
                        if level_count.len() >= 2 {
                            assert(level_count@[1]@ == parts[1]);
                            match parse_usize(&level_count[1]) {
                                Some(count) => {
                                    queries.push(
                                        (
                                            [
                                                FilterQuery::PlaySide(PlaySide::Single),
                                                FilterQuery::Difficulty(Difficulty::Beginner),
                                                FilterQuery::Level(level),
                                            ],
                                            count,
                                        ),
                                    );
                                },
                                None => {},
                            }
                        } else {
                            queries.push(
                                (
                                    [
                                        FilterQuery::PlaySide(PlaySide::Single),
                                        FilterQuery::Difficulty(Difficulty::Beginner),
                                        FilterQuery::Level(level),
                                    ],
                                    1,
                                ),
                            );
                        }
                    },
                    None => {},
                }
            }
        }
        i = i + 1;
    }
    proof {
        assert(ts.take(ts.len() as int) =~= ts);
    }
    queries
}

/// Parse a whole compact line (everything after the `!`).
pub fn parse_compact_queries(text: &str) -> (r: Vec<([FilterQuery; 3], usize)>)
    ensures
        ({
            let qs = compact_queries_spec(filter_tokens(text@));
            r@.len() == qs.len() && (forall|i: int|
                0 <= i < qs.len() ==> compact_entry_matches(#[trigger] r@[i], qs[i]))
        }),
{
    let chars = chars_of(text);
    parse_compact_chars(&chars)
}

/// The trimmed, non-empty members of a sequence of raw lines, in order.
pub open spec fn nonempty_trimmed(ls: Seq<Seq<char>>) -> Seq<Seq<char>>
    decreases ls.len(),
{
    if ls.len() == 0 {
        Seq::<Seq<char>>::empty()
    } else {
        let done = nonempty_trimmed(ls.drop_last());
        if trimmed(ls.last()).len() > 0 {
            done.push(trimmed(ls.last()))
        } else {
            done
        }
    }
}

/// The lines of the posted text that ask for something: split on newlines,
/// trimmed, blanks dropped.
pub open spec fn nonblank_lines(text: Seq<char>) -> Seq<Seq<char>> {
    nonempty_trimmed(split_at_char(text, '\n'))
}

proof fn lemma_nonempty_trimmed_split(ls: Seq<Seq<char>>, j: int)
    requires
        0 <= j <= ls.len(),
    ensures
        nonempty_trimmed(ls) == nonempty_trimmed(ls.take(j)) + nonempty_trimmed(ls.skip(j)),
    decreases ls.len(),
{
    if j == ls.len() {
        assert(ls.take(j) =~= ls);
        assert(nonempty_trimmed(ls.skip(j)) =~= Seq::<Seq<char>>::empty());
        assert(nonempty_trimmed(ls) =~= nonempty_trimmed(ls.take(j)) + nonempty_trimmed(
            ls.skip(j),
        ));
    } else {
        let l1 = ls.drop_last();
        lemma_nonempty_trimmed_split(l1, j);
        assert(l1.take(j) =~= ls.take(j));
        assert(l1.skip(j) =~= ls.skip(j).drop_last());
        assert(ls.skip(j).last() == ls.last());
        if trimmed(ls.last()).len() > 0 {
            assert(nonempty_trimmed(ls) == nonempty_trimmed(l1).push(trimmed(ls.last())));
            assert(nonempty_trimmed(ls.skip(j)) == nonempty_trimmed(ls.skip(j).drop_last()).push(
                trimmed(ls.last()),
            ));
            assert(nonempty_trimmed(ls) =~= nonempty_trimmed(ls.take(j)) + nonempty_trimmed(
                ls.skip(j),
            ));
        } else {
            assert(nonempty_trimmed(ls) =~= nonempty_trimmed(ls.take(j)) + nonempty_trimmed(
                ls.skip(j),
            ));
        }
    }
}

/// A non-empty line does not fail: either it is no extended filter query, or
/// every one of its tokens parses.
pub open spec fn line_ok(line: Seq<char>) -> bool {
    if line.len() >= 1 && line[0] == '?' {
        let ts = filter_tokens(line.skip(1));
        first_bad_token(ts) == ts.len()
    } else {
        true
    }
}

/// The index of the first failing line, or the line count when none fails.
pub open spec fn first_bad_line(ls: Seq<Seq<char>>) -> int
    decreases ls.len(),
{
    if ls.len() == 0 {
        0
    } else if !line_ok(ls[0]) {
        0
    } else {
        1 + first_bad_line(ls.drop_first())
    }
}

proof fn lemma_first_bad_line_at(ls: Seq<Seq<char>>, i: int)
    requires
        0 <= i <= ls.len(),
        forall|j: int| 0 <= j < i ==> line_ok(#[trigger] ls[j]),
        i < ls.len() ==> !line_ok(ls[i]),
    ensures
        first_bad_line(ls) == i,
    decreases i,
{
    if ls.len() == 0 {
    } else if i == 0 {
    } else {
        assert(line_ok(ls[0]));
        let l1 = ls.drop_first();
        assert(forall|j: int| 0 <= j < i - 1 ==> #[trigger] l1[j] == ls[j + 1]);
        lemma_first_bad_line_at(l1, i - 1);
    }
}

/// What one plan promises about the line it came from.
pub open spec fn plan_matches(p: EnqueuePlan, line: Seq<char>) -> bool {
    if line.len() >= 1 && line[0] == '?' {
        let ts = filter_tokens(line.skip(1));
        match p {
            EnqueuePlan::Filters(fs, count) => first_bad_token(ts) == ts.len() && count == 1
                && fs@.len() == ts.len() && (forall|i: int|
                0 <= i < ts.len() ==> filter_query_parses_to(ts[i], Ok(#[trigger] fs@[i]))),
            _ => false,
        }
    } else if line.len() >= 1 && line[0] == '!' {
        let qs = compact_queries_spec(filter_tokens(line.skip(1)));
        match p {
            EnqueuePlan::Compact(entries) => entries@.len() == qs.len() && (forall|i: int|
                0 <= i < qs.len() ==> compact_entry_matches(#[trigger] entries@[i], qs[i])),
            _ => false,
        }
    } else {
        match p {
            EnqueuePlan::Title(t) => t@ == line,
            _ => false,
        }
    }
}

/// Classify every line of the posted text. A text opening with `//` is a
/// comment and asks for nothing; otherwise each non-blank line becomes one
/// plan, and the first ill-formed extended query aborts the whole text with
/// its error, as the request handler does.
pub fn plan_enqueue_text(text: &str) -> (r: Result<Option<Vec<EnqueuePlan>>, FilterQueryError>)
    ensures
        ({
            let comment = text@.len() >= 2 && text@[0] == '/' && text@[1] == '/';
            let lines = nonblank_lines(text@);
            match r {
                Ok(None) => comment,
                Ok(Some(plans)) => !comment && first_bad_line(lines) == lines.len() && plans@.len()
                    == lines.len() && (forall|i: int|
                    0 <= i < lines.len() ==> plan_matches(#[trigger] plans@[i], lines[i])),
                Err(e) => !comment && first_bad_line(lines) < lines.len() && ({
                    let bad = lines[first_bad_line(lines)];
                    let ts = filter_tokens(bad.skip(1));
                    bad.len() >= 1 && bad[0] == '?' && first_bad_token(ts) < ts.len()
                        && filter_query_parses_to(ts[first_bad_token(ts)], Err(e))
                }),
            }
        }),
{
    let chars = chars_of(text);
    if chars.len() >= 2 {
        let c0 = chars[0];
        let c1 = chars[1];
        if c0 == '/' && c1 == '/' {
            return Ok(None);
        }
    }
    let raw_lines = split_chars(&chars, '\n');
    let ghost sl = split_at_char(text@, '\n');
    assert(raw_lines@.map_values(|p: Vec<char>| p@) == sl);
    let ghost lines = nonblank_lines(text@);
    let mut plans: Vec<EnqueuePlan> = Vec::new();
    let mut idx: usize = 0;
    while idx < raw_lines.len()
        invariant
            sl == split_at_char(text@, '\n'),
            lines == nonblank_lines(text@),
            raw_lines@.map_values(|p: Vec<char>| p@) == sl,
            idx <= sl.len(),
            !(text@.len() >= 2 && text@[0] == '/' && text@[1] == '/'),
            ({
                let done = nonempty_trimmed(sl.take(idx as int));
                plans@.len() == done.len() && (forall|j: int|
                    0 <= j < done.len() ==> plan_matches(#[trigger] plans@[j], done[j])) && (
                forall|j: int| 0 <= j < done.len() ==> line_ok(#[trigger] done[j]))
            }),
        decreases sl.len() - idx,
    {
        let ghost done = nonempty_trimmed(sl.take(idx as int));
        assert(raw_lines@[idx as int]@ == sl[idx as int]);
        let line = trim_chars(&raw_lines[idx]);
        assert(line@ == trimmed(sl[idx as int]));
        proof {
            assert(sl.take(idx + 1).drop_last() =~= sl.take(idx as int));
            assert(sl.take(idx + 1).last() == sl[idx as int]);
        }
        if line.len() == 0 {
            assert(nonempty_trimmed(sl.take(idx + 1)) == done);
        } else {
            assert(nonempty_trimmed(sl.take(idx + 1)) == done.push(line@));
            let first = line[0];
            if first == '?' {
                let rest = sub_chars(&line, 1, line.len());
                assert(rest@ == line@.skip(1));
                match parse_extended_chars(&rest) {
                    Ok((filters, count)) => {
                        plans.push(EnqueuePlan::Filters(filters, count));
                    },
                    Err(e) => {
                        proof {
                            lemma_nonempty_trimmed_split(sl, idx as int);
                            lemma_nonempty_trimmed_split(sl.skip(idx as int), 1);
                            assert(sl.skip(idx as int).take(1) =~= seq![sl[idx as int]]);
                            assert(seq![sl[idx as int]].drop_last() =~= Seq::<Seq<char>>::empty());
                            assert(seq![sl[idx as int]].last() == sl[idx as int]);
                            assert(nonempty_trimmed(Seq::<Seq<char>>::empty())
                                == Seq::<Seq<char>>::empty());
                            assert(nonempty_trimmed(seq![sl[idx as int]]) == nonempty_trimmed(
                                seq![sl[idx as int]].drop_last(),
                            ).push(trimmed(sl[idx as int])));
                            assert(nonempty_trimmed(seq![sl[idx as int]]) =~= seq![line@]);
                            assert(sl.skip(idx as int).skip(1) =~= sl.skip(idx + 1));
                            assert(lines =~= done + seq![line@] + nonempty_trimmed(
                                sl.skip(idx + 1),
                            ));
                            assert(lines[done.len() as int] == line@);
                            assert(!line_ok(line@));
                            assert(forall|j: int|
                                0 <= j < done.len() ==> #[trigger] lines[j] == done[j]);
                            lemma_first_bad_line_at(lines, done.len() as int);
                        }
                        return Err(e);
                    },
                }
            } else if first == '!' {
                let rest = sub_chars(&line, 1, line.len());
                assert(rest@ == line@.skip(1));
                let queries = parse_compact_chars(&rest);
                plans.push(EnqueuePlan::Compact(queries));
            } else {
                let title = string_of(&line);
                plans.push(EnqueuePlan::Title(title));
            }
        }
        idx = idx + 1;
    }
    proof {
        assert(sl.take(sl.len() as int) =~= sl);
        lemma_first_bad_line_at(lines, lines.len() as int);
    }
    Ok(Some(plans))
}

/// rand's thread-local random generator, declared so that a handle to it can
/// pass through this module; nothing is assumed about the values it yields.
#[verifier::external_type_specification]
#[verifier::external_body]
pub struct ExThreadRng(ThreadRng);

/// Relies on rand's `SliceRandom::choose_multiple`: a sample of
/// `min(count, len)` elements drawn without replacement from the slice, in
/// unspecified order. Nothing more is assumed of the randomness: only that
/// the sample is that long and comes from the input.
#[verifier::external_body]
fn sample_diff_keys(items: &Vec<DiffKey>, rng: &mut ThreadRng, count: usize) -> (r: Vec<DiffKey>)
    ensures
        r@.len() == (if count <= items@.len() {
            count as int
        } else {
            items@.len() as int
        }),
        r@.to_multiset().subset_of(items@.to_multiset()),
{
    items.choose_multiple(rng, count).copied().collect()
}

/// Relies on rand's `thread_rng`: a handle to the thread-local random
/// generator.
#[verifier::external_body]
fn fresh_rng() -> ThreadRng {
    rand::thread_rng()
}

/// Draw `count` charts at random from the charts a filter matched: all of
/// them when fewer matched. Every drawn key is one of the given keys; which
/// ones come out is up to the random generator.
pub fn choose_diff_keys(filtered: &Vec<DiffKey>, count: usize) -> (r: Vec<DiffKey>)
    ensures
        r@.len() == (if count <= filtered@.len() {
            count as int
        } else {
            filtered@.len() as int
        }),
        r@.to_multiset().subset_of(filtered@.to_multiset()),
{
    let mut rng = fresh_rng();
    sample_diff_keys(filtered, &mut rng, count)
}

} // verus!
