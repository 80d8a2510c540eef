//! Dynamic SQL text: placeholder lists sized to the bound values, and the
//! filter query's WHERE clause. The statements with no dynamic part stay as
//! plain literals with the database glue.

use vstd::prelude::*;

use vstd::string::StringExecFns;

use crate::dbschema::FilterQuery;
use crate::render::joined;

verus! {

/// `n` placeholders separated by comma and space: `?, ?, ?`.
pub open spec fn placeholders(n: nat) -> Seq<char>
    decreases n,
{
    if n == 0 {
        Seq::<char>::empty()
    } else if n == 1 {
        "?"@
    } else {
        placeholders((n - 1) as nat) + ", "@ + "?"@
    }
}

/// `n` placeholders separated by bare commas: `?,?,?`.
pub open spec fn compact_placeholders(n: nat) -> Seq<char>
    decreases n,
{
    if n == 0 {
        Seq::<char>::empty()
    } else if n == 1 {
        "?"@
    } else {
        compact_placeholders((n - 1) as nat) + ","@ + "?"@
    }
}

/// `n` placeholder triples separated by comma and space: `(?, ?, ?), (?, ?, ?)`.
pub open spec fn triple_placeholders(n: nat) -> Seq<char>
    decreases n,
{
    if n == 0 {
        Seq::<char>::empty()
    } else if n == 1 {
        "(?, ?, ?)"@
    } else {
        triple_placeholders((n - 1) as nat) + ", "@ + "(?, ?, ?)"@
    }
}

/// Render `n` placeholders separated by comma and space.
pub fn in_placeholders(n: usize) -> (r: String)
    ensures
        r@ == placeholders(n as nat),
{
    let mut s = String::new();
    let mut i: usize = 0;
    while i < n
        invariant
            i <= n,
            s@ == placeholders(i as nat),
        decreases n - i,
    {
        if i > 0 {
            s.append(", ");
        }
        s.append("?");
        i = i + 1;
        assert(s@ =~= placeholders(i as nat));
    }
    s
}

/// Render `n` placeholders separated by bare commas.
pub fn in_compact_placeholders(n: usize) -> (r: String)
    ensures
        r@ == compact_placeholders(n as nat),
{
    let mut s = String::new();
    let mut i: usize = 0;
    while i < n
        invariant
            i <= n,
            s@ == compact_placeholders(i as nat),
        decreases n - i,
    {
        if i > 0 {
            s.append(",");
        }
        s.append("?");
        i = i + 1;
        assert(s@ =~= compact_placeholders(i as nat));
    }
    s
}

/// Render `n` placeholder triples separated by comma and space.
pub fn in_triple_placeholders(n: usize) -> (r: String)
    ensures
        r@ == triple_placeholders(n as nat),
{
    let mut s = String::new();
    let mut i: usize = 0;
    while i < n
        invariant
            i <= n,
            s@ == triple_placeholders(i as nat),
        decreases n - i,
    {
        if i > 0 {
            s.append(", ");
        }
        s.append("(?, ?, ?)");
        i = i + 1;
        assert(s@ =~= triple_placeholders(i as nat));
    }
    s
}

/// The statement that fetches `n` songs joined with their versions.
pub fn songs_with_versions_sql(n: usize) -> (r: String)
    requires
        n >= 1,
    ensures
        r@ == "SELECT songs.id AS song_id, songs.genre AS song_genre, songs.title AS song_title, songs.artist AS song_artist, songs.min_bpm AS song_min_bpm, songs.max_bpm AS song_max_bpm, songs.unlock_info AS song_unlock_info, songs.version_id AS version_id, versions.name AS version_name, versions.abbrev AS version_abbrev FROM songs INNER JOIN versions ON songs.version_id = versions.id WHERE songs.id IN ("@
            + placeholders(n as nat) + ");"@,
{
    let mut s =
        "SELECT songs.id AS song_id, songs.genre AS song_genre, songs.title AS song_title, songs.artist AS song_artist, songs.min_bpm AS song_min_bpm, songs.max_bpm AS song_max_bpm, songs.unlock_info AS song_unlock_info, songs.version_id AS version_id, versions.name AS version_name, versions.abbrev AS version_abbrev FROM songs INNER JOIN versions ON songs.version_id = versions.id WHERE songs.id IN (".to_owned();
    let ph = in_placeholders(n);
    s.append(ph.as_str());
    s.append(");");
    s
}

/// The statement that fetches `n` song summaries joined with their versions'
/// abbreviations.
pub fn song_summaries_sql(n: usize) -> (r: String)
    requires
        n >= 1,
    ensures
        r@ == "SELECT songs.id AS id, songs.genre AS genre, songs.title AS title, songs.artist AS artist, versions.abbrev AS version_abbrev FROM songs INNER JOIN versions ON songs.version_id = versions.id WHERE songs.id IN ("@
            + compact_placeholders(n as nat) + ");"@,
{
    let mut s =
        "SELECT songs.id AS id, songs.genre AS genre, songs.title AS title, songs.artist AS artist, versions.abbrev AS version_abbrev FROM songs INNER JOIN versions ON songs.version_id = versions.id WHERE songs.id IN (".to_owned();
    let ph = in_compact_placeholders(n);
    s.append(ph.as_str());
    s.append(");");
    s
}

/// The statement that fetches the charts of `n` songs.
pub fn diffs_by_song_ids_sql(n: usize) -> (r: String)
    requires
        n >= 1,
    ensures
        r@ == "SELECT diffs.song_id AS song_id, diffs.play_side AS diff_play_side, diffs.difficulty AS diff_difficulty, diffs.level AS diff_level, diffs.cn_type AS diff_note_type, diffs.bss_type AS diff_scratch_type FROM diffs WHERE diffs.song_id IN ("@
            + placeholders(n as nat) + ");"@,
{
    let mut s =
        "SELECT diffs.song_id AS song_id, diffs.play_side AS diff_play_side, diffs.difficulty AS diff_difficulty, diffs.level AS diff_level, diffs.cn_type AS diff_note_type, diffs.bss_type AS diff_scratch_type FROM diffs WHERE diffs.song_id IN (".to_owned();
    let ph = in_placeholders(n);
    s.append(ph.as_str());
    s.append(");");
    s
}

/// The statement that fetches `n` charts by song, side and difficulty.
pub fn diffs_by_ids_sql(n: usize) -> (r: String)
    requires
        n >= 1,
    ensures
        r@ == "SELECT diffs.song_id AS song_id, diffs.play_side AS diff_play_side, diffs.difficulty AS diff_difficulty, diffs.level AS diff_level, diffs.cn_type AS diff_note_type, diffs.bss_type AS diff_scratch_type FROM diffs WHERE (diffs.song_id, diffs.play_side, diffs.difficulty) IN ("@
            + triple_placeholders(n as nat) + ");"@,
{
    let mut s =
        "SELECT diffs.song_id AS song_id, diffs.play_side AS diff_play_side, diffs.difficulty AS diff_difficulty, diffs.level AS diff_level, diffs.cn_type AS diff_note_type, diffs.bss_type AS diff_scratch_type FROM diffs WHERE (diffs.song_id, diffs.play_side, diffs.difficulty) IN (".to_owned();
    let ph = in_triple_placeholders(n);
    s.append(ph.as_str());
    s.append(");");
    s
}

/// The statement that selects chart keys by the given filter conditions,
/// joined with `AND`.
pub fn filter_diffs_sql(queries: &Vec<FilterQuery>) -> (r: String)
    requires
        queries@.len() >= 1,
    ensures
        r@ == "SELECT diffs.song_id, diffs.play_side, diffs.difficulty FROM diffs INNER JOIN songs ON diffs.song_id = songs.id INNER JOIN versions ON songs.version_id = versions.id WHERE "@
            + joined(
            queries@.map_values(|q: FilterQuery| q.where_clause_spec()),
            " AND "@,
        ) + ";"@,
{
    let ghost clauses = queries@.map_values(|q: FilterQuery| q.where_clause_spec());
    let mut s =
        "SELECT diffs.song_id, diffs.play_side, diffs.difficulty FROM diffs INNER JOIN songs ON diffs.song_id = songs.id INNER JOIN versions ON songs.version_id = versions.id WHERE ".to_owned();
    let ghost head = s@;
    let mut i: usize = 0;
    while i < queries.len()
        invariant
            clauses == queries@.map_values(|q: FilterQuery| q.where_clause_spec()),
            i <= queries@.len(),
            s@ == head + joined(clauses.take(i as int), " AND "@),
        decreases queries@.len() - i,
    {
        proof {
            assert(clauses.take(i + 1).drop_last() =~= clauses.take(i as int));
            assert(clauses.take(i + 1).last() == clauses[i as int]);
        }
        if i > 0 {
            s.append(" AND ");
        }
        s.append(queries[i].where_clause_str());
        i = i + 1;
        assert(s@ =~= head + joined(clauses.take(i as int), " AND "@));
    }
    proof {
        assert(clauses.take(clauses.len() as int) =~= clauses);
    }
    s.append(";");
    s
}

} // verus!
