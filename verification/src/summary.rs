//! Search-result rows and their arrangement: the database returns summary
//! rows in no particular order, and the response must list them in the order
//! the ranking chose, skipping identifiers the database did not return.

use vstd::prelude::*;

use crate::webschema::SongsSearchResponse;

verus! {

/// One search-result row: a song joined with its version's abbreviation.
#[derive(Clone, Debug, PartialEq, Eq)]
pub struct SongSummary {
    pub id: i64,
    pub version_abbrev: String,
    pub genre: String,
    pub title: String,
    pub artist: String,
}

/// The first index of a row with this identifier, or the row count when no
/// row has it.
pub open spec fn first_row_with(rows: Seq<SongSummary>, id: i64) -> int
    decreases rows.len(),
{
    if rows.len() == 0 {
        0
    } else if rows[0].id == id {
        0
    } else {
        1 + first_row_with(rows.drop_first(), id)
    }
}

/// The response row a summary becomes.
pub open spec fn response_of(row: SongSummary) -> SongsSearchResponse {
    SongsSearchResponse {
        version_abbrev: row.version_abbrev,
        id: row.id,
        genre: row.genre,
        title: row.title,
        artist: row.artist,
    }
}

/// The response rows for the ranked identifiers, in ranking order: each
/// identifier contributes the first row that carries it, and identifiers
/// without a row are skipped.
pub open spec fn arranged_responses(ids: Seq<i64>, rows: Seq<SongSummary>) -> Seq<
    SongsSearchResponse,
>
    decreases ids.len(),
{
    if ids.len() == 0 {
        Seq::<SongsSearchResponse>::empty()
    } else {
        let done = arranged_responses(ids.drop_last(), rows);
        let at = first_row_with(rows, ids.last());
        if at < rows.len() {
            done.push(response_of(rows[at]))
        } else {
            done
        }
    }
}

proof fn lemma_first_row_with_at(rows: Seq<SongSummary>, id: i64, i: int)
    requires
        0 <= i <= rows.len(),
        forall|j: int| 0 <= j < i ==> (#[trigger] rows[j]).id != id,
        i < rows.len() ==> rows[i].id == id,
    ensures
        first_row_with(rows, id) == i,
    decreases i,
{
    if rows.len() == 0 {
    } else if i == 0 {
    } else {
        let r1 = rows.drop_first();
        assert(forall|j: int| 0 <= j < i - 1 ==> #[trigger] r1[j] == rows[j + 1]);
        lemma_first_row_with_at(r1, id, i - 1);
    }
}

/// Arrange the fetched summary rows in the ranked order of `ids`.
pub fn arrange_search_results(ids: &Vec<i64>, rows: &Vec<SongSummary>) -> (r: Vec<
    SongsSearchResponse,
>)
    ensures
        r@ == arranged_responses(ids@, rows@),
{
    let mut out: Vec<SongsSearchResponse> = Vec::new();
    let mut i: usize = 0;
    while i < ids.len()
        invariant
            i <= ids@.len(),
            out@ == arranged_responses(ids@.take(i as int), rows@),
        decreases ids@.len() - i,
    {
        let id = ids[i];
        proof {
            assert(ids@.take(i + 1).drop_last() =~= ids@.take(i as int));
            assert(ids@.take(i + 1).last() == ids@[i as int]);
        }
        let mut j: usize = 0;
        let mut found = false;
        while j < rows.len() && !found
            invariant
                j <= rows@.len(),
                !found ==> forall|k: int| 0 <= k < j ==> (#[trigger] rows@[k]).id != id,
                found ==> j >= 1 && j - 1 == first_row_with(rows@, id) && rows@[j - 1].id == id,
            decreases rows@.len() - j,
        {
            if rows[j].id == id {
                proof {
                    lemma_first_row_with_at(rows@, id, j as int);
                }
                found = true;
            }
            j = j + 1;
        }
        if found {
            let row = &rows[j - 1];
            out.push(
                SongsSearchResponse {
                    version_abbrev: row.version_abbrev.clone(),
                    id: row.id,
                    genre: row.genre.clone(),
                    title: row.title.clone(),
                    artist: row.artist.clone(),
                },
            );
        } else {
            proof {
                lemma_first_row_with_at(rows@, id, rows@.len() as int);
            }
        }
        i = i + 1;
    }
    proof {
        assert(ids@.take(ids@.len() as int) =~= ids@);
    }
    out
}

} // verus!
