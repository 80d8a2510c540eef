//! Formatting of the chat message: level fields, chart lines, bpm text,
//! song cards, and the joining of pieces; every produced string is pinned
//! down character by character.

use vstd::prelude::*;

use vstd::string::StringExecFns;

use crate::dbschema::Diff;
use crate::dbschema::Song;
use crate::dbschema::Version;
use crate::numtext::dec_int;
use crate::numtext::push_i64;
use crate::songdata::Difficulty;
use crate::songdata::PlaySide;
use crate::webschema::AttachmentSongField;
use crate::webschema::AttachmentSongInfo;
use crate::webschema::MattermostEnqueueResult;

verus! {

/// The pieces, joined with the separator between consecutive ones.
pub open spec fn joined(parts: Seq<Seq<char>>, sep: Seq<char>) -> Seq<char>
    decreases parts.len(),
{
    if parts.len() == 0 {
        Seq::<char>::empty()
    } else if parts.len() == 1 {
        parts[0]
    } else {
        joined(parts.drop_last(), sep) + sep + parts.last()
    }
}

/// Join the strings with the separator between consecutive ones.
pub fn join_strings(parts: &Vec<String>, sep: &str) -> (r: String)
    ensures
        r@ == joined(parts@.map_values(|s: String| s@), sep@),
{
    let ghost view = parts@.map_values(|s: String| s@);
    let mut r = String::new();
    let mut i: usize = 0;
    while i < parts.len()
        invariant
            view == parts@.map_values(|s: String| s@),
            i <= parts@.len(),
            r@ == joined(view.take(i as int), sep@),
        decreases parts@.len() - i,
    {
        proof {
            assert(view.take(i + 1).drop_last() =~= view.take(i as int));
            assert(view.take(i + 1).last() == view[i as int]);
        }
        if i > 0 {
            r.append(sep);
        }
        r.append(parts[i].as_str());
        i = i + 1;
        assert(r@ =~= joined(view.take(i as int), sep@));
    }
    proof {
        assert(view.take(view.len() as int) =~= view);
    }
    r
}

/// One level field of a song card: the difficulty emoji and the level emoji.
pub open spec fn level_field_spec(d: Difficulty, level: int) -> Seq<char> {
    d.emoji_spec() + " :level-"@ + dec_int(level) + ":"@
}

/// Render one level field.
pub fn level_field(d: Difficulty, level: i64) -> (r: String)
    ensures
        r@ == level_field_spec(d, level as int),
{
    let mut s = String::new();
    s.append(d.to_emoji_str());
    s.append(" :level-");
    push_i64(&mut s, level);
    s.append(":");
    assert(s@ =~= level_field_spec(d, level as int));
    s
}

/// The level fields of the charts of one song on one side, in chart order.
pub open spec fn level_fields_spec(ds: Seq<Diff>, song_id: i64, side: PlaySide) -> Seq<Seq<char>>
    decreases ds.len(),
{
    if ds.len() == 0 {
        Seq::<Seq<char>>::empty()
    } else {
        let done = level_fields_spec(ds.drop_last(), song_id, side);
        if ds.last().song_id == song_id && ds.last().play_side == side {
            done.push(level_field_spec(ds.last().difficulty, ds.last().level as int))
        } else {
            done
        }
    }
}

/// Render the level fields of one song's charts on one side.
pub fn level_fields(ds: &Vec<Diff>, song_id: i64, side: PlaySide) -> (r: Vec<String>)
    ensures
        r@.map_values(|s: String| s@) == level_fields_spec(ds@, song_id, side),
{
    let mut out: Vec<String> = Vec::new();
    let mut i: usize = 0;
    while i < ds.len()
        invariant
            i <= ds@.len(),
            out@.map_values(|s: String| s@) == level_fields_spec(ds@.take(i as int), song_id, side),
        decreases ds@.len() - i,
    {
        proof {
            assert(ds@.take(i + 1).drop_last() =~= ds@.take(i as int));
            assert(ds@.take(i + 1).last() == ds@[i as int]);
        }
        let d = &ds[i];
        if d.song_id == song_id && d.play_side == side {
            let field = level_field(d.difficulty, d.level);
            out.push(field);
            assert(out@.map_values(|s: String| s@) =~= level_fields_spec(
                ds@.take(i + 1),
                song_id,
                side,
            ));
        }
        i = i + 1;
    }
    proof {
        assert(ds@.take(ds@.len() as int) =~= ds@);
    }
    out
}

/// The bpm text of a song: a range when a minimum exists, else the single
/// tempo.
pub open spec fn bpm_field_spec(min_bpm: Option<i64>, max_bpm: int) -> Seq<char> {
    match min_bpm {
        Some(lo) => dec_int(lo as int) + " - "@ + dec_int(max_bpm),
        None => dec_int(max_bpm),
    }
}

/// Render the bpm text of a song.
pub fn bpm_field(min_bpm: Option<i64>, max_bpm: i64) -> (r: String)
    ensures
        r@ == bpm_field_spec(min_bpm, max_bpm as int),
{
    let mut s = String::new();
    match min_bpm {
        Some(lo) => {
            push_i64(&mut s, lo);
            s.append(" - ");
            push_i64(&mut s, max_bpm);
            assert(s@ =~= bpm_field_spec(min_bpm, max_bpm as int));
        },
        None => {
            push_i64(&mut s, max_bpm);
        },
    }
    s
}

/// One chart line of the chat text: side, difficulty, level, song title and
/// version abbreviation.
pub open spec fn diff_line_spec(d: Diff, title: Seq<char>, abbrev: Seq<char>) -> Seq<char> {
    "* ["@ + d.play_side.code_spec() + " "@ + d.difficulty.emoji_spec() + " :level-"@ + dec_int(
        d.level as int,
    ) + ":] **"@ + title + "** ("@ + abbrev + ")"@
}

/// Render one chart line.
pub fn diff_line(d: &Diff, title: &str, abbrev: &str) -> (r: String)
    ensures
        r@ == diff_line_spec(*d, title@, abbrev@),
{
    let mut s = String::new();
    s.append("* [");
    s.append(d.play_side.code_str());
    s.append(" ");
    s.append(d.difficulty.to_emoji_str());
    s.append(" :level-");
    push_i64(&mut s, d.level);
    s.append(":] **");
    s.append(title);
    s.append("** (");
    s.append(abbrev);
    s.append(")");
    assert(s@ =~= diff_line_spec(*d, title@, abbrev@));
    s
}

/// The first index of a song/version pair whose song has this identifier, or
/// the pair count when none has it.
pub open spec fn first_pair_with(pairs: Seq<(Song, Version)>, id: i64) -> int
    decreases pairs.len(),
{
    if pairs.len() == 0 {
        0
    } else if pairs[0].0.id == id {
        0
    } else {
        1 + first_pair_with(pairs.drop_first(), id)
    }
}

proof fn lemma_first_pair_with_at(pairs: Seq<(Song, Version)>, id: i64, i: int)
    requires
        0 <= i <= pairs.len(),
        forall|j: int| 0 <= j < i ==> (#[trigger] pairs[j]).0.id != id,
        i < pairs.len() ==> pairs[i].0.id == id,
    ensures
        first_pair_with(pairs, id) == i,
    decreases i,
{
    if pairs.len() == 0 {
    } else if i == 0 {
    } else {
        let p1 = pairs.drop_first();
        assert(forall|j: int| 0 <= j < i - 1 ==> #[trigger] p1[j] == pairs[j + 1]);
        lemma_first_pair_with_at(p1, id, i - 1);
    }
}

/// The chat lines for a list of charts: each chart whose song was fetched
/// becomes one line, in chart order.
pub open spec fn diff_lines_spec(ds: Seq<Diff>, pairs: Seq<(Song, Version)>) -> Seq<Seq<char>>
    decreases ds.len(),
{
    if ds.len() == 0 {
        Seq::<Seq<char>>::empty()
    } else {
        let done = diff_lines_spec(ds.drop_last(), pairs);
        let at = first_pair_with(pairs, ds.last().song_id);
        if at < pairs.len() {
            done.push(diff_line_spec(ds.last(), pairs[at].0.title@, pairs[at].1.abbrev@))
        } else {
            done
        }
    }
}

/// Render the chat lines for a list of charts against the fetched
/// song/version pairs.
pub fn diff_lines(ds: &Vec<Diff>, pairs: &Vec<(Song, Version)>) -> (r: Vec<String>)
    ensures
        r@.map_values(|s: String| s@) == diff_lines_spec(ds@, pairs@),
{
    let mut out: Vec<String> = Vec::new();
    let mut i: usize = 0;
    while i < ds.len()
        invariant
            i <= ds@.len(),
            out@.map_values(|s: String| s@) == diff_lines_spec(ds@.take(i as int), pairs@),
        decreases ds@.len() - i,
    {
        proof {
            assert(ds@.take(i + 1).drop_last() =~= ds@.take(i as int));
            assert(ds@.take(i + 1).last() == ds@[i as int]);
        }
        let d = &ds[i];
        let mut j: usize = 0;
        let mut found = false;
        while j < pairs.len() && !found
            invariant
                j <= pairs@.len(),
                !found ==> forall|k: int| 0 <= k < j ==> (#[trigger] pairs@[k]).0.id != d.song_id,
                found ==> j >= 1 && j - 1 == first_pair_with(pairs@, d.song_id) && pairs@[j
                    - 1].0.id == d.song_id,
            decreases pairs@.len() - j,
        {
            if pairs[j].0.id == d.song_id {
                proof {
                    lemma_first_pair_with_at(pairs@, d.song_id, j as int);
                }
                found = true;
            }
            j = j + 1;
        }
        if found {
            let pair = &pairs[j - 1];
            let line = diff_line(d, pair.0.title.as_str(), pair.1.abbrev.as_str());
            out.push(line);
            assert(out@.map_values(|s: String| s@) =~= diff_lines_spec(ds@.take(i + 1), pairs@));
        } else {
            proof {
                lemma_first_pair_with_at(pairs@, d.song_id, pairs@.len() as int);
            }
        }
        i = i + 1;
    }
    proof {
        assert(ds@.take(ds@.len() as int) =~= ds@);
    }
    out
}

/// What one song card promises: heading, footer, and the three fields with
/// their exact values.
pub open spec fn attachment_matches(
    a: AttachmentSongInfo,
    song: Song,
    version: Version,
    diffs: Seq<Diff>,
) -> bool {
    a.title@ == song.title@ + " / "@ + song.artist@ && a.footer@ == version.name@ && a.fields@.len()
        == 3 && a.fields@[0].short && a.fields@[0].title@ == "SP Levels"@ && a.fields@[0].value@
        == joined(level_fields_spec(diffs, song.id, PlaySide::Single), " / "@) && a.fields@[1].short
        && a.fields@[1].title@ == "DP Levels"@ && a.fields@[1].value@ == joined(
        level_fields_spec(diffs, song.id, PlaySide::Double),
        " / "@,
    ) && a.fields@[2].short && a.fields@[2].title@ == "BPM"@ && a.fields@[2].value@
        == bpm_field_spec(song.min_bpm, song.max_bpm as int)
}

/// Build the song card for one fetched song: its charts on each side and its
/// bpm, drawn from the bulk-fetched chart rows.
pub fn attachment_for_song(song: &Song, version: &Version, diffs: &Vec<Diff>) -> (a:
    AttachmentSongInfo)
    ensures
        attachment_matches(a, *song, *version, diffs@),
{
    let mut title = String::new();
    title.append(song.title.as_str());
    title.append(" / ");
    title.append(song.artist.as_str());

    let sp = level_fields(diffs, song.id, PlaySide::Single);
    let dp = level_fields(diffs, song.id, PlaySide::Double);

    let mut fields: Vec<AttachmentSongField> = Vec::new();
    fields.push(
        AttachmentSongField {
            short: true,
            title: "SP Levels".to_owned(),
            value: join_strings(&sp, " / "),
        },
    );
    fields.push(
        AttachmentSongField {
            short: true,
            title: "DP Levels".to_owned(),
            value: join_strings(&dp, " / "),
        },
    );
    fields.push(
        AttachmentSongField {
            short: true,
            title: "BPM".to_owned(),
            value: bpm_field(song.min_bpm, song.max_bpm),
        },
    );

    AttachmentSongInfo { title, footer: version.name.clone(), fields }
}

/// The song/version pairs for the requested identifiers, in request order,
/// skipping identifiers the database did not return.
pub open spec fn selected_pairs(ids: Seq<i64>, pairs: Seq<(Song, Version)>) -> Seq<(Song, Version)>
    decreases ids.len(),
{
    if ids.len() == 0 {
        Seq::<(Song, Version)>::empty()
    } else {
        let done = selected_pairs(ids.drop_last(), pairs);
        let at = first_pair_with(pairs, ids.last());
        if at < pairs.len() {
            done.push(pairs[at])
        } else {
            done
        }
    }
}

/// Build one song card per requested song, in request order, skipping songs
/// the database did not return.
pub fn attachments_for_songs(ids: &Vec<i64>, pairs: &Vec<(Song, Version)>, diffs: &Vec<Diff>) -> (r:
    Vec<AttachmentSongInfo>)
    ensures
        r@.len() == selected_pairs(ids@, pairs@).len(),
        forall|i: int|
            0 <= i < r@.len() ==> attachment_matches(
                #[trigger] r@[i],
                selected_pairs(ids@, pairs@)[i].0,
                selected_pairs(ids@, pairs@)[i].1,
                diffs@,
            ),
{
    let mut out: Vec<AttachmentSongInfo> = Vec::new();
    let mut i: usize = 0;
    while i < ids.len()
        invariant
            i <= ids@.len(),
            out@.len() == selected_pairs(ids@.take(i as int), pairs@).len(),
            forall|k: int|
                0 <= k < out@.len() ==> attachment_matches(
                    #[trigger] out@[k],
                    selected_pairs(ids@.take(i as int), pairs@)[k].0,
                    selected_pairs(ids@.take(i as int), pairs@)[k].1,
                    diffs@,
                ),
        decreases ids@.len() - i,
    {
        proof {
            assert(ids@.take(i + 1).drop_last() =~= ids@.take(i as int));
            assert(ids@.take(i + 1).last() == ids@[i as int]);
        }
        let id = ids[i];
        let mut j: usize = 0;
        let mut found = false;
        while j < pairs.len() && !found
            invariant
                j <= pairs@.len(),
                !found ==> forall|k: int| 0 <= k < j ==> (#[trigger] pairs@[k]).0.id != id,
                found ==> j >= 1 && j - 1 == first_pair_with(pairs@, id) && pairs@[j - 1].0.id
                    == id,
            decreases pairs@.len() - j,
        {
            if pairs[j].0.id == id {
                proof {
                    lemma_first_pair_with_at(pairs@, id, j as int);
                }
                found = true;
            }
            j = j + 1;
        }
        if found {
            let pair = &pairs[j - 1];
            let card = attachment_for_song(&pair.0, &pair.1, diffs);
            out.push(card);
        } else {
            proof {
                lemma_first_pair_with_at(pairs@, id, pairs@.len() as int);
            }
        }
        i = i + 1;
    }
    proof {
        assert(ids@.take(ids@.len() as int) =~= ids@);
    }
    out
}

/// Assemble the chat message: the fixed author name, the chart lines joined
/// with newlines, and the song cards.
pub fn enqueue_result(texts: &Vec<String>, attachments: Vec<AttachmentSongInfo>) -> (r:
    MattermostEnqueueResult)
    ensures
        r.username@ == "Cathedral"@,
        r.text@ == joined(texts@.map_values(|s: String| s@), "\n"@),
        r.attachments == attachments,
{
    MattermostEnqueueResult {
        username: "Cathedral".to_owned(),
        text: join_strings(texts, "\n"),
        attachments,
    }
}

} // verus!
