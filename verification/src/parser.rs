//! Parsing the scraped song table: version headings, sub-headers, and the
//! thirteen-cell song rows. The scraper itself hands each table cell over as
//! its list of text fragments; everything decided about them is decided here.

use vstd::prelude::*;

use crate::numtext::i64_string_val;
use crate::numtext::i64_string_wf;
use crate::numtext::parse_i64;
use crate::numtext::parse_usize;
use crate::numtext::uint_string_val;
use crate::numtext::uint_string_wf;
use crate::songdata::Diff;
use crate::songdata::Difficulty;
use crate::songdata::NoteType;
use crate::songdata::PlaySide;
use crate::songdata::ScratchType;
use crate::text::chars_equal_str;
use crate::text::chars_of;
use crate::text::find_first_occurrence;
use crate::text::first_occurrence;
use crate::text::occurs_in;
use crate::text::split_at_char;
use crate::text::split_chars;
use crate::text::str_equal;
use crate::text::string_of;
use crate::text::sub_chars;
use crate::text::trim_chars;
use crate::text::trimmed;

verus! {

/// One song as scraped from the table, before it is written to the database.
#[derive(Clone, Debug, PartialEq, Eq)]
pub struct Song {
    pub genre: String,
    pub title: String,
    pub artist: String,
    pub min_bpm: Option<usize>,
    pub max_bpm: usize,
}

/// One parsed version heading.
#[derive(Clone, Debug, PartialEq, Eq)]
pub struct Version {
    pub name: String,
    pub abbrev: String,
    pub number: i64,
}

/// What a one-cell table row announces: a new version or an event heading.
#[derive(Clone, Debug, PartialEq, Eq)]
pub enum Subheader {
    Version(Version),
    Event(String),
}

/// Why a scraped row or heading was rejected.
#[derive(Clone, Copy, Debug, PartialEq, Eq, Structural)]
pub enum ParseError {
    /// A song row does not have exactly thirteen cells.
    MalformedRow,
    /// A bpm cell holds something that is no number.
    BadNumber,
    /// A sub-header holds no text.
    EmptySubheader,
    /// A version heading does not follow any known shape.
    MalformedVersion,
}

/// The views of a cell's text fragments.
pub open spec fn texts_of(cell: Seq<String>) -> Seq<Seq<char>> {
    cell.map_values(|s: String| s@)
}

/// The first text fragment of a cell, or nothing.
pub open spec fn first_text(ts: Seq<Seq<char>>) -> Seq<char> {
    if ts.len() >= 1 {
        ts[0]
    } else {
        Seq::<char>::empty()
    }
}

/// All text fragments of a cell, concatenated.
pub open spec fn concat_texts(ts: Seq<Seq<char>>) -> Seq<char>
    decreases ts.len(),
{
    if ts.len() == 0 {
        Seq::<char>::empty()
    } else {
        concat_texts(ts.drop_last()) + ts.last()
    }
}

/// Concatenate the text fragments of a cell.
fn concat_cell(cell: &Vec<String>) -> (r: String)
    ensures
        r@ == concat_texts(texts_of(cell@)),
{
    let ghost ts = texts_of(cell@);
    let mut s = String::new();
    let mut i: usize = 0;
    while i < cell.len()
        invariant
            ts == texts_of(cell@),
            i <= cell@.len(),
            s@ == concat_texts(ts.take(i as int)),
        decreases cell@.len() - i,
    {
        proof {
            assert(ts.take(i + 1).drop_last() =~= ts.take(i as int));
            assert(ts.take(i + 1).last() == ts[i as int]);
        }
        s.append(cell[i].as_str());
        i = i + 1;
    }
    proof {
        assert(ts.take(ts.len() as int) =~= ts);
    }
    s
}

/// What parsing a version heading must yield, shape by shape: the bare first
/// name, anything mentioning `substream`, the numbered `style` era (whose
/// number ends at the first `nd`, `rd` or `th`, tried in that order), and the
/// modern era, whose number runs to the first space of the rest.
pub open spec fn version_parses_to(s: Seq<char>, r: Result<Version, ParseError>) -> bool {
    if s == "beatmania IIDX"@ {
        match r {
            Ok(v) => v.name@ == s && v.abbrev@ == "1st style"@ && v.number == 1,
            _ => false,
        }
    } else if occurs_in("substream"@, s) {
        match r {
            Ok(v) => v.name@ == s && v.abbrev@ == "substream"@ && v.number == 1,
            _ => false,
        }
    } else if occurs_in(" style"@, s) {
        if s.len() < 15 {
            r == Err::<Version, ParseError>(ParseError::MalformedVersion)
        } else {
            let abbrev = s.skip(15);
            if !occurs_in("nd"@, abbrev) && !occurs_in("rd"@, abbrev) && !occurs_in(
                "th"@,
                abbrev,
            ) {
                r == Err::<Version, ParseError>(ParseError::MalformedVersion)
            } else {
                let num = trimmed(abbrev.take(style_number_end(abbrev)));
                if i64_string_wf(num) {
                    match r {
                        Ok(v) => v.name@ == s && v.abbrev@ == abbrev && v.number as int
                            == i64_string_val(num),
                        _ => false,
                    }
                } else {
                    r == Err::<Version, ParseError>(ParseError::MalformedVersion)
                }
            }
        }
    } else {
        if s.len() < 15 {
            r == Err::<Version, ParseError>(ParseError::MalformedVersion)
        } else {
            let rest = trimmed(s.skip(15));
            if !occurs_in(" "@, rest) {
                r == Err::<Version, ParseError>(ParseError::MalformedVersion)
            } else {
                let cut = first_occurrence(" "@, rest);
                let num = trimmed(rest.take(cut));
                if i64_string_wf(num) {
                    match r {
                        Ok(v) => v.name@ == s && v.abbrev@ == trimmed(rest.skip(cut))
                            && v.number as int == i64_string_val(num),
                        _ => false,
                    }
                } else {
                    r == Err::<Version, ParseError>(ParseError::MalformedVersion)
                }
            }
        }
    }
}

/// Where the style number ends: the first `nd`, then `rd`, then `th`,
/// whichever is found first in that trying order.
pub open spec fn style_number_end(abbrev: Seq<char>) -> int {
    if occurs_in("nd"@, abbrev) {
        first_occurrence("nd"@, abbrev)
    } else if occurs_in("rd"@, abbrev) {
        first_occurrence("rd"@, abbrev)
    } else {
        first_occurrence("th"@, abbrev)
    }
}

/// Parse one version heading.
pub fn parse_version(version_str: &str) -> (r: Result<Version, ParseError>)
    ensures
        version_parses_to(version_str@, r),
{
    let chars = chars_of(version_str);
    if chars_equal_str(&chars, "beatmania IIDX") {
        return Ok(
            Version { name: version_str.to_owned(), abbrev: "1st style".to_owned(), number: 1 },
        );
    }
    let substream = chars_of("substream");
    if find_first_occurrence(&substream, &chars).is_some() {
        return Ok(
            Version { name: version_str.to_owned(), abbrev: "substream".to_owned(), number: 1 },
        );
    }
    let style = chars_of(" style");
    if find_first_occurrence(&style, &chars).is_some() {
        if chars.len() < 15 {
            return Err(ParseError::MalformedVersion);
        }
        let abbrev = sub_chars(&chars, 15, chars.len());
        let nd = chars_of("nd");
        let rd = chars_of("rd");
        let th = chars_of("th");
        let cut_opt = match find_first_occurrence(&nd, &abbrev) {
            Some(p) => Some(p),
            None => match find_first_occurrence(&rd, &abbrev) {
                Some(p) => Some(p),
                None => find_first_occurrence(&th, &abbrev),
            },
        };
        match cut_opt {
            None => Err(ParseError::MalformedVersion),
            Some(cut) => {
                assert(cut as int == style_number_end(abbrev@));
                let num_chars = sub_chars(&abbrev, 0, cut);
                let num_trimmed = trim_chars(&num_chars);
                match parse_i64(&num_trimmed) {
                    Some(number) => Ok(
                        Version { name: version_str.to_owned(), abbrev: string_of(&abbrev), number },
                    ),
                    None => Err(ParseError::MalformedVersion),
                }
            },
        }
    } else {
        if chars.len() < 15 {
            return Err(ParseError::MalformedVersion);
        }
        let tail = sub_chars(&chars, 15, chars.len());
        let rest = trim_chars(&tail);
        let space = chars_of(" ");
        match find_first_occurrence(&space, &rest) {
            None => Err(ParseError::MalformedVersion),
            Some(cut) => {
                let num_chars = sub_chars(&rest, 0, cut);
                let num_trimmed = trim_chars(&num_chars);
                let abbrev_chars = sub_chars(&rest, cut, rest.len());
                let abbrev_trimmed = trim_chars(&abbrev_chars);
                match parse_i64(&num_trimmed) {
                    Some(number) => Ok(
                        Version {
                            name: version_str.to_owned(),
                            abbrev: string_of(&abbrev_trimmed),
                            number,
                        },
                    ),
                    None => Err(ParseError::MalformedVersion),
                }
            },
        }
    }
}

/// The characters a version heading links with; their first occurrence marks
/// where the heading's text ends.
pub open spec fn is_link_char(c: char) -> bool {
    c == '\u{25B2}' || c == '\u{25BC}' || c == '\u{25B3}'
}

/// The first position holding a link character, or the length when none
/// occurs.
pub open spec fn first_link_pos(s: Seq<char>) -> int
    decreases s.len(),
{
    if s.len() == 0 {
        0
    } else if is_link_char(s[0]) {
        0
    } else {
        1 + first_link_pos(s.drop_first())
    }
}

proof fn lemma_first_link_pos_at(s: Seq<char>, i: int)
    requires
        0 <= i <= s.len(),
        forall|j: int| 0 <= j < i ==> !is_link_char(#[trigger] s[j]),
        i < s.len() ==> is_link_char(s[i]),
    ensures
        first_link_pos(s) == i,
    decreases i,
{
    if s.len() == 0 {
    } else if i == 0 {
    } else {
        let s1 = s.drop_first();
        assert(forall|j: int| 0 <= j < i - 1 ==> #[trigger] s1[j] == s[j + 1]);
        lemma_first_link_pos_at(s1, i - 1);
    }
}

/// What parsing a one-cell sub-header must yield: nothing but white space is
/// refused; text holding an outlined triangle is a version heading running to
/// its first link character; anything else names an event.
pub open spec fn subheader_parses_to(text: Seq<char>, r: Result<Subheader, ParseError>) -> bool {
    if trimmed(text).len() == 0 {
        r == Err::<Subheader, ParseError>(ParseError::EmptySubheader)
    } else if exists|i: int| 0 <= i < text.len() && text[i] == '\u{25B3}' {
        let heading = trimmed(text.take(first_link_pos(text)));
        match r {
            Ok(Subheader::Version(v)) => version_parses_to(heading, Ok(v)),
            Err(e) => e != ParseError::EmptySubheader && version_parses_to(heading, Err(e)),
            _ => false,
        }
    } else {
        match r {
            Ok(Subheader::Event(t)) => t@ == trimmed(text),
            _ => false,
        }
    }
}

/// Parse a one-cell sub-header row.
pub fn parse_subheader(cells: &Vec<Vec<String>>) -> (r: Result<Subheader, ParseError>)
    requires
        cells@.len() >= 1,
    ensures
        subheader_parses_to(concat_texts(texts_of(cells@[0]@)), r),
{
    let all_text = concat_cell(&cells[0]);
    let chars = chars_of(all_text.as_str());
    let trimmed_all = trim_chars(&chars);
    if trimmed_all.len() == 0 {
        return Err(ParseError::EmptySubheader);
    }
    let mut link_at: usize = 0;
    let mut found_link = false;
    let mut found_triangle = false;
    let mut i: usize = 0;
    while i < chars.len()
        invariant
            i <= chars@.len(),
            !found_link ==> forall|j: int| 0 <= j < i ==> !is_link_char(#[trigger] chars@[j]),
            found_link ==> link_at < i && link_at as int == first_link_pos(chars@) && is_link_char(
                chars@[link_at as int],
            ),
            found_triangle ==> exists|j: int| 0 <= j < i && chars@[j] == '\u{25B3}',
            !found_triangle ==> forall|j: int| 0 <= j < i ==> chars@[j] != '\u{25B3}',
        decreases chars@.len() - i,
    {
        let c = chars[i];
        if !found_link && (c == '\u{25B2}' || c == '\u{25BC}' || c == '\u{25B3}') {
            proof {
                lemma_first_link_pos_at(chars@, i as int);
            }
            link_at = i;
            found_link = true;
        }
        if c == '\u{25B3}' {
            found_triangle = true;
        }
        i = i + 1;
    }
    if found_triangle {
        let heading_chars = sub_chars(&chars, 0, link_at);
        let heading_trimmed = trim_chars(&heading_chars);
        let heading = string_of(&heading_trimmed);
        match parse_version(heading.as_str()) {
            Ok(v) => Ok(Subheader::Version(v)),
            Err(e) => Err(e),
        }
    } else {
        proof {
            if exists|j: int| 0 <= j < chars@.len() && chars@[j] == '\u{25B3}' {
                let j = choose|j: int| 0 <= j < chars@.len() && chars@[j] == '\u{25B3}';
                assert(chars@[j] != '\u{25B3}');
            }
        }
        Ok(Subheader::Event(string_of(&trimmed_all)))
    }
}

/// `c` occurs somewhere in `s`.
pub open spec fn contains_char(s: Seq<char>, c: char) -> bool {
    exists|i: int| 0 <= i < s.len() && s[i] == c
}

fn has_char(v: &Vec<char>, c: char) -> (b: bool)
    ensures
        b == contains_char(v@, c),
{
    let mut i: usize = 0;
    while i < v.len()
        invariant
            i <= v@.len(),
            forall|j: int| 0 <= j < i ==> v@[j] != c,
        decreases v@.len() - i,
    {
        if v[i] == c {
            return true;
        }
        i = i + 1;
    }
    false
}

/// The level, note kind and scratch kind a chart cell's fragments leave
/// behind, read in order: bracketed markers set the kinds, any other fragment
/// sets the level (zero when it is no number).
pub open spec fn diff_td_state(ts: Seq<Seq<char>>) -> (nat, Option<NoteType>, Option<ScratchType>)
    decreases ts.len(),
{
    if ts.len() == 0 {
        (0nat, None::<NoteType>, None::<ScratchType>)
    } else {
        let st = diff_td_state(ts.drop_last());
        let t = ts.last();
        if t == "[CN]"@ {
            (st.0, Some(NoteType::Charge), st.2)
        } else if t == "[HCN]"@ {
            (st.0, Some(NoteType::HellCharge), st.2)
        } else if t == "[BSS]"@ {
            (st.0, st.1, Some(ScratchType::Back))
        } else if t == "[HBSS]"@ {
            (st.0, st.1, Some(ScratchType::HellBack))
        } else if t == "[MSS]"@ {
            (st.0, st.1, Some(ScratchType::Multi))
        } else if contains_char(t, '[') {
            st
        } else {
            (
                if uint_string_wf(t, usize::MAX as int) {
                    uint_string_val(t)
                } else {
                    0nat
                },
                st.1,
                st.2,
            )
        }
    }
}

/// The chart a cell describes, unless a `-` fragment marks the chart as
/// absent.
pub open spec fn diff_td_spec(side: PlaySide, difficulty: Difficulty, ts: Seq<Seq<char>>) -> Option<
    Diff,
> {
    if exists|i: int| 0 <= i < ts.len() && ts[i] == "-"@ {
        None
    } else {
        let st = diff_td_state(ts);
        Some(
            Diff {
                play_side: side,
                difficulty,
                level: st.0 as usize,
                note_type: st.1,
                scratch_type: st.2,
            },
        )
    }
}

/// Parse one chart cell.
fn parse_diff_td(side: PlaySide, difficulty: Difficulty, cell: &Vec<String>) -> (r: Option<Diff>)
    ensures
        r == diff_td_spec(side, difficulty, texts_of(cell@)),
{
    let ghost ts = texts_of(cell@);
    let mut i: usize = 0;
    while i < cell.len()
        invariant
            ts == texts_of(cell@),
            i <= ts.len(),
            forall|j: int| 0 <= j < i ==> #[trigger] ts[j] != "-"@,
        decreases ts.len() - i,
    {
        if str_equal(cell[i].as_str(), "-") {
            assert(ts[i as int] == "-"@);
            return None;
        }
        i = i + 1;
    }
    let mut level: usize = 0;
    let mut note_type: Option<NoteType> = None;
    let mut scratch_type: Option<ScratchType> = None;
    let mut k: usize = 0;
    while k < cell.len()
        invariant
            ts == texts_of(cell@),
            k <= ts.len(),
            ({
                let st = diff_td_state(ts.take(k as int));
                level as nat == st.0 && note_type == st.1 && scratch_type == st.2
            }),
        decreases ts.len() - k,
    {
        proof {
            assert(ts.take(k + 1).drop_last() =~= ts.take(k as int));
            assert(ts.take(k + 1).last() == ts[k as int]);
        }
        let fragment = cell[k].as_str();
        if str_equal(fragment, "[CN]") {
            note_type = Some(NoteType::Charge);
        } else if str_equal(fragment, "[HCN]") {
            note_type = Some(NoteType::HellCharge);
        } else if str_equal(fragment, "[BSS]") {
            scratch_type = Some(ScratchType::Back);
        } else if str_equal(fragment, "[HBSS]") {
            scratch_type = Some(ScratchType::HellBack);
        } else if str_equal(fragment, "[MSS]") {
            scratch_type = Some(ScratchType::Multi);
        } else {
            let frag_chars = chars_of(fragment);
            if has_char(&frag_chars, '[') {
                // an unknown bracketed marker: ignored
            } else {
                match parse_usize(&frag_chars) {
                    Some(v) => {
                        level = v;
                    },
                    None => {
                        level = 0;
                    },
                }
            }
        }
        k = k + 1;
    }
    proof {
        assert(ts.take(ts.len() as int) =~= ts);
    }
    Some(Diff { play_side: side, difficulty, level, note_type, scratch_type })
}

/// Append a parsed chart to the list, when the cell held one.
pub open spec fn opt_push(s: Seq<Diff>, o: Option<Diff>) -> Seq<Diff> {
    match o {
        Some(d) => s.push(d),
        None => s,
    }
}

/// The charts of a thirteen-cell song row, in table order: five single-play
/// cells, then four double-play cells.
pub open spec fn row_diffs(cs: Seq<Vec<String>>) -> Seq<Diff> {
    opt_push(
        opt_push(
            opt_push(
                opt_push(
                    opt_push(
                        opt_push(
                            opt_push(
                                opt_push(
                                    opt_push(
                                        Seq::<Diff>::empty(),
                                        diff_td_spec(
                                            PlaySide::Single,
                                            Difficulty::Beginner,
                                            texts_of(cs[0]@),
                                        ),
                                    ),
                                    diff_td_spec(
                                        PlaySide::Single,
                                        Difficulty::Normal,
                                        texts_of(cs[1]@),
                                    ),
                                ),
                                diff_td_spec(PlaySide::Single, Difficulty::Hyper, texts_of(cs[2]@)),
                            ),
                            diff_td_spec(PlaySide::Single, Difficulty::Another, texts_of(cs[3]@)),
                        ),
                        diff_td_spec(PlaySide::Single, Difficulty::Leggendaria, texts_of(cs[4]@)),
                    ),
                    diff_td_spec(PlaySide::Double, Difficulty::Normal, texts_of(cs[5]@)),
                ),
                diff_td_spec(PlaySide::Double, Difficulty::Hyper, texts_of(cs[6]@)),
            ),
            diff_td_spec(PlaySide::Double, Difficulty::Another, texts_of(cs[7]@)),
        ),
        diff_td_spec(PlaySide::Double, Difficulty::Leggendaria, texts_of(cs[8]@)),
    )
}

/// The bpm bounds a bpm cell's first fragment describes, if it is
/// well-formed: an indeterminate-tempo marker, a single tempo, or a range.
pub open spec fn bpm_outcome(t: Seq<char>) -> Option<(Option<nat>, nat)> {
    let parts = split_at_char(t, '-');
    if parts.len() == 1 {
        if parts[0] == "\u{203b}"@ {
            Some((None::<nat>, 0nat))
        } else if uint_string_wf(parts[0], usize::MAX as int) {
            Some((None::<nat>, uint_string_val(parts[0])))
        } else {
            None
        }
    } else {
        if uint_string_wf(parts[0], usize::MAX as int) && uint_string_wf(
            parts[1],
            usize::MAX as int,
        ) {
            Some((Some(uint_string_val(parts[0])), uint_string_val(parts[1])))
        } else {
            None
        }
    }
}

/// Parse one thirteen-cell song row into the song and its charts.
pub fn parse_song_tr(cells: &Vec<Vec<String>>) -> (r: Result<(Song, Vec<Diff>), ParseError>)
    ensures
        ({
            let cs = cells@;
            match r {
                Ok((song, diffs)) => cs.len() == 13 && diffs@ == row_diffs(cs) && bpm_outcome(
                    first_text(texts_of(cs[9]@)),
                ) == Some(
                    (
                        match song.min_bpm {
                            Some(m) => Some(m as nat),
                            None => None::<nat>,
                        },
                        song.max_bpm as nat,
                    ),
                ) && song.genre@ == trimmed(first_text(texts_of(cs[10]@))) && song.title@
                    == trimmed(concat_texts(texts_of(cs[11]@))) && song.artist@ == trimmed(
                    first_text(texts_of(cs[12]@)),
                ),
                Err(ParseError::MalformedRow) => cs.len() != 13,
                Err(ParseError::BadNumber) => cs.len() == 13 && bpm_outcome(
                    first_text(texts_of(cs[9]@)),
                ) is None,
                Err(_) => false,
            }
        }),
{
    if cells.len() != 13 {
        return Err(ParseError::MalformedRow);
    }
    let mut diffs: Vec<Diff> = Vec::new();
    let d0 = parse_diff_td(PlaySide::Single, Difficulty::Beginner, &cells[0]);
    match d0 {
        Some(d) => diffs.push(d),
        None => {},
    }
    let d1 = parse_diff_td(PlaySide::Single, Difficulty::Normal, &cells[1]);
    match d1 {
        Some(d) => diffs.push(d),
        None => {},
    }
    let d2 = parse_diff_td(PlaySide::Single, Difficulty::Hyper, &cells[2]);
    match d2 {
        Some(d) => diffs.push(d),
        None => {},
    }
    let d3 = parse_diff_td(PlaySide::Single, Difficulty::Another, &cells[3]);
    match d3 {
        Some(d) => diffs.push(d),
        None => {},
    }
    let d4 = parse_diff_td(PlaySide::Single, Difficulty::Leggendaria, &cells[4]);
    match d4 {
        Some(d) => diffs.push(d),
        None => {},
    }
    let d5 = parse_diff_td(PlaySide::Double, Difficulty::Normal, &cells[5]);
    match d5 {
        Some(d) => diffs.push(d),
        None => {},
    }
    let d6 = parse_diff_td(PlaySide::Double, Difficulty::Hyper, &cells[6]);
    match d6 {
        Some(d) => diffs.push(d),
        None => {},
    }
    let d7 = parse_diff_td(PlaySide::Double, Difficulty::Another, &cells[7]);
    match d7 {
        Some(d) => diffs.push(d),
        None => {},
    }
    let d8 = parse_diff_td(PlaySide::Double, Difficulty::Leggendaria, &cells[8]);
    match d8 {
        Some(d) => diffs.push(d),
        None => {},
    }
    assert(diffs@ == row_diffs(cells@));

    let bpm_cell = &cells[9];
    let bpm_text = if bpm_cell.len() >= 1 {
        chars_of(bpm_cell[0].as_str())
    } else {
        Vec::new()
    };
    assert(bpm_text@ == first_text(texts_of(cells@[9]@)));
    let bpm_parts = split_chars(&bpm_text, '-');
    let ghost spec_parts = split_at_char(bpm_text@, '-');
    let (min_bpm, max_bpm): (Option<usize>, usize) = if bpm_parts.len() == 1 {
        assert(bpm_parts@[0]@ == spec_parts[0]);
        if chars_equal_str(&bpm_parts[0], "\u{203b}") {
            (None, 0)
        } else {
            match parse_usize(&bpm_parts[0]) {
                Some(v) => (None, v),
                None => {
                    return Err(ParseError::BadNumber);
                },
            }
        }
    } else {
        assert(bpm_parts@[0]@ == spec_parts[0]);
        assert(bpm_parts@[1]@ == spec_parts[1]);
        let lo = match parse_usize(&bpm_parts[0]) {
            Some(v) => v,
            None => {
                return Err(ParseError::BadNumber);
            },
        };
        let hi = match parse_usize(&bpm_parts[1]) {
            Some(v) => v,
            None => {
                return Err(ParseError::BadNumber);
            },
        };
        (Some(lo), hi)
    };

    let genre_chars = if cells[10].len() >= 1 {
        chars_of(cells[10][0].as_str())
    } else {
        Vec::new()
    };
    assert(genre_chars@ == first_text(texts_of(cells@[10]@)));
    let genre = string_of(&trim_chars(&genre_chars));

    let title_all = concat_cell(&cells[11]);
    let title_chars = chars_of(title_all.as_str());
    let title = string_of(&trim_chars(&title_chars));

    let artist_chars = if cells[12].len() >= 1 {
        chars_of(cells[12][0].as_str())
    } else {
        Vec::new()
    };
    assert(artist_chars@ == first_text(texts_of(cells@[12]@)));
    let artist = string_of(&trim_chars(&artist_chars));

    Ok((Song { genre, title, artist, min_bpm, max_bpm }, diffs))
}

} // verus!
