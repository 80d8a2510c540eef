//! The records the serving database hands back, and the filter-query
//! language of the chat interface: one `key:value` condition per token,
//! with the first family a key matches deciding the outcome.

use vstd::prelude::*;

use vstd::string::StringExecFns;

use crate::numtext::i64_string_val;
use crate::numtext::i64_string_wf;
use crate::numtext::parse_i64;
use crate::songdata::Difficulty;
use crate::songdata::NoteType;
use crate::songdata::PlaySide;
use crate::songdata::ScratchType;
use crate::text::chars_equal_str;
use crate::text::chars_of;
use crate::text::split_at_char;
use crate::text::split_chars;
use crate::text::string_of;

verus! {

/// One game version row.
#[derive(Clone, Debug, PartialEq, Eq)]
pub struct Version {
    pub id: i64,
    pub name: String,
    pub abbrev: String,
}

/// One song row, joined with the identifier of its version.
#[derive(Clone, Debug, PartialEq, Eq)]
pub struct Song {
    pub version_id: i64,
    pub id: i64,
    pub genre: String,
    pub title: String,
    pub artist: String,
    pub min_bpm: Option<i64>,
    pub max_bpm: i64,
    pub unlock_info: Option<String>,
}

/// One chart row, joined with the identifier of its song.
#[derive(Clone, Copy, Debug, PartialEq, Eq)]
pub struct Diff {
    pub song_id: i64,
    pub play_side: PlaySide,
    pub difficulty: Difficulty,
    pub level: i64,
    pub note_type: Option<NoteType>,
    pub scratch_type: Option<ScratchType>,
}

/// One condition of a chart filter query.
#[derive(Clone, Copy, Debug, PartialEq, Eq, Structural)]
pub enum FilterQuery {
    /// `versions.number = ?`
    VersionNumber(i64),
    /// `diffs.play_side = ?`
    PlaySide(PlaySide),
    /// `diffs.difficulty = ?`
    Difficulty(Difficulty),
    /// `diffs.level = ?`
    Level(i64),
    /// `(songs.min_bpm IS NOT NULL) = ?`
    Soflan(bool),
    /// `songs.cn_type = ?`
    Note(NoteType),
    /// `songs.bss_type = ?`
    Scratch(ScratchType),
    /// `songs.max_bpm BETWEEN ? AND ?` (both bounds inclusive)
    BpmRange(i64, i64),
}

/// Why a filter-query condition was rejected.
#[derive(Clone, Debug, PartialEq, Eq)]
pub enum FilterQueryError {
    /// The condition had no recognisable shape.
    InvalidFormat,
    /// The key before the `:` names no known condition.
    UnknownQuery(String),
    /// The value after the `:` is not one this key accepts.
    InvalidValue(String),
    /// The value should have been an integer but was not.
    InvalidNumber,
}

impl FilterQuery {
    /// The SQL condition this filter contributes.
    pub open spec fn where_clause_spec(self) -> Seq<char> {
        match self {
            FilterQuery::VersionNumber(_) => "versions.number = ?"@,
            FilterQuery::PlaySide(_) => "diffs.play_side = ?"@,
            FilterQuery::Difficulty(_) => "diffs.difficulty = ?"@,
            FilterQuery::Level(_) => "diffs.level = ?"@,
            FilterQuery::Soflan(_) => "(songs.min_bpm IS NOT NULL) = ?"@,
            FilterQuery::Note(_) => "songs.cn_type = ?"@,
            FilterQuery::Scratch(_) => "songs.bss_type = ?"@,
            FilterQuery::BpmRange(_, _) => "songs.max_bpm BETWEEN ? and ?"@,
        }
    }

    /// The SQL condition this filter contributes.
    pub fn where_clause_str(&self) -> (r: &'static str)
        ensures
            r@ == self.where_clause_spec(),
    {
        match self {
            FilterQuery::VersionNumber(_) => "versions.number = ?",
            FilterQuery::PlaySide(_) => "diffs.play_side = ?",
            FilterQuery::Difficulty(_) => "diffs.difficulty = ?",
            FilterQuery::Level(_) => "diffs.level = ?",
            FilterQuery::Soflan(_) => "(songs.min_bpm IS NOT NULL) = ?",
            FilterQuery::Note(_) => "songs.cn_type = ?",
            FilterQuery::Scratch(_) => "songs.bss_type = ?",
            FilterQuery::BpmRange(_, _) => "songs.max_bpm BETWEEN ? and ?",
        }
    }
}

/// The keys that select each condition family.
pub open spec fn is_version_key(q: Seq<char>) -> bool {
    q == "v"@ || q == "version"@
}

pub open spec fn is_play_key(q: Seq<char>) -> bool {
    q == "p"@ || q == "play"@
}

pub open spec fn is_diff_key(q: Seq<char>) -> bool {
    q == "d"@ || q == "diff"@
}

pub open spec fn is_level_key(q: Seq<char>) -> bool {
    q == "l"@ || q == "level"@
}

pub open spec fn is_soflan_key(q: Seq<char>) -> bool {
    q == "f"@ || q == "soflan"@
}

pub open spec fn is_note_key(q: Seq<char>) -> bool {
    q == "n"@ || q == "note"@
}

pub open spec fn is_scratch_key(q: Seq<char>) -> bool {
    q == "s"@ || q == "scratch"@
}

pub open spec fn is_bpm_key(q: Seq<char>) -> bool {
    q == "b"@ || q == "bpm"@
}

/// The play side a value selects, if any.
pub open spec fn play_side_of(v: Seq<char>) -> Option<PlaySide> {
    if v == "s"@ || v == "sp"@ {
        Some(PlaySide::Single)
    } else if v == "d"@ || v == "dp"@ {
        Some(PlaySide::Double)
    } else {
        None
    }
}

/// The difficulty a value selects, if any.
pub open spec fn difficulty_of(v: Seq<char>) -> Option<Difficulty> {
    if v == "b"@ || v == "beginner"@ {
        Some(Difficulty::Beginner)
    } else if v == "n"@ || v == "normal"@ {
        Some(Difficulty::Normal)
    } else if v == "h"@ || v == "hyper"@ {
        Some(Difficulty::Hyper)
    } else if v == "a"@ || v == "another"@ {
        Some(Difficulty::Another)
    } else if v == "l"@ || v == "leggendaria"@ {
        Some(Difficulty::Leggendaria)
    } else {
        None
    }
}

/// The soflan flag a value selects, if any.
pub open spec fn soflan_of(v: Seq<char>) -> Option<bool> {
    if v == "y"@ || v == "yes"@ || v == "t"@ || v == "true"@ {
        Some(true)
    } else if v == "n"@ || v == "no"@ || v == "f"@ || v == "false"@ {
        Some(false)
    } else {
        None
    }
}

/// The note kind a value selects, if any. Both the charge and the
/// hell-charge spellings select the plain charge kind; the service has
/// always collapsed them.
pub open spec fn note_type_of(v: Seq<char>) -> Option<NoteType> {
    if v == "c"@ || v == "cn"@ || v == "h"@ || v == "hcn"@ {
        Some(NoteType::Charge)
    } else {
        None
    }
}

/// The scratch kind a value selects, if any.
pub open spec fn scratch_type_of(v: Seq<char>) -> Option<ScratchType> {
    if v == "b"@ || v == "bss"@ {
        Some(ScratchType::Back)
    } else if v == "h"@ || v == "hbss"@ {
        Some(ScratchType::HellBack)
    } else if v == "m"@ || v == "mss"@ {
        Some(ScratchType::Multi)
    } else {
        None
    }
}

/// The inclusive bpm range a value selects, if any: a single number, or two
/// optional bounds joined by `-`, an absent bound meaning unbounded.
pub open spec fn bpm_range_of(v: Seq<char>) -> Option<(int, int)> {
    let parts = split_at_char(v, '-');
    if parts.len() == 1 {
        if i64_string_wf(parts[0]) {
            Some((i64_string_val(parts[0]), i64_string_val(parts[0])))
        } else {
            None
        }
    } else {
        let lo = parts[0];
        let hi = parts[1];
        if lo.len() == 0 && hi.len() == 0 {
            Some((-0x8000_0000_0000_0000, 0x7fff_ffff_ffff_ffff))
        } else if lo.len() == 0 {
            if i64_string_wf(hi) {
                Some((-0x8000_0000_0000_0000, i64_string_val(hi)))
            } else {
                None
            }
        } else if hi.len() == 0 {
            if i64_string_wf(lo) {
                Some((i64_string_val(lo), 0x7fff_ffff_ffff_ffff))
            } else {
                None
            }
        } else {
            if i64_string_wf(lo) && i64_string_wf(hi) {
                Some((i64_string_val(lo), i64_string_val(hi)))
            } else {
                None
            }
        }
    }
}

/// The condition text parses successfully: the first family its key matches
/// accepts its value.
pub open spec fn filter_token_ok(s: Seq<char>) -> bool {
    let parts = split_at_char(s, ':');
    let qt = parts[0];
    let val = if parts.len() >= 2 {
        parts[1]
    } else {
        Seq::<char>::empty()
    };
    if is_version_key(qt) {
        i64_string_wf(val)
    } else if is_play_key(qt) {
        play_side_of(val) is Some
    } else if is_diff_key(qt) {
        difficulty_of(val) is Some
    } else if is_level_key(qt) {
        i64_string_wf(val)
    } else if is_soflan_key(qt) {
        soflan_of(val) is Some
    } else if is_note_key(qt) {
        note_type_of(val) is Some
    } else if is_scratch_key(qt) {
        scratch_type_of(val) is Some
    } else if is_bpm_key(qt) {
        bpm_range_of(val) is Some
    } else {
        false
    }
}

/// What parsing the condition text `s` must yield: the key is everything
/// before the first `:`, the value everything between the first and second
/// `:` (empty when there is no `:`); the first family the key matches decides
/// the outcome, and each family accepts exactly the values above.
pub open spec fn filter_query_parses_to(
    s: Seq<char>,
    r: Result<FilterQuery, FilterQueryError>,
) -> bool {
    let parts = split_at_char(s, ':');
    let qt = parts[0];
    let val = if parts.len() >= 2 {
        parts[1]
    } else {
        Seq::<char>::empty()
    };
    if is_version_key(qt) {
        match r {
            Ok(FilterQuery::VersionNumber(n)) => i64_string_wf(val) && n as int == i64_string_val(
                val,
            ),
            Err(FilterQueryError::InvalidNumber) => !i64_string_wf(val),
            _ => false,
        }
    } else if is_play_key(qt) {
        match r {
            Ok(FilterQuery::PlaySide(ps)) => play_side_of(val) == Some(ps),
            Err(FilterQueryError::InvalidValue(v)) => play_side_of(val) is None && v@ == val,
            _ => false,
        }
    } else if is_diff_key(qt) {
        match r {
            Ok(FilterQuery::Difficulty(d)) => difficulty_of(val) == Some(d),
            Err(FilterQueryError::InvalidValue(v)) => difficulty_of(val) is None && v@ == val,
            _ => false,
        }
    } else if is_level_key(qt) {
        match r {
            Ok(FilterQuery::Level(n)) => i64_string_wf(val) && n as int == i64_string_val(val),
            Err(FilterQueryError::InvalidNumber) => !i64_string_wf(val),
            _ => false,
        }
    } else if is_soflan_key(qt) {
        match r {
            Ok(FilterQuery::Soflan(b)) => soflan_of(val) == Some(b),
            Err(FilterQueryError::InvalidValue(v)) => soflan_of(val) is None && v@ == val,
            _ => false,
        }
    } else if is_note_key(qt) {
        match r {
            Ok(FilterQuery::Note(nt)) => note_type_of(val) == Some(nt),
            Err(FilterQueryError::InvalidValue(v)) => note_type_of(val) is None && v@ == val,
            _ => false,
        }
    } else if is_scratch_key(qt) {
        match r {
            Ok(FilterQuery::Scratch(st)) => scratch_type_of(val) == Some(st),
            Err(FilterQueryError::InvalidValue(v)) => scratch_type_of(val) is None && v@ == val,
            _ => false,
        }
    } else if is_bpm_key(qt) {
        match r {
            Ok(FilterQuery::BpmRange(lo, hi)) => bpm_range_of(val) == Some((lo as int, hi as int)),
            Err(FilterQueryError::InvalidNumber) => bpm_range_of(val) is None,
            _ => false,
        }
    } else {
        match r {
            Err(FilterQueryError::UnknownQuery(u)) => u@ == qt,
            _ => false,
        }
    }
}

/// A parse outcome is `Ok` exactly on the condition texts that
/// [`filter_token_ok`] accepts.
pub proof fn lemma_filter_token_outcome(s: Seq<char>, r: Result<FilterQuery, FilterQueryError>)
    requires
        filter_query_parses_to(s, r),
    ensures
        r is Ok <==> filter_token_ok(s),
{
}

impl FilterQuery {
    /// Parse one `key:value` condition. Anything after a second `:` is
    /// ignored; a missing `:` leaves the value empty.
    pub fn from_str(s: &str) -> (r: Result<FilterQuery, FilterQueryError>)
        ensures
            filter_query_parses_to(s@, r),
    {
        let chars = chars_of(s);
        let parts = split_chars(&chars, ':');
        let ghost spec_parts = split_at_char(s@, ':');
        let qtype = &parts[0];
        assert(qtype@ == spec_parts[0]);
        let empty: Vec<char> = Vec::new();
        let value = if parts.len() >= 2 {
            let v = &parts[1];
            assert(v@ == spec_parts[1]);
            v
        } else {
            assert(empty@ =~= Seq::<char>::empty());
            &empty
        };

        if chars_equal_str(qtype, "v") || chars_equal_str(qtype, "version") {
            match parse_i64(value) {
                Some(number) => Ok(FilterQuery::VersionNumber(number)),
                None => Err(FilterQueryError::InvalidNumber),
            }
        } else if chars_equal_str(qtype, "p") || chars_equal_str(qtype, "play") {
            if chars_equal_str(value, "s") || chars_equal_str(value, "sp") {
                Ok(FilterQuery::PlaySide(PlaySide::Single))
            } else if chars_equal_str(value, "d") || chars_equal_str(value, "dp") {
                Ok(FilterQuery::PlaySide(PlaySide::Double))
            } else {
                Err(FilterQueryError::InvalidValue(string_of(value)))
            }
        } else if chars_equal_str(qtype, "d") || chars_equal_str(qtype, "diff") {
            if chars_equal_str(value, "b") || chars_equal_str(value, "beginner") {
                Ok(FilterQuery::Difficulty(Difficulty::Beginner))
            } else if chars_equal_str(value, "n") || chars_equal_str(value, "normal") {
                Ok(FilterQuery::Difficulty(Difficulty::Normal))
            } else if chars_equal_str(value, "h") || chars_equal_str(value, "hyper") {
                Ok(FilterQuery::Difficulty(Difficulty::Hyper))
            } else if chars_equal_str(value, "a") || chars_equal_str(value, "another") {
                Ok(FilterQuery::Difficulty(Difficulty::Another))
            } else if chars_equal_str(value, "l") || chars_equal_str(value, "leggendaria") {
                Ok(FilterQuery::Difficulty(Difficulty::Leggendaria))
            } else {
                Err(FilterQueryError::InvalidValue(string_of(value)))
            }
        } else if chars_equal_str(qtype, "l") || chars_equal_str(qtype, "level") {
            match parse_i64(value) {
                Some(level) => Ok(FilterQuery::Level(level)),
                None => Err(FilterQueryError::InvalidNumber),
            }
        } else if chars_equal_str(qtype, "f") || chars_equal_str(qtype, "soflan") {
            if chars_equal_str(value, "y") || chars_equal_str(value, "yes") || chars_equal_str(
                value,
                "t",
            ) || chars_equal_str(value, "true") {
                Ok(FilterQuery::Soflan(true))
            } else if chars_equal_str(value, "n") || chars_equal_str(value, "no")
                || chars_equal_str(value, "f") || chars_equal_str(value, "false") {
                Ok(FilterQuery::Soflan(false))
            } else {
                Err(FilterQueryError::InvalidValue(string_of(value)))
            }
        } else if chars_equal_str(qtype, "n") || chars_equal_str(qtype, "note") {
            if chars_equal_str(value, "c") || chars_equal_str(value, "cn") || chars_equal_str(
                value,
                "h",
            ) || chars_equal_str(value, "hcn") {
                Ok(FilterQuery::Note(NoteType::Charge))
            } else {
                Err(FilterQueryError::InvalidValue(string_of(value)))
            }
        } else if chars_equal_str(qtype, "s") || chars_equal_str(qtype, "scratch") {
            if chars_equal_str(value, "b") || chars_equal_str(value, "bss") {
                Ok(FilterQuery::Scratch(ScratchType::Back))
            } else if chars_equal_str(value, "h") || chars_equal_str(value, "hbss") {
                Ok(FilterQuery::Scratch(ScratchType::HellBack))
            } else if chars_equal_str(value, "m") || chars_equal_str(value, "mss") {
                Ok(FilterQuery::Scratch(ScratchType::Multi))
            } else {
                Err(FilterQueryError::InvalidValue(string_of(value)))
            }
        } else if chars_equal_str(qtype, "b") || chars_equal_str(qtype, "bpm") {
            let bounds = split_chars(value, '-');
            let ghost spec_bounds = split_at_char(value@, '-');
            if bounds.len() == 1 {
                assert(bounds@[0]@ == spec_bounds[0]);
                match parse_i64(&bounds[0]) {
                    Some(fixed) => Ok(FilterQuery::BpmRange(fixed, fixed)),
                    None => Err(FilterQueryError::InvalidNumber),
                }
            } else {
                let lower = &bounds[0];
                let upper = &bounds[1];
                assert(lower@ == spec_bounds[0]);
                assert(upper@ == spec_bounds[1]);
                if lower.len() == 0 && upper.len() == 0 {
                    Ok(FilterQuery::BpmRange(i64::MIN, i64::MAX))
                } else if lower.len() == 0 {
                    match parse_i64(upper) {
                        Some(hi) => Ok(FilterQuery::BpmRange(i64::MIN, hi)),
                        None => Err(FilterQueryError::InvalidNumber),
                    }
                } else if upper.len() == 0 {
                    match parse_i64(lower) {
                        Some(lo) => Ok(FilterQuery::BpmRange(lo, i64::MAX)),
                        None => Err(FilterQueryError::InvalidNumber),
                    }
                } else {
                    match parse_i64(lower) {
                        Some(lo) => match parse_i64(upper) {
                            Some(hi) => Ok(FilterQuery::BpmRange(lo, hi)),
                            None => Err(FilterQueryError::InvalidNumber),
                        },
                        None => Err(FilterQueryError::InvalidNumber),
                    }
                }
            }
        } else {
            Err(FilterQueryError::UnknownQuery(string_of(qtype)))
        }
    }
}

impl FilterQueryError {
    /// The human-readable description of the rejection.
    pub open spec fn message_spec(&self) -> Seq<char> {
        match self {
            FilterQueryError::InvalidFormat => "invalid query format"@,
            FilterQueryError::UnknownQuery(q) => "unknown query type: "@ + q@,
            FilterQueryError::InvalidValue(v) => "invalid query value: "@ + v@,
            FilterQueryError::InvalidNumber => "invalid number"@,
        }
    }

    /// The human-readable description of the rejection.
    pub fn message(&self) -> (r: String)
        ensures
            r@ == self.message_spec(),
    {
        match self {
            FilterQueryError::InvalidFormat => "invalid query format".to_owned(),
            FilterQueryError::UnknownQuery(q) => {
                let mut s = "unknown query type: ".to_owned();
                s.append(q.as_str());
                s
            },
            FilterQueryError::InvalidValue(v) => {
                let mut s = "invalid query value: ".to_owned();
                s.append(v.as_str());
                s
            },
            FilterQueryError::InvalidNumber => "invalid number".to_owned(),
        }
    }
}

} // verus!
