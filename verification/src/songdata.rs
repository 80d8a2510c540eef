//! The catalog's domain data: play sides, difficulties, note and scratch
//! kinds, and the song, chart and version records built from them.

use vstd::prelude::*;

verus! {

/// Which side a chart is played on.
#[derive(Clone, Copy, Debug, PartialEq, Eq, Structural)]
pub enum PlaySide {
    Single,
    Double,
}

impl PlaySide {
    /// The two-letter code of the side, as the database and the chat
    /// formatter write it.
    pub open spec fn code_spec(self) -> Seq<char> {
        match self {
            PlaySide::Single => "SP"@,
            PlaySide::Double => "DP"@,
        }
    }

    /// The two-letter code of the side.
    pub fn code_str(self) -> (r: &'static str)
        ensures
            r@ == self.code_spec(),
    {
        match self {
            PlaySide::Single => "SP",
            PlaySide::Double => "DP",
        }
    }
}

/// The difficulty tier of a chart.
#[derive(Clone, Copy, Debug, PartialEq, Eq, Structural)]
pub enum Difficulty {
    Beginner,
    Normal,
    Hyper,
    Another,
    Leggendaria,
}

impl Difficulty {
    /// The upper-case name of the tier, as the database stores it.
    pub open spec fn name_spec(self) -> Seq<char> {
        match self {
            Difficulty::Beginner => "BEGINNER"@,
            Difficulty::Normal => "NORMAL"@,
            Difficulty::Hyper => "HYPER"@,
            Difficulty::Another => "ANOTHER"@,
            Difficulty::Leggendaria => "LEGGENDARIA"@,
        }
    }

    /// The upper-case name of the tier.
    pub fn name_str(self) -> (r: &'static str)
        ensures
            r@ == self.name_spec(),
    {
        match self {
            Difficulty::Beginner => "BEGINNER",
            Difficulty::Normal => "NORMAL",
            Difficulty::Hyper => "HYPER",
            Difficulty::Another => "ANOTHER",
            Difficulty::Leggendaria => "LEGGENDARIA",
        }
    }

    /// The chat emoji shorthand of the tier.
    pub open spec fn emoji_spec(self) -> Seq<char> {
        match self {
            Difficulty::Beginner => ":diff-b:"@,
            Difficulty::Normal => ":diff-n:"@,
            Difficulty::Hyper => ":diff-h:"@,
            Difficulty::Another => ":diff-a:"@,
            Difficulty::Leggendaria => ":diff-l:"@,
        }
    }

    /// The chat emoji shorthand of the tier.
    pub fn to_emoji_str(self) -> (r: &'static str)
        ensures
            r@ == self.emoji_spec(),
    {
        match self {
            Difficulty::Beginner => ":diff-b:",
            Difficulty::Normal => ":diff-n:",
            Difficulty::Hyper => ":diff-h:",
            Difficulty::Another => ":diff-a:",
            Difficulty::Leggendaria => ":diff-l:",
        }
    }
}

/// The charge-note flavour of a chart, if it has one.
#[derive(Clone, Copy, Debug, PartialEq, Eq, Structural)]
pub enum NoteType {
    Charge,
    HellCharge,
}

impl NoteType {
    /// The code of the note kind, as the database stores it.
    pub open spec fn code_spec(self) -> Seq<char> {
        match self {
            NoteType::Charge => "CN"@,
            NoteType::HellCharge => "HCN"@,
        }
    }

    /// The code of the note kind.
    pub fn code_str(self) -> (r: &'static str)
        ensures
            r@ == self.code_spec(),
    {
        match self {
            NoteType::Charge => "CN",
            NoteType::HellCharge => "HCN",
        }
    }
}

/// The scratch flavour of a chart, if it has one.
#[derive(Clone, Copy, Debug, PartialEq, Eq, Structural)]
pub enum ScratchType {
    Back,
    HellBack,
    Multi,
}

impl ScratchType {
    /// The code of the scratch kind, as the database stores it.
    pub open spec fn code_spec(self) -> Seq<char> {
        match self {
            ScratchType::Back => "BSS"@,
            ScratchType::HellBack => "HBSS"@,
            ScratchType::Multi => "MSS"@,
        }
    }

    /// The code of the scratch kind.
    pub fn code_str(self) -> (r: &'static str)
        ensures
            r@ == self.code_spec(),
    {
        match self {
            ScratchType::Back => "BSS",
            ScratchType::HellBack => "HBSS",
            ScratchType::Multi => "MSS",
        }
    }
}

/// One chart of a song, as the table scraper collects it.
#[derive(Clone, Copy, Debug, PartialEq, Eq)]
pub struct Diff {
    pub play_side: PlaySide,
    pub difficulty: Difficulty,
    pub level: usize,
    pub note_type: Option<NoteType>,
    pub scratch_type: Option<ScratchType>,
}

/// One song of the catalog, as the table scraper collects it.
#[derive(Clone, Debug, PartialEq, Eq)]
pub struct Song {
    pub genre: String,
    pub title: String,
    pub artist: String,
    pub min_bpm: Option<usize>,
    pub max_bpm: usize,
    pub diffs: Vec<Diff>,
}

/// One game version and the songs it introduced.
#[derive(Clone, Debug, PartialEq, Eq)]
pub struct Version {
    pub name: String,
    pub abbrev: String,
    pub songs: Vec<Song>,
}

} // verus!
