//! The request and response records of the web endpoints, as plain data.
//! The serialised forms live with the server glue; the contracts of the
//! formatting and arranging functions speak about these.

use vstd::prelude::*;

use crate::dbschema::Diff;
use crate::dbschema::Song;

verus! {

/// The body of an error response.
#[derive(Clone, Debug, PartialEq, Eq)]
pub struct ErrorResult {
    pub reason: String,
}

/// The query string of a song search request.
#[derive(Clone, Debug, PartialEq, Eq)]
pub struct SongsSearchQuery {
    pub q: String,
}

/// One row of a song search response.
#[derive(Clone, Debug, PartialEq, Eq)]
pub struct SongsSearchResponse {
    pub version_abbrev: String,
    pub id: i64,
    pub genre: String,
    pub title: String,
    pub artist: String,
}

/// The query string of a single-song request.
#[derive(Clone, Copy, Debug, PartialEq, Eq, Structural)]
pub struct SongsShowQuery {
    pub id: i64,
}

/// The body of a single-song response.
#[derive(Clone, Debug, PartialEq, Eq)]
pub struct SongsShowResponse {
    pub song: Song,
    pub diffs: Vec<Diff>,
}

/// The form the chat webhook posts.
#[derive(Clone, Debug, PartialEq, Eq)]
pub struct MattermostEnqueueForm {
    pub token: String,
    pub text: String,
}

/// The message posted back to the chat.
#[derive(Clone, Debug, PartialEq, Eq)]
pub struct MattermostEnqueueResult {
    pub username: String,
    pub text: String,
    pub attachments: Vec<AttachmentSongInfo>,
}

/// One song card of the chat message.
#[derive(Clone, Debug, PartialEq, Eq)]
pub struct AttachmentSongInfo {
    pub title: String,
    pub footer: String,
    pub fields: Vec<AttachmentSongField>,
}

/// One field of a song card.
#[derive(Clone, Debug, PartialEq, Eq)]
pub struct AttachmentSongField {
    pub short: bool,
    pub title: String,
    pub value: String,
}

} // verus!
