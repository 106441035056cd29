//! The values that travel through a download request: what the caller asked
//! for, and what the ledger remembers of the outcome.
use vstd::prelude::*;
use vstd::string::*;
use crate::clock::Timestamp;

verus! {

#[derive(Clone, Copy, Debug, PartialEq, Eq, Structural)]
pub enum DownloadMode {
    Video,
    Audio,
}

#[derive(Clone, Copy, Debug, PartialEq, Eq, Structural)]
pub enum DownloadStatus {
    Success,
    Failed,
}

/// The body of a download request.
#[derive(Debug)]
pub struct DownloadRequest {
    pub url: String,
    pub title: Option<String>,
    pub thumbnail: Option<String>,
    pub mode: DownloadMode,
    pub format_id: Option<String>,
    pub format_label: Option<String>,
    pub has_audio: Option<bool>,
    pub antibot_challenge_id: Option<String>,
    pub antibot_solution: Option<u64>,
    pub antibot_honey: Option<String>,
    pub antibot_elapsed_ms: Option<u64>,
    pub turnstile_token: Option<String>,
}

/// One outcome in the history ledger. `requester_ip` is the client the
/// entry belongs to; it is never part of what is served.
#[derive(Debug)]
pub struct HistoryEntry {
    pub id: String,
    pub created_at: Timestamp,
    pub requester_ip: String,
    pub url: String,
    pub title: Option<String>,
    pub thumbnail: Option<String>,
    pub mode: DownloadMode,
    pub format: String,
    pub status: DownloadStatus,
    pub saved_path: Option<String>,
    pub error: Option<String>,
}

/// A copy of an optional string.
pub fn duplicate_opt(value: &Option<String>) -> (copy: Option<String>)
    ensures
        copy == *value,
{
    match value {
        Some(s) => Some(s.clone()),
        None => None,
    }
}

/// An optional string as an optional slice.
pub fn opt_as_str(value: &Option<String>) -> (slice: Option<&str>)
    ensures
        crate::text::opt_str_view(slice) == crate::text::opt_view(*value),
{
    match value {
        Some(s) => Some(s.as_str()),
        None => None,
    }
}

impl HistoryEntry {
    /// A copy of this entry.
    pub fn duplicate(&self) -> (copy: HistoryEntry)
        ensures
            copy == *self,
    {
        HistoryEntry {
            id: self.id.clone(),
            created_at: self.created_at,
            requester_ip: self.requester_ip.clone(),
            url: self.url.clone(),
            title: duplicate_opt(&self.title),
            thumbnail: duplicate_opt(&self.thumbnail),
            mode: self.mode,
            format: self.format.clone(),
            status: self.status,
            saved_path: duplicate_opt(&self.saved_path),
            error: duplicate_opt(&self.error),
        }
    }
}

/// The views of a sequence of strings.
pub open spec fn strings_view(v: Seq<String>) -> Seq<Seq<char>> {
    v.map_values(|s: String| s@)
}

} // verus!
