//! Plain data shared by the playback planner, the manifest store and the
//! source resolver.

use vstd::prelude::*;

use crate::text::{is_blank, trimmed};

verus! {

/// The identity of a playable track.
#[derive(Debug, Clone, PartialEq, Eq)]
pub enum TrackIdentity {
    /// A Netease Cloud Music song, by its numeric id (kept as text).
    Netease { id: String },
    /// A file on the local disk.
    Local { path: String },
}

/// The stable text key of an identity: `netease:<id>` or `local:<path>`.
pub open spec fn identity_key(identity: TrackIdentity) -> Seq<char> {
    match identity {
        TrackIdentity::Netease { id } => "netease:"@ + id@,
        TrackIdentity::Local { path } => "local:"@ + path@,
    }
}

impl TrackIdentity {
    /// The stable text key used to find a track again in a manifest.
    pub fn key(&self) -> (key: String)
        ensures
            key@ == identity_key(*self),
    {
        match self {
            TrackIdentity::Netease { id } => String::from_str("netease:").concat(id.as_str()),
            TrackIdentity::Local { path } => String::from_str("local:").concat(path.as_str()),
        }
    }

    /// The Netease song id, when this is a Netease track.
    pub fn netease_id(&self) -> (id: Option<&str>)
        ensures
            match *self {
                TrackIdentity::Netease { id: text } => id is Some && id->0@ == text@,
                TrackIdentity::Local { .. } => id is None,
            },
    {
        match self {
            TrackIdentity::Netease { id } => Some(id.as_str()),
            TrackIdentity::Local { .. } => None,
        }
    }

    /// A copy of this identity that verified code knows to be equal to it.
    pub fn duplicate(&self) -> (copy: TrackIdentity)
        ensures
            copy == *self,
    {
        match self {
            TrackIdentity::Netease { id } => TrackIdentity::Netease { id: id.clone() },
            TrackIdentity::Local { path } => TrackIdentity::Local { path: path.clone() },
        }
    }
}

/// How the traversal advances once the current track ends.
#[derive(Debug, Clone, Copy, PartialEq, Eq, Structural)]
pub enum NativePlaybackMode {
    /// Walk the list in order.
    Normal,
    /// Repeat the current track.
    Single,
    /// Walk a shuffled permutation of the list, reshuffled on every pass.
    Random,
}

/// One track of a playback manifest.
#[derive(Debug, Clone, PartialEq, Eq)]
pub struct NativeManifestEntry {
    pub identity: TrackIdentity,
    /// Index of the track in the frontend's playlist.
    pub playlist_index: usize,
    pub title: Option<String>,
    pub artist: Option<String>,
    pub duration_ms: Option<u64>,
    /// Netease fee class: 1 is VIP, 4 is a paid album.
    pub fee: Option<i64>,
    /// Whether the track is a cloud upload (`pc` present).
    pub has_pc: bool,
}

/// A playlist as handed over by the frontend.
#[derive(Debug, Clone, PartialEq, Eq)]
pub struct NativePlaybackManifest {
    pub schema_version: u32,
    pub revision: u64,
    pub entries: Vec<NativeManifestEntry>,
    /// Traversal order as positions into `entries`; ignored unless it is a
    /// permutation of all positions.
    pub order: Vec<usize>,
    pub cursor_identity: Option<TrackIdentity>,
    pub cursor_index: usize,
    pub mode: NativePlaybackMode,
    pub repeat_list: bool,
    pub random_seed: Option<u64>,
}

/// Endpoints and credentials of the source resolver.
#[derive(Debug, Clone, PartialEq, Eq)]
pub struct NativeResolverConfig {
    pub ncm_base_url: Option<String>,
    pub unm_base_url: Option<String>,
    pub unm_enabled: bool,
    pub cookie: Option<String>,
    pub level: Option<String>,
}

impl NativeResolverConfig {
    /// Whether an NCM API base URL is configured (present and not blank).
    pub fn is_usable(&self) -> (usable: bool)
        ensures
            usable == (self.ncm_base_url matches Some(base) && trimmed(base@).len() > 0),
    {
        match &self.ncm_base_url {
            Some(base) => !is_blank(base.as_str()),
            None => false,
        }
    }
}

} // verus!
