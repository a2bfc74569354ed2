//! Cross-checks with peer rebuilders: who they are, what they report, and where their
//! reports disagree with the local ones.

use crate::status::BuildStatus;
use crate::text::text_of;
use crate::time::Timestamp;
use crate::views;
use vstd::prelude::*;

pub mod api;
pub mod crosscheck;
pub mod local;
pub mod lookup;
pub mod registry;

verus! {

/// Sent by `rebuildctl peers check` to register peer rebuilders and trigger a
/// background bulk cross-check on the daemon.
#[derive(Debug, Clone)]
pub struct CheckPeersRequest {
    pub distribution: String,
    pub architecture: String,
    /// Local release name (e.g. `"sid"`). `None` = no release filter (Arch Linux).
    pub release: Option<String>,
    /// Release name the peer uses for this suite (e.g. `"unstable"` when local is `"sid"`).
    /// `None` or missing = same as `release`.
    pub release_alias: Option<String>,
    /// Full versioned API base URLs of peer rebuilders, e.g.
    /// `https://reproducible.archlinux.org/api/v1`
    pub urls: Vec<String>,
}

#[verifier::ext_equal]
pub struct CheckPeersRequestView {
    pub distribution: Seq<char>,
    pub architecture: Seq<char>,
    pub release: Option<Seq<char>>,
    pub release_alias: Option<Seq<char>>,
    pub urls: Seq<Seq<char>>,
}

impl View for CheckPeersRequest {
    type V = CheckPeersRequestView;

    open spec fn view(&self) -> CheckPeersRequestView {
        CheckPeersRequestView {
            distribution: self.distribution@,
            architecture: self.architecture@,
            release: text_of(self.release),
            release_alias: text_of(self.release_alias),
            urls: views(self.urls@),
        }
    }
}

/// Status of a specific package as reported by a single peer rebuilder.
#[derive(Debug, Clone)]
pub struct PeerStatusEntry {
    /// Base URL of the peer rebuilder.
    pub url: String,
    /// The peer's status for this package (`GOOD`/`BAD`), or `None` if the
    /// peer has not built the package.
    pub status: Option<BuildStatus>,
    /// The peer's build ID for this package.
    pub build_id: Option<i32>,
    /// Direct URL to the peer's build log (API endpoint).
    pub log_url: Option<String>,
    /// Direct URL to the peer's diffoscope output, if the peer reported BAD
    /// and has diffoscope available.
    pub diffoscope_url: Option<String>,
}

#[verifier::ext_equal]
pub struct PeerStatusEntryView {
    pub url: Seq<char>,
    pub status: Option<BuildStatus>,
    pub build_id: Option<i32>,
    pub log_url: Option<Seq<char>>,
    pub diffoscope_url: Option<Seq<char>>,
}

impl View for PeerStatusEntry {
    type V = PeerStatusEntryView;

    open spec fn view(&self) -> PeerStatusEntryView {
        PeerStatusEntryView {
            url: self.url@,
            status: self.status,
            build_id: self.build_id,
            log_url: text_of(self.log_url),
            diffoscope_url: text_of(self.diffoscope_url),
        }
    }
}

/// A registered peer rebuilder.
#[derive(Debug)]
pub struct PeerRebuilder {
    pub id: i32,
    pub url: String,
    pub distribution: String,
    pub architecture: String,
    /// Local release name (e.g. "sid"). Empty string = no release (Arch Linux).
    pub release: String,
    /// Release name the peer uses (e.g. "unstable"). Empty string = same as local.
    pub release_alias: String,
}

#[verifier::ext_equal]
pub struct PeerRebuilderView {
    pub id: i32,
    pub url: Seq<char>,
    pub distribution: Seq<char>,
    pub architecture: Seq<char>,
    pub release: Seq<char>,
    pub release_alias: Seq<char>,
}

impl View for PeerRebuilder {
    type V = PeerRebuilderView;

    open spec fn view(&self) -> PeerRebuilderView {
        PeerRebuilderView {
            id: self.id,
            url: self.url@,
            distribution: self.distribution@,
            architecture: self.architecture@,
            release: self.release@,
            release_alias: self.release_alias@,
        }
    }
}

impl Clone for PeerRebuilder {
    fn clone(&self) -> (r: PeerRebuilder)
        ensures
            r@ == self@,
    {
        PeerRebuilder {
            id: self.id,
            url: self.url.clone(),
            distribution: self.distribution.clone(),
            architecture: self.architecture.clone(),
            release: self.release.clone(),
            release_alias: self.release_alias.clone(),
        }
    }
}

/// A peer rebuilder to be registered.
#[derive(Debug, Clone)]
pub struct NewPeerRebuilder {
    pub url: String,
    pub distribution: String,
    pub architecture: String,
    /// Local release name. Empty string for "no release filter".
    pub release: String,
    /// Peer-side release name. Empty string = same as `release`.
    pub release_alias: String,
}

#[verifier::ext_equal]
pub struct NewPeerRebuilderView {
    pub url: Seq<char>,
    pub distribution: Seq<char>,
    pub architecture: Seq<char>,
    pub release: Seq<char>,
    pub release_alias: Seq<char>,
}

impl View for NewPeerRebuilder {
    type V = NewPeerRebuilderView;

    open spec fn view(&self) -> NewPeerRebuilderView {
        NewPeerRebuilderView {
            url: self.url@,
            distribution: self.distribution@,
            architecture: self.architecture@,
            release: self.release@,
            release_alias: self.release_alias@,
        }
    }
}

/// A cached disagreement with a peer.
#[derive(Debug)]
pub struct PeerSha256Check {
    pub id: i32,
    pub peer_rebuilder_id: i32,
    pub binary_name: String,
    pub binary_version: String,
    pub peer_build_id: Option<i32>,
    pub checked_at: Timestamp,
    /// The name of the peer's status (e.g. "GOOD", "BAD").
    pub peer_status: Option<String>,
}

#[verifier::ext_equal]
pub struct PeerSha256CheckView {
    pub id: i32,
    pub peer_rebuilder_id: i32,
    pub binary_name: Seq<char>,
    pub binary_version: Seq<char>,
    pub peer_build_id: Option<i32>,
    pub checked_at: (int, int),
    pub peer_status: Option<Seq<char>>,
}

impl View for PeerSha256Check {
    type V = PeerSha256CheckView;

    open spec fn view(&self) -> PeerSha256CheckView {
        PeerSha256CheckView {
            id: self.id,
            peer_rebuilder_id: self.peer_rebuilder_id,
            binary_name: self.binary_name@,
            binary_version: self.binary_version@,
            peer_build_id: self.peer_build_id,
            checked_at: self.checked_at@,
            peer_status: text_of(self.peer_status),
        }
    }
}

/// A disagreement to be cached.
#[derive(Debug)]
pub struct UpsertPeerSha256Check {
    pub peer_rebuilder_id: i32,
    pub binary_name: String,
    pub binary_version: String,
    pub peer_build_id: Option<i32>,
    pub checked_at: Timestamp,
    pub peer_status: Option<String>,
}

#[verifier::ext_equal]
pub struct UpsertPeerSha256CheckView {
    pub peer_rebuilder_id: i32,
    pub binary_name: Seq<char>,
    pub binary_version: Seq<char>,
    pub peer_build_id: Option<i32>,
    pub checked_at: (int, int),
    pub peer_status: Option<Seq<char>>,
}

impl View for UpsertPeerSha256Check {
    type V = UpsertPeerSha256CheckView;

    open spec fn view(&self) -> UpsertPeerSha256CheckView {
        UpsertPeerSha256CheckView {
            peer_rebuilder_id: self.peer_rebuilder_id,
            binary_name: self.binary_name@,
            binary_version: self.binary_version@,
            peer_build_id: self.peer_build_id,
            checked_at: self.checked_at@,
            peer_status: text_of(self.peer_status),
        }
    }
}

} // verus!
