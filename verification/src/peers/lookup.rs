//! What the peers say of one package: live, or from the cache.

use super::api::{
    build_diffoscope_url, build_log_url, diffoscope_url, links_are_backed, log_url, no_entry,
    package_request, request_package, unknown_entry, v0_entry, v0_entry_of, v1_entry,
    v1_entry_of, PackageRequest, PackageRequestView, PeerBinaryPackageView, PeerResultPage,
    V0PkgRelease, V0PkgReleaseView,
};
use super::registry::{resolve_url, resolved_url};
use super::{
    PeerRebuilder, PeerRebuilderView, PeerSha256Check, PeerSha256CheckView,
    PeerStatusEntry, PeerStatusEntryView,
};
use crate::status::{parsed_status, str_to_build_status, BuildStatus};
use crate::text::{contains, contains_text, same_text, text_of};
use crate::views;
use vstd::prelude::*;

verus! {

/// Which package to look up.
#[derive(Debug)]
pub struct PeerPackageQuery {
    pub distribution: String,
    pub architecture: String,
    pub name: String,
    pub version: String,
    /// `true`: ask the peers in real time. `false`: return what the last cross-check cached.
    pub live: bool,
    /// If set, only look at the peer whose stored URL contains this substring
    /// (e.g. `?peer=reproducible.archlinux.org`).
    pub peer: Option<String>,
}

#[verifier::ext_equal]
pub struct PeerPackageQueryView {
    pub distribution: Seq<char>,
    pub architecture: Seq<char>,
    pub name: Seq<char>,
    pub version: Seq<char>,
    pub live: bool,
    pub peer: Option<Seq<char>>,
}

impl View for PeerPackageQuery {
    type V = PeerPackageQueryView;

    open spec fn view(&self) -> PeerPackageQueryView {
        PeerPackageQueryView {
            distribution: self.distribution@,
            architecture: self.architecture@,
            name: self.name@,
            version: self.version@,
            live: self.live,
            peer: text_of(self.peer),
        }
    }
}

/// A query that does not say otherwise asks the peers in real time.
pub fn default_true() -> (r: bool)
    ensures
        r,
{
    true
}

impl PeerPackageQueryView {
    /// The query is about this peer.
    pub open spec fn concerns(self, peer: PeerRebuilderView) -> bool {
        &&& peer.distribution == self.distribution
        &&& peer.architecture == self.architecture
        &&& self.peer matches Some(part) ==> contains_text(peer.url, part)
    }

    /// The peers that the query is about, in their order.
    pub open spec fn among(self, peers: Seq<PeerRebuilderView>) -> Seq<PeerRebuilderView>
        decreases peers.len(),
    {
        if peers.len() == 0 {
            Seq::empty()
        } else {
            let before = self.among(peers.drop_last());
            if self.concerns(peers.last()) {
                before.push(peers.last())
            } else {
                before
            }
        }
    }

    /// What is asked of a peer in real time.
    pub open spec fn live_request(self, peer: PeerRebuilderView) -> LiveRequestView {
        let url = resolved_url(peer.url, self.architecture);
        LiveRequestView {
            url,
            request: package_request(url, self.name, self.version, self.architecture),
        }
    }
}

/// A request to a peer, and the peer's URL.
pub struct LiveRequest {
    pub url: String,
    pub request: PackageRequest,
}

#[verifier::ext_equal]
pub struct LiveRequestView {
    pub url: Seq<char>,
    pub request: PackageRequestView,
}

impl View for LiveRequest {
    type V = LiveRequestView;

    open spec fn view(&self) -> LiveRequestView {
        LiveRequestView { url: self.url@, request: self.request@ }
    }
}

/// How a package is looked up.
pub enum PeerLookup {
    /// No peer is registered for it: there are no entries.
    NoPeers,
    /// In the cache, for these peers.
    Cached(Vec<PeerRebuilder>),
    /// With these requests.
    Live(Vec<LiveRequest>),
}

/// The peers that a query is about.
fn peers_of_query(query: &PeerPackageQuery, peers: &Vec<PeerRebuilder>) -> (r: Vec<PeerRebuilder>)
    ensures
        views(r@) == query@.among(views(peers@)),
{
    let mut selected: Vec<PeerRebuilder> = Vec::new();
    let mut i: usize = 0;
    proof {
        assert(views(peers@).take(0) =~= Seq::<PeerRebuilderView>::empty());
        assert(views(selected@) =~= Seq::<PeerRebuilderView>::empty());
    }
    while i < peers.len()
        invariant
            i <= peers@.len(),
            views(selected@) == query@.among(views(peers@).take(i as int)),
        decreases peers@.len() - i,
    {
        let peer = &peers[i];
        proof {
            assert(views(peers@).take(i + 1).drop_last() =~= views(peers@).take(i as int));
        }
        let url_fits = match &query.peer {
            Some(part) => contains(peer.url.as_str(), part.as_str()),
            None => true,
        };
        if peer.distribution == query.distribution && peer.architecture == query.architecture
            && url_fits {
            let ghost was = selected@;
            selected.push(peer.clone());
            proof {
                assert(views(selected@) =~= views(was).push(peer@));
            }
        }
        i += 1;
    }
    proof {
        assert(views(peers@).take(i as int) =~= views(peers@));
    }
    selected
}

/// Decides how a package is looked up, given the registered peers.
pub fn get_peer_package(query: &PeerPackageQuery, peers: &Vec<PeerRebuilder>) -> (r: PeerLookup)
    ensures
        ({
            let selected = query@.among(views(peers@));
            match r {
                PeerLookup::NoPeers => selected.len() == 0,
                PeerLookup::Cached(peers) => selected.len() > 0 && !query.live && views(peers@)
                    == selected,
                PeerLookup::Live(requests) => selected.len() > 0 && query.live && views(requests@)
                    == selected.map_values(|peer: PeerRebuilderView| query@.live_request(peer)),
            }
        }),
{
    let selected = peers_of_query(query, peers);
    let ghost wanted = views(selected@).map_values(
        |peer: PeerRebuilderView| query@.live_request(peer),
    );
    if selected.len() == 0 {
        return PeerLookup::NoPeers;
    }
    if !query.live {
        return PeerLookup::Cached(selected);
    }
    let mut requests: Vec<LiveRequest> = Vec::new();
    let mut i: usize = 0;
    while i < selected.len()
        invariant
            i <= selected@.len(),
            wanted == views(selected@).map_values(
                |peer: PeerRebuilderView| query@.live_request(peer),
            ),
            views(requests@) == wanted.take(i as int),
        decreases selected@.len() - i,
    {
        let url = resolve_url(selected[i].url.as_str(), query.architecture.as_str());
        let request = request_package(
            url.as_str(),
            query.name.as_str(),
            query.version.as_str(),
            query.architecture.as_str(),
        );
        let ghost was = requests@;
        requests.push(LiveRequest { url, request });
        proof {
            assert(views(requests@) =~= views(was).push(requests@.last()@));
            assert(requests@.last()@ == wanted[i as int]);
            assert(wanted.take(i + 1) =~= wanted.take(i as int).push(wanted[i as int]));
        }
        i += 1;
    }
    proof {
        assert(wanted.take(i as int) =~= wanted);
    }
    PeerLookup::Live(requests)
}

// ---------------------------------------------------------------------------
// Live
// ---------------------------------------------------------------------------

/// What came of a request to a peer.
pub enum LiveOutcome {
    /// The answer of a peer with version 0 of the API.
    V0 { url: String, releases: Vec<V0PkgRelease> },
    /// The answer of a peer with version 1 of the API.
    V1 { url: String, page: PeerResultPage },
    /// The peer has not answered, or not in a usable way.
    Failed { url: String },
    /// The task that asked is gone.
    Lost,
}

#[verifier::ext_equal]
pub enum LiveOutcomeView {
    V0 { url: Seq<char>, releases: Seq<V0PkgReleaseView> },
    V1 { url: Seq<char>, records: Seq<PeerBinaryPackageView> },
    Failed { url: Seq<char> },
    Lost,
}

impl View for LiveOutcome {
    type V = LiveOutcomeView;

    open spec fn view(&self) -> LiveOutcomeView {
        match self {
            LiveOutcome::V0 { url, releases } => LiveOutcomeView::V0 {
                url: url@,
                releases: views(releases@),
            },
            LiveOutcome::V1 { url, page } => LiveOutcomeView::V1 {
                url: url@,
                records: views(page.records@),
            },
            LiveOutcome::Failed { url } => LiveOutcomeView::Failed { url: url@ },
            LiveOutcome::Lost => LiveOutcomeView::Lost,
        }
    }
}

/// The entry that an outcome gives, if it gives one.
pub open spec fn live_entry(outcome: LiveOutcomeView, version: Seq<char>) -> Option<
    PeerStatusEntryView,
> {
    match outcome {
        LiveOutcomeView::V0 { url, releases } => Some(v0_entry_of(url, releases, version)),
        LiveOutcomeView::V1 { url, records } => Some(v1_entry_of(url, records)),
        LiveOutcomeView::Failed { url } => Some(unknown_entry(url)),
        LiveOutcomeView::Lost => None,
    }
}

/// The entries that outcomes give, in their order.
pub open spec fn live_entries_of(
    outcomes: Seq<LiveOutcomeView>,
    version: Seq<char>,
) -> Seq<PeerStatusEntryView>
    decreases outcomes.len(),
{
    if outcomes.len() == 0 {
        Seq::empty()
    } else {
        let before = live_entries_of(outcomes.drop_last(), version);
        match live_entry(outcomes.last(), version) {
            Some(entry) => before.push(entry),
            None => before,
        }
    }
}

/// The entries that the outcomes of requests to peers give.
pub fn live_entries(outcomes: &Vec<LiveOutcome>, version: &str) -> (r: Vec<PeerStatusEntry>)
    ensures
        views(r@) == live_entries_of(views(outcomes@), version@),
{
    let mut entries: Vec<PeerStatusEntry> = Vec::new();
    let mut i: usize = 0;
    proof {
        assert(views(outcomes@).take(0) =~= Seq::<LiveOutcomeView>::empty());
        assert(views(entries@) =~= Seq::<PeerStatusEntryView>::empty());
    }
    while i < outcomes.len()
        invariant
            i <= outcomes@.len(),
            views(entries@) == live_entries_of(views(outcomes@).take(i as int), version@),
        decreases outcomes@.len() - i,
    {
        proof {
            assert(views(outcomes@).take(i + 1).drop_last() =~= views(outcomes@).take(i as int));
        }
        let entry = match &outcomes[i] {
            LiveOutcome::V0 { url, releases } => Some(v0_entry(url.as_str(), releases, version)),
            LiveOutcome::V1 { url, page } => Some(v1_entry(url.as_str(), page)),
            LiveOutcome::Failed { url } => Some(no_entry(url.clone())),
            LiveOutcome::Lost => None,
        };
        if let Some(entry) = entry {
            let ghost was = entries@;
            entries.push(entry);
            proof {
                assert(views(entries@) =~= views(was).push(entry@));
            }
        }
        i += 1;
    }
    proof {
        assert(views(outcomes@).take(i as int) =~= views(outcomes@));
    }
    entries
}

// ---------------------------------------------------------------------------
// From the cache
// ---------------------------------------------------------------------------

impl PeerSha256CheckView {
    /// The cached disagreement is with this peer on this package.
    pub open spec fn is_about(self, peer_id: i32, name: Seq<char>, version: Seq<char>) -> bool {
        &&& self.peer_rebuilder_id == peer_id
        &&& self.binary_name == name
        &&& self.binary_version == version
    }
}

/// The first cached disagreement with a peer on a package.
pub open spec fn cached_check(
    checks: Seq<PeerSha256CheckView>,
    peer_id: i32,
    name: Seq<char>,
    version: Seq<char>,
) -> Option<PeerSha256CheckView>
    decreases checks.len(),
{
    if checks.len() == 0 {
        None
    } else if checks.first().is_about(peer_id, name, version) {
        Some(checks.first())
    } else {
        cached_check(checks.drop_first(), peer_id, name, version)
    }
}

/// The entry that the cache gives for a peer.
pub open spec fn cached_entry_of(
    peer: PeerRebuilderView,
    cached: Option<PeerSha256CheckView>,
) -> PeerStatusEntryView {
    let url = resolved_url(peer.url, peer.architecture);
    match cached {
        None => unknown_entry(url),
        Some(check) => {
            let status = match check.peer_status {
                Some(text) => parsed_status(text),
                None => None,
            };
            PeerStatusEntryView {
                url,
                status,
                build_id: check.peer_build_id,
                log_url: match check.peer_build_id {
                    Some(build_id) => Some(log_url(url, build_id)),
                    None => None,
                },
                diffoscope_url: match check.peer_build_id {
                    Some(build_id) => if status == Some(BuildStatus::Bad) {
                        Some(diffoscope_url(url, build_id))
                    } else {
                        None
                    },
                    None => None,
                },
            }
        },
    }
}

/// The entry that the cache gives for a peer.
pub fn cached_entry(peer: &PeerRebuilder, cached: Option<&PeerSha256Check>) -> (r:
    PeerStatusEntry)
    ensures
        r@ == cached_entry_of(
            peer@,
            match cached {
                Some(check) => Some(check@),
                None => None,
            },
        ),
{
    let url = resolve_url(peer.url.as_str(), peer.architecture.as_str());
    match cached {
        None => no_entry(url),
        Some(check) => {
            let status = match &check.peer_status {
                Some(text) => str_to_build_status(text.as_str()),
                None => None,
            };
            let is_bad = match status {
                Some(status) => status == BuildStatus::Bad,
                None => false,
            };
            let log = match check.peer_build_id {
                Some(build_id) => Some(build_log_url(url.as_str(), build_id)),
                None => None,
            };
            let diffoscope = match check.peer_build_id {
                Some(build_id) => if is_bad {
                    Some(build_diffoscope_url(url.as_str(), build_id))
                } else {
                    None
                },
                None => None,
            };
            PeerStatusEntry {
                url,
                status,
                build_id: check.peer_build_id,
                log_url: log,
                diffoscope_url: diffoscope,
            }
        },
    }
}

/// The entries that the cache gives for peers, one for each.
pub open spec fn cached_entries_of(
    peers: Seq<PeerRebuilderView>,
    checks: Seq<PeerSha256CheckView>,
    name: Seq<char>,
    version: Seq<char>,
) -> Seq<PeerStatusEntryView> {
    peers.map_values(
        |peer: PeerRebuilderView|
            cached_entry_of(peer, cached_check(checks, peer.id, name, version)),
    )
}

/// The first cached disagreement with a peer on a package.
fn find_check<'a>(
    checks: &'a Vec<PeerSha256Check>,
    peer_id: i32,
    name: &str,
    version: &str,
) -> (r: Option<&'a PeerSha256Check>)
    ensures
        cached_check(views(checks@), peer_id, name@, version@) == match r {
            Some(check) => Some(check@),
            None => None,
        },
{
    let ghost all = views(checks@);
    let mut i: usize = 0;
    proof {
        assert(all.skip(0) =~= all);
    }
    while i < checks.len()
        invariant
            i <= checks@.len(),
            all == views(checks@),
            cached_check(all.skip(i as int), peer_id, name@, version@) == cached_check(
                all,
                peer_id,
                name@,
                version@,
            ),
        decreases checks@.len() - i,
    {
        let check = &checks[i];
        proof {
            assert(all.skip(i as int).first() == check@);
            assert(all.skip(i as int).drop_first() =~= all.skip(i + 1));
        }
        if check.peer_rebuilder_id == peer_id && same_text(check.binary_name.as_str(), name)
            && same_text(check.binary_version.as_str(), version) {
            return Some(check);
        }
        i += 1;
    }
    None
}

/// The entries that the cached disagreements give for peers, one for each.
pub fn cached_peer_entries(
    peers: &Vec<PeerRebuilder>,
    checks: &Vec<PeerSha256Check>,
    name: &str,
    version: &str,
) -> (r: Vec<PeerStatusEntry>)
    ensures
        views(r@) == cached_entries_of(views(peers@), views(checks@), name@, version@),
{
    let ghost wanted = cached_entries_of(views(peers@), views(checks@), name@, version@);
    let mut entries: Vec<PeerStatusEntry> = Vec::new();
    let mut i: usize = 0;
    while i < peers.len()
        invariant
            i <= peers@.len(),
            wanted == cached_entries_of(views(peers@), views(checks@), name@, version@),
            views(entries@) == wanted.take(i as int),
        decreases peers@.len() - i,
    {
        let peer = &peers[i];
        let cached = find_check(checks, peer.id, name, version);
        let entry = cached_entry(peer, cached);
        let ghost was = entries@;
        entries.push(entry);
        proof {
            assert(views(entries@) =~= views(was).push(entry@));
            assert(wanted.take(i + 1) =~= wanted.take(i as int).push(wanted[i as int]));
        }
        i += 1;
    }
    proof {
        assert(wanted.take(i as int) =~= wanted);
    }
    entries
}

/// The entries that the cache gives have no links without what they link to.
pub proof fn cache_backs_its_links(peer: PeerRebuilderView, cached: Option<PeerSha256CheckView>)
    ensures
        links_are_backed(cached_entry_of(peer, cached)),
{
}

/// A lookup is about exactly those registered peers that have the distribution and
/// architecture in question and, where it names a part of a URL, have that part in theirs.
pub proof fn only_concerned_peers(
    query: PeerPackageQueryView,
    peers: Seq<PeerRebuilderView>,
    peer: PeerRebuilderView,
)
    ensures
        query.among(peers).contains(peer) <==> peers.contains(peer) && query.concerns(peer),
    decreases peers.len(),
{
    if peers.len() > 0 {
        let rest = peers.drop_last();
        let before = query.among(rest);
        let all = query.among(peers);
        only_concerned_peers(query, rest, peer);
        if all.contains(peer) {
            let k = choose|k: int| 0 <= k < all.len() && all[k] == peer;
            if k < before.len() {
                assert(before[k] == peer);
                let j = choose|j: int| 0 <= j < rest.len() && rest[j] == peer;
                assert(peers[j] == peer);
            } else {
                assert(peers[peers.len() - 1] == peer);
            }
        }
        if peers.contains(peer) && query.concerns(peer) {
            if rest.contains(peer) {
                let k = choose|k: int| 0 <= k < before.len() && before[k] == peer;
                assert(all[k] == peer);
            } else {
                let j = choose|j: int| 0 <= j < peers.len() && peers[j] == peer;
                if j < rest.len() {
                    assert(rest[j] == peer);
                }
                assert(all[all.len() - 1] == peer);
            }
        }
    }
}

/// Every peer that was asked has an entry, also one that has failed to answer, as long as no
/// task has got lost.
pub proof fn every_asked_peer_has_an_entry(outcomes: Seq<LiveOutcomeView>, version: Seq<char>)
    requires
        forall|i: int| 0 <= i < outcomes.len() ==> !(#[trigger] outcomes[i] is Lost),
    ensures
        live_entries_of(outcomes, version).len() == outcomes.len(),
        forall|i: int|
            0 <= i < outcomes.len() ==> live_entry(#[trigger] outcomes[i], version) == Some(
                live_entries_of(outcomes, version)[i],
            ),
    decreases outcomes.len(),
{
    if outcomes.len() > 0 {
        let rest = outcomes.drop_last();
        assert forall|i: int| 0 <= i < rest.len() implies !(#[trigger] rest[i] is Lost) by {
            assert(rest[i] == outcomes[i]);
        }
        every_asked_peer_has_an_entry(rest, version);
        assert(!(outcomes[outcomes.len() - 1] is Lost));
        assert forall|i: int| 0 <= i < outcomes.len() implies live_entry(
            #[trigger] outcomes[i],
            version,
        ) == Some(live_entries_of(outcomes, version)[i]) by {
            if i < rest.len() {
                assert(rest[i] == outcomes[i]);
            }
        }
    }
}

} // verus!
