//! The bulk cross-check: which packages a peer and the local rebuilder disagree on.

use super::api::{
    list_packages, package_listing, unknown_entry, PackageListing, PackageListingView, PeerPkgInfo,
};
use super::local::LocalPkgInfo;
use super::lookup::{cached_check, cached_entry_of};
use super::registry::{resolve_url, resolved_url};
use super::{
    CheckPeersRequestView, PeerRebuilder, PeerRebuilderView, PeerSha256CheckView, UpsertPeerSha256Check,
    UpsertPeerSha256CheckView,
};
use crate::packages::{as_map, distinct_keys, map_holds_entries, PackageKey, PackageMap};
use crate::status::{build_status_to_str, status_name, status_name_round_trips, BuildStatus};
use crate::text::same_text;
use crate::time::{in_leap_second, representable, Timestamp};
use crate::views;
use vstd::prelude::*;

verus! {

// ---------------------------------------------------------------------------
// What is asked of the peers
// ---------------------------------------------------------------------------

/// All packages of a peer, still to be asked for.
pub struct PeerFetch {
    pub peer_id: i32,
    pub url: String,
    pub listing: PackageListing,
}

#[verifier::ext_equal]
pub struct PeerFetchView {
    pub peer_id: i32,
    pub url: Seq<char>,
    pub listing: PackageListingView,
}

impl View for PeerFetch {
    type V = PeerFetchView;

    open spec fn view(&self) -> PeerFetchView {
        PeerFetchView { peer_id: self.peer_id, url: self.url@, listing: self.listing@ }
    }
}

/// The release for which a peer is asked: what it calls the release, or the local name where
/// it has none of its own. Without either, it is asked for all releases.
pub open spec fn release_asked_for(peer: PeerRebuilderView) -> Option<Seq<char>> {
    if peer.release_alias.len() > 0 {
        Some(peer.release_alias)
    } else if peer.release.len() > 0 {
        Some(peer.release)
    } else {
        None
    }
}

/// What is asked of a peer, at its resolved URL.
pub open spec fn peer_fetch(
    peer: PeerRebuilderView,
    distribution: Seq<char>,
    architecture: Seq<char>,
) -> PeerFetchView {
    let url = resolved_url(peer.url, architecture);
    PeerFetchView {
        peer_id: peer.id,
        url,
        listing: package_listing(url, distribution, architecture, release_asked_for(peer)),
    }
}

/// What is asked of the peers of a distribution and architecture, in their order.
pub open spec fn peer_fetches(
    peers: Seq<PeerRebuilderView>,
    distribution: Seq<char>,
    architecture: Seq<char>,
) -> Seq<PeerFetchView>
    decreases peers.len(),
{
    if peers.len() == 0 {
        Seq::empty()
    } else {
        let before = peer_fetches(peers.drop_last(), distribution, architecture);
        let peer = peers.last();
        if peer.distribution == distribution && peer.architecture == architecture {
            before.push(peer_fetch(peer, distribution, architecture))
        } else {
            before
        }
    }
}

/// A peer is asked for the release under the name that the request which registered it gives:
/// the alias, or else the local release, or else no release at all.
pub proof fn registered_peer_is_asked_by_alias(
    request: CheckPeersRequestView,
    url: Seq<char>,
    peer: PeerRebuilderView,
)
    requires
        peer.release == request.peer_at(url).release,
        peer.release_alias == request.peer_at(url).release_alias,
    ensures
        release_asked_for(peer) == if request.effective_alias().len() > 0 {
            Some(request.effective_alias())
        } else {
            None
        },
{
}

/// Starts a cross-check: what is asked of the registered peers of a distribution and
/// architecture. Where there is nothing to ask, the check is over.
pub fn run_peer_check(peers: &Vec<PeerRebuilder>, distribution: &str, architecture: &str) -> (r:
    Vec<PeerFetch>)
    ensures
        views(r@) == peer_fetches(views(peers@), distribution@, architecture@),
{
    let mut fetches: Vec<PeerFetch> = Vec::new();
    let mut i: usize = 0;
    proof {
        assert(views(peers@).take(0) =~= Seq::<PeerRebuilderView>::empty());
        assert(views(fetches@) =~= Seq::<PeerFetchView>::empty());
    }
    while i < peers.len()
        invariant
            i <= peers@.len(),
            views(fetches@) == peer_fetches(
                views(peers@).take(i as int),
                distribution@,
                architecture@,
            ),
        decreases peers@.len() - i,
    {
        let peer = &peers[i];
        proof {
            assert(views(peers@).take(i + 1).drop_last() =~= views(peers@).take(i as int));
        }
        if same_text(peer.distribution.as_str(), distribution) && same_text(
            peer.architecture.as_str(),
            architecture,
        ) {
            let url = resolve_url(peer.url.as_str(), architecture);
            let release = if !peer.release_alias.as_str().is_empty() {
                Some(peer.release_alias.clone())
            } else if !peer.release.as_str().is_empty() {
                Some(peer.release.clone())
            } else {
                None
            };
            let listing = list_packages(url.as_str(), distribution, architecture, release);
            let ghost was = fetches@;
            fetches.push(PeerFetch { peer_id: peer.id, url, listing });
            proof {
                assert(views(fetches@) =~= views(was).push(fetches@.last()@));
            }
        }
        i += 1;
    }
    proof {
        assert(views(peers@).take(i as int) =~= views(peers@));
    }
    fetches
}

// ---------------------------------------------------------------------------
// Comparison
// ---------------------------------------------------------------------------

/// What came of asking a peer for its packages.
pub enum FetchOutcome {
    Fetched { peer_id: i32, packages: PackageMap<PeerPkgInfo> },
    /// The peer has not answered, or not in a usable way.
    Failed,
    /// The task that asked is gone.
    Lost,
}

#[verifier::ext_equal]
pub enum FetchOutcomeView {
    Fetched { peer_id: i32, packages: Seq<(PackageKey, PeerPkgInfo)> },
    Failed,
    Lost,
}

impl View for FetchOutcome {
    type V = FetchOutcomeView;

    open spec fn view(&self) -> FetchOutcomeView {
        match self {
            FetchOutcome::Fetched { peer_id, packages } => FetchOutcomeView::Fetched {
                peer_id: *peer_id,
                packages: packages.entries(),
            },
            FetchOutcome::Failed => FetchOutcomeView::Failed,
            FetchOutcome::Lost => FetchOutcomeView::Lost,
        }
    }
}

/// A peer and the local rebuilder disagree where one calls good what the other calls bad.
pub open spec fn disagree(peer: BuildStatus, local: BuildStatus) -> bool {
    ||| peer == BuildStatus::Good && local == BuildStatus::Bad
    ||| peer == BuildStatus::Bad && local == BuildStatus::Good
}

/// The peer's status of a package disagrees with the local one; a package that is not known
/// locally is not compared.
pub open spec fn disagrees(
    key: PackageKey,
    info: PeerPkgInfo,
    local: Map<PackageKey, LocalPkgInfo>,
) -> bool {
    local.contains_key(key) && disagree(info.status, local[key].status)
}

/// A disagreement as it is cached, but for the time of the check.
#[verifier::ext_equal]
pub struct Disagreement {
    pub peer_id: i32,
    pub key: PackageKey,
    pub peer_build_id: Option<i32>,
    pub peer_status: Option<Seq<char>>,
}

impl UpsertPeerSha256CheckView {
    /// The disagreement, but for the time of the check.
    pub open spec fn disagreement(self) -> Disagreement {
        Disagreement {
            peer_id: self.peer_rebuilder_id,
            key: (self.binary_name, self.binary_version),
            peer_build_id: self.peer_build_id,
            peer_status: self.peer_status,
        }
    }
}

/// The disagreements of a list, but for the times of the checks.
pub open spec fn disagreements(checks: Seq<UpsertPeerSha256CheckView>) -> Seq<Disagreement> {
    checks.map_values(|check: UpsertPeerSha256CheckView| check.disagreement())
}

/// The disagreement with a peer on a package.
pub open spec fn disagreement_on(peer_id: i32, key: PackageKey, info: PeerPkgInfo) -> Disagreement {
    Disagreement {
        peer_id,
        key,
        peer_build_id: info.peer_build_id,
        peer_status: Some(status_name(info.status)),
    }
}

/// The disagreements with a peer, in the order of its packages.
pub open spec fn peer_disagreements(
    peer_id: i32,
    packages: Seq<(PackageKey, PeerPkgInfo)>,
    local: Map<PackageKey, LocalPkgInfo>,
) -> Seq<Disagreement>
    decreases packages.len(),
{
    if packages.len() == 0 {
        Seq::empty()
    } else {
        let before = peer_disagreements(peer_id, packages.drop_last(), local);
        let (key, info) = packages.last();
        if disagrees(key, info, local) {
            before.push(disagreement_on(peer_id, key, info))
        } else {
            before
        }
    }
}

/// The disagreements with all peers that were fetched, peer by peer.
pub open spec fn all_disagreements(
    outcomes: Seq<FetchOutcomeView>,
    local: Map<PackageKey, LocalPkgInfo>,
) -> Seq<Disagreement>
    decreases outcomes.len(),
{
    if outcomes.len() == 0 {
        Seq::empty()
    } else {
        let before = all_disagreements(outcomes.drop_last(), local);
        match outcomes.last() {
            FetchOutcomeView::Fetched { peer_id, packages } => before + peer_disagreements(
                peer_id,
                packages,
                local,
            ),
            _ => before,
        }
    }
}

/// The peers that were fetched, and so can be compared.
pub open spec fn compared_peers(outcomes: Seq<FetchOutcomeView>) -> Seq<i32>
    decreases outcomes.len(),
{
    if outcomes.len() == 0 {
        Seq::empty()
    } else {
        let before = compared_peers(outcomes.drop_last());
        match outcomes.last() {
            FetchOutcomeView::Fetched { peer_id, packages } => before.push(peer_id),
            _ => before,
        }
    }
}

/// No other outcome is about the same peer.
pub open spec fn fetched_once(outcomes: Seq<FetchOutcomeView>, i: int) -> bool {
    forall|j: int|
        0 <= j < outcomes.len() && j != i && (#[trigger] outcomes[j]) is Fetched
            ==> outcomes[j]->peer_id != outcomes[i]->peer_id
}

/// Whether a peer and the local rebuilder disagree.
pub fn statuses_disagree(peer: BuildStatus, local: BuildStatus) -> (r: bool)
    ensures
        r == disagree(peer, local),
{
    (peer == BuildStatus::Good && local == BuildStatus::Bad) || (peer == BuildStatus::Bad && local
        == BuildStatus::Good)
}

/// The disagreement with a peer on a package, found at the given time.
pub fn disagreement_check(
    peer_id: i32,
    name: &String,
    version: &String,
    info: PeerPkgInfo,
    now: Timestamp,
) -> (r: UpsertPeerSha256Check)
    ensures
        r@ == (UpsertPeerSha256CheckView {
            peer_rebuilder_id: peer_id,
            binary_name: name@,
            binary_version: version@,
            peer_build_id: info.peer_build_id,
            checked_at: now@,
            peer_status: Some(status_name(info.status)),
        }),
{
    UpsertPeerSha256Check {
        peer_rebuilder_id: peer_id,
        binary_name: name.clone(),
        binary_version: version.clone(),
        peer_build_id: info.peer_build_id,
        checked_at: now,
        peer_status: Some(build_status_to_str(&info.status)),
    }
}

/// Whether any peer was fetched, so that there is something to compare.
pub fn any_fetched(outcomes: &Vec<FetchOutcome>) -> (r: bool)
    ensures
        r == (compared_peers(views(outcomes@)).len() > 0),
{
    let mut i: usize = 0;
    proof {
        assert(views(outcomes@).take(0) =~= Seq::<FetchOutcomeView>::empty());
    }
    while i < outcomes.len()
        invariant
            i <= outcomes@.len(),
            compared_peers(views(outcomes@).take(i as int)).len() == 0,
        decreases outcomes@.len() - i,
    {
        proof {
            assert(views(outcomes@).take(i + 1).drop_last() =~= views(outcomes@).take(i as int));
        }
        if let FetchOutcome::Fetched { .. } = &outcomes[i] {
            proof {
                assert(views(outcomes@).take(i + 1).last() == outcomes@[i as int]@);
                compared_grow(views(outcomes@), i + 1);
            }
            return true;
        }
        i += 1;
    }
    proof {
        assert(views(outcomes@).take(i as int) =~= views(outcomes@));
    }
    false
}

/// More outcomes do not make for fewer compared peers.
proof fn compared_grow(outcomes: Seq<FetchOutcomeView>, n: int)
    requires
        0 <= n <= outcomes.len(),
    ensures
        compared_peers(outcomes.take(n)).len() <= compared_peers(outcomes).len(),
    decreases outcomes.len() - n,
{
    if n == outcomes.len() {
        assert(outcomes.take(n) =~= outcomes);
    } else {
        assert(outcomes.take(n + 1).drop_last() =~= outcomes.take(n));
        compared_grow(outcomes, n + 1);
    }
}

/// What a cross-check has found.
pub struct CrossCheck {
    /// The peers that were compared: what the cache holds of them is out of date.
    pub compared_peer_ids: Vec<i32>,
    /// The disagreements to be cached in its place.
    pub upserts: Vec<UpsertPeerSha256Check>,
}

/// Each check was made at a point in time as the clock gives it, which is never in a leap
/// second.
pub open spec fn read_from_clock(checks: Seq<UpsertPeerSha256CheckView>) -> bool {
    forall|i: int|
        0 <= i < checks.len() ==> representable(
            (#[trigger] checks[i]).checked_at.0,
            checks[i].checked_at.1,
        ) && !in_leap_second(checks[i].checked_at)
}

/// Adds the disagreements with one peer.
fn compare_peer(
    peer_id: i32,
    packages: &PackageMap<PeerPkgInfo>,
    local: &PackageMap<LocalPkgInfo>,
    upserts: &mut Vec<UpsertPeerSha256Check>,
)
    ensures
        disagreements(views(final(upserts)@)) == disagreements(views(old(upserts)@))
            + peer_disagreements(peer_id, packages.entries(), local@),
        read_from_clock(views(old(upserts)@)) ==> read_from_clock(views(final(upserts)@)),
{
    let ghost entries = packages.entries();
    let ghost before = disagreements(views(upserts@));
    let ghost clocked = read_from_clock(views(upserts@));
    let mut i: usize = 0;
    proof {
        assert(entries.take(0) =~= Seq::<(PackageKey, PeerPkgInfo)>::empty());
        assert(before + Seq::<Disagreement>::empty() =~= before);
    }
    while i < packages.len()
        invariant
            i <= entries.len(),
            entries == packages.entries(),
            disagreements(views(upserts@)) == before + peer_disagreements(
                peer_id,
                entries.take(i as int),
                local@,
            ),
            clocked ==> read_from_clock(views(upserts@)),
        decreases entries.len() - i,
    {
        proof {
            assert(entries.take(i + 1).drop_last() =~= entries.take(i as int));
            assert(entries.take(i + 1).last() == entries[i as int]);
        }
        let (name, version, info) = packages.entry(i);
        if let Some(known) = local.get(name.as_str(), version) {
            if statuses_disagree(info.status, known.status) {
                let now = Timestamp::now();
                let ghost was = upserts@;
                upserts.push(disagreement_check(peer_id, name, version, info, now));
                proof {
                    assert(disagreements(views(upserts@)) =~= disagreements(views(was)).push(
                        disagreement_on(peer_id, (name@, version@), info),
                    ));
                    assert(disagreements(views(upserts@)) =~= before + peer_disagreements(
                        peer_id,
                        entries.take(i + 1),
                        local@,
                    ));
                    assert(views(upserts@) =~= views(was).push(upserts@.last()@));
                }
            }
        }
        i += 1;
    }
    proof {
        assert(entries.take(i as int) =~= entries);
    }
}

/// Compares what the peers report with what is known locally. Each disagreement carries the
/// time at which it was found.
pub fn cross_check(outcomes: &Vec<FetchOutcome>, local: &PackageMap<LocalPkgInfo>) -> (r:
    CrossCheck)
    ensures
        r.compared_peer_ids@ == compared_peers(views(outcomes@)),
        disagreements(views(r.upserts@)) == all_disagreements(views(outcomes@), local@),
        read_from_clock(views(r.upserts@)),
{
    let mut compared_peer_ids: Vec<i32> = Vec::new();
    let mut upserts: Vec<UpsertPeerSha256Check> = Vec::new();
    let mut i: usize = 0;
    proof {
        assert(views(outcomes@).take(0) =~= Seq::<FetchOutcomeView>::empty());
        assert(disagreements(views(upserts@)) =~= Seq::<Disagreement>::empty());
    }
    while i < outcomes.len()
        invariant
            i <= outcomes@.len(),
            compared_peer_ids@ == compared_peers(views(outcomes@).take(i as int)),
            disagreements(views(upserts@)) == all_disagreements(
                views(outcomes@).take(i as int),
                local@,
            ),
            read_from_clock(views(upserts@)),
        decreases outcomes@.len() - i,
    {
        proof {
            assert(views(outcomes@).take(i + 1).drop_last() =~= views(outcomes@).take(i as int));
            assert(views(outcomes@).take(i + 1).last() == outcomes@[i as int]@);
        }
        if let FetchOutcome::Fetched { peer_id, packages } = &outcomes[i] {
            compared_peer_ids.push(*peer_id);
            compare_peer(*peer_id, packages, local, &mut upserts);
        }
        i += 1;
    }
    proof {
        assert(views(outcomes@).take(i as int) =~= views(outcomes@));
    }
    CrossCheck { compared_peer_ids, upserts }
}

// ---------------------------------------------------------------------------
// The cache
// ---------------------------------------------------------------------------

/// The row of the cache that a disagreement gets, under the given id.
pub open spec fn cached_row(check: UpsertPeerSha256CheckView, id: i32) -> PeerSha256CheckView {
    PeerSha256CheckView {
        id,
        peer_rebuilder_id: check.peer_rebuilder_id,
        binary_name: check.binary_name,
        binary_version: check.binary_version,
        peer_build_id: check.peer_build_id,
        checked_at: check.checked_at,
        peer_status: check.peer_status,
    }
}

/// The rows of the cache that are not about compared peers.
pub open spec fn kept_rows(rows: Seq<PeerSha256CheckView>, compared: Seq<i32>) -> Seq<
    PeerSha256CheckView,
>
    decreases rows.len(),
{
    if rows.len() == 0 {
        Seq::empty()
    } else {
        let rest = kept_rows(rows.drop_first(), compared);
        if compared.contains(rows.first().peer_rebuilder_id) {
            rest
        } else {
            seq![rows.first()] + rest
        }
    }
}

/// The rows of the cache after a cross-check: what it held of the compared peers has made way
/// for what was found, which gets the given ids.
pub open spec fn refreshed(
    rows: Seq<PeerSha256CheckView>,
    compared: Seq<i32>,
    found: Seq<UpsertPeerSha256CheckView>,
    ids: Seq<i32>,
) -> Seq<PeerSha256CheckView> {
    kept_rows(rows, compared) + Seq::new(found.len(), |i: int| cached_row(found[i], ids[i]))
}

/// The kept rows say of a peer that was not compared what the cache said, and nothing of one
/// that was.
proof fn kept_rows_say(
    rows: Seq<PeerSha256CheckView>,
    compared: Seq<i32>,
    peer_id: i32,
    name: Seq<char>,
    version: Seq<char>,
)
    ensures
        cached_check(kept_rows(rows, compared), peer_id, name, version) == if compared.contains(
            peer_id,
        ) {
            None
        } else {
            cached_check(rows, peer_id, name, version)
        },
    decreases rows.len(),
{
    if rows.len() > 0 {
        let rest = kept_rows(rows.drop_first(), compared);
        kept_rows_say(rows.drop_first(), compared, peer_id, name, version);
        if !compared.contains(rows.first().peer_rebuilder_id) {
            let all = seq![rows.first()] + rest;
            assert(all.first() == rows.first());
            assert(all.drop_first() =~= rest);
        }
    }
}

/// What two lists of rows say together is what the first says, or else the second.
proof fn lists_say(
    first: Seq<PeerSha256CheckView>,
    second: Seq<PeerSha256CheckView>,
    peer_id: i32,
    name: Seq<char>,
    version: Seq<char>,
)
    ensures
        cached_check(first + second, peer_id, name, version) == match cached_check(
            first,
            peer_id,
            name,
            version,
        ) {
            Some(check) => Some(check),
            None => cached_check(second, peer_id, name, version),
        },
    decreases first.len(),
{
    if first.len() == 0 {
        assert(first + second =~= second);
    } else {
        assert((first + second).first() == first.first());
        assert((first + second).drop_first() =~= first.drop_first() + second);
        lists_say(first.drop_first(), second, peer_id, name, version);
    }
}

/// What rows say of a peer and package stands in one of them; they say nothing where none is
/// about it.
proof fn rows_say(
    rows: Seq<PeerSha256CheckView>,
    peer_id: i32,
    name: Seq<char>,
    version: Seq<char>,
)
    ensures
        match cached_check(rows, peer_id, name, version) {
            Some(check) => exists|i: int|
                0 <= i < rows.len() && #[trigger] rows[i] == check && check.is_about(
                    peer_id,
                    name,
                    version,
                ),
            None => forall|i: int|
                0 <= i < rows.len() ==> !(#[trigger] rows[i]).is_about(peer_id, name, version),
        },
    decreases rows.len(),
{
    if rows.len() > 0 && !rows.first().is_about(peer_id, name, version) {
        let rest = rows.drop_first();
        rows_say(rest, peer_id, name, version);
        match cached_check(rest, peer_id, name, version) {
            Some(check) => {
                let i = choose|i: int|
                    0 <= i < rest.len() && #[trigger] rest[i] == check && check.is_about(
                        peer_id,
                        name,
                        version,
                    );
                assert(rows[i + 1] == check);
            },
            None => {
                assert forall|i: int| 0 <= i < rows.len() implies !(#[trigger] rows[i]).is_about(
                    peer_id,
                    name,
                    version,
                ) by {
                    if i > 0 {
                        assert(rest[i - 1] == rows[i]);
                    }
                }
            },
        }
    }
}

/// A disagreement on one of a peer's packages.
spec fn stems_from(
    d: Disagreement,
    peer_id: i32,
    packages: Seq<(PackageKey, PeerPkgInfo)>,
    local: Map<PackageKey, LocalPkgInfo>,
) -> bool {
    exists|e: int|
        0 <= e < packages.len() && disagrees((#[trigger] packages[e]).0, packages[e].1, local) && d
            == disagreement_on(peer_id, packages[e].0, packages[e].1)
}

/// A peer's disagreements are those of its packages that disagree.
proof fn peer_disagreements_are(
    peer_id: i32,
    packages: Seq<(PackageKey, PeerPkgInfo)>,
    local: Map<PackageKey, LocalPkgInfo>,
)
    ensures
        forall|j: int|
            0 <= j < peer_disagreements(peer_id, packages, local).len() ==> stems_from(
                #[trigger] peer_disagreements(peer_id, packages, local)[j],
                peer_id,
                packages,
                local,
            ),
        forall|e: int|
            0 <= e < packages.len() && disagrees((#[trigger] packages[e]).0, packages[e].1, local)
                ==> peer_disagreements(peer_id, packages, local).contains(
                disagreement_on(peer_id, packages[e].0, packages[e].1),
            ),
    decreases packages.len(),
{
    if packages.len() > 0 {
        let rest = packages.drop_last();
        let before = peer_disagreements(peer_id, rest, local);
        let all = peer_disagreements(peer_id, packages, local);
        peer_disagreements_are(peer_id, rest, local);
        assert forall|j: int| 0 <= j < all.len() implies stems_from(
            #[trigger] all[j],
            peer_id,
            packages,
            local,
        ) by {
            if j < before.len() {
                assert(all[j] == before[j]);
                let e = choose|e: int|
                    0 <= e < rest.len() && disagrees((#[trigger] rest[e]).0, rest[e].1, local)
                        && before[j] == disagreement_on(peer_id, rest[e].0, rest[e].1);
                assert(packages[e] == rest[e]);
            } else {
                assert(packages[packages.len() - 1] == packages.last());
            }
        }
        assert forall|e: int|
            0 <= e < packages.len() && disagrees(
                (#[trigger] packages[e]).0,
                packages[e].1,
                local,
            ) implies all.contains(disagreement_on(peer_id, packages[e].0, packages[e].1)) by {
            let d = disagreement_on(peer_id, packages[e].0, packages[e].1);
            if e < rest.len() {
                assert(rest[e] == packages[e]);
                let j = choose|j: int| 0 <= j < before.len() && before[j] == d;
                assert(all[j] == d);
            } else {
                assert(all[all.len() - 1] == d);
            }
        }
    }
}

/// The disagreements of a cross-check that are about a peer are that peer's disagreements,
/// where the peer was fetched once.
proof fn disagreements_by_peer(
    outcomes: Seq<FetchOutcomeView>,
    local: Map<PackageKey, LocalPkgInfo>,
    i: int,
)
    requires
        0 <= i < outcomes.len(),
        outcomes[i] is Fetched,
        fetched_once(outcomes, i),
    ensures
        forall|j: int|
            0 <= j < all_disagreements(outcomes, local).len() && (#[trigger] all_disagreements(
                outcomes,
                local,
            )[j]).peer_id == outcomes[i]->peer_id ==> peer_disagreements(
                outcomes[i]->peer_id,
                outcomes[i]->packages,
                local,
            ).contains(all_disagreements(outcomes, local)[j]),
        forall|d: Disagreement|
            peer_disagreements(outcomes[i]->peer_id, outcomes[i]->packages, local).contains(d)
                ==> #[trigger] all_disagreements(outcomes, local).contains(d),
    decreases outcomes.len(),
{
    let rest = outcomes.drop_last();
    let before = all_disagreements(rest, local);
    let all = all_disagreements(outcomes, local);
    let id = outcomes[i]->peer_id;
    let own = peer_disagreements(id, outcomes[i]->packages, local);
    let n = outcomes.len() - 1;
    if i < n {
        assert(rest[i] == outcomes[i]);
        assert forall|j: int|
            0 <= j < rest.len() && j != i && (#[trigger] rest[j]) is Fetched implies rest[j]->peer_id
            != rest[i]->peer_id by {
            assert(rest[j] == outcomes[j]);
        }
        disagreements_by_peer(rest, local, i);
        if outcomes.last() is Fetched {
            let last = peer_disagreements(
                outcomes.last()->peer_id,
                outcomes.last()->packages,
                local,
            );
            assert(all == before + last);
            peer_disagreements_are(outcomes.last()->peer_id, outcomes.last()->packages, local);
            assert(outcomes[n] is Fetched);
            assert forall|j: int| 0 <= j < all.len() && (#[trigger] all[j]).peer_id
                == id implies own.contains(all[j]) by {
                if j < before.len() {
                    assert(before[j] == all[j]);
                } else {
                    assert(last[j - before.len()] == all[j]);
                }
            }
            assert forall|d: Disagreement| own.contains(d) implies #[trigger] all.contains(d) by {
                assert(before.contains(d));
                let j = choose|j: int| 0 <= j < before.len() && before[j] == d;
                assert(all[j] == d);
            }
        }
    } else {
        not_about_others(rest, local, id);
        assert(all == before + own);
        assert forall|j: int| 0 <= j < all.len() && (#[trigger] all[j]).peer_id
            == id implies own.contains(all[j]) by {
            if j < before.len() {
                assert(before[j] == all[j]);
            } else {
                assert(own[j - before.len()] == all[j]);
            }
        }
        assert forall|d: Disagreement| own.contains(d) implies #[trigger] all.contains(d) by {
            let j = choose|j: int| 0 <= j < own.len() && own[j] == d;
            assert(all[before.len() + j] == d);
        }
    }
}

/// No disagreement is about a peer that was not fetched.
proof fn not_about_others(
    outcomes: Seq<FetchOutcomeView>,
    local: Map<PackageKey, LocalPkgInfo>,
    id: i32,
)
    requires
        forall|j: int|
            0 <= j < outcomes.len() && (#[trigger] outcomes[j]) is Fetched ==> outcomes[j]->peer_id
                != id,
    ensures
        forall|j: int|
            0 <= j < all_disagreements(outcomes, local).len() ==> (#[trigger] all_disagreements(
                outcomes,
                local,
            )[j]).peer_id != id,
    decreases outcomes.len(),
{
    if outcomes.len() > 0 {
        let rest = outcomes.drop_last();
        let before = all_disagreements(rest, local);
        let all = all_disagreements(outcomes, local);
        assert forall|j: int| 0 <= j < rest.len() && (#[trigger] rest[j]) is Fetched implies rest[j]->peer_id
            != id by {
            assert(rest[j] == outcomes[j]);
        }
        not_about_others(rest, local, id);
        if outcomes.last() is Fetched {
            assert(outcomes[outcomes.len() - 1] is Fetched);
            let last = peer_disagreements(
                outcomes.last()->peer_id,
                outcomes.last()->packages,
                local,
            );
            peer_disagreements_are(outcomes.last()->peer_id, outcomes.last()->packages, local);
            assert forall|j: int| 0 <= j < all.len() implies (#[trigger] all[j]).peer_id != id by {
                if j < before.len() {
                    assert(before[j] == all[j]);
                } else {
                    assert(last[j - before.len()] == all[j]);
                }
            }
        }
    }
}

/// The compared peers are those that were fetched.
proof fn compared_are_fetched(outcomes: Seq<FetchOutcomeView>)
    ensures
        forall|j: int|
            0 <= j < outcomes.len() && (#[trigger] outcomes[j]) is Fetched ==> compared_peers(
                outcomes,
            ).contains(outcomes[j]->peer_id),
    decreases outcomes.len(),
{
    if outcomes.len() > 0 {
        let rest = outcomes.drop_last();
        compared_are_fetched(rest);
        let before = compared_peers(rest);
        let all = compared_peers(outcomes);
        assert forall|j: int| 0 <= j < outcomes.len() && (
        #[trigger] outcomes[j]) is Fetched implies all.contains(outcomes[j]->peer_id) by {
            let id = outcomes[j]->peer_id;
            if j < rest.len() {
                assert(rest[j] == outcomes[j]);
                let k = choose|k: int| 0 <= k < before.len() && before[k] == id;
                assert(all[k] == id);
            } else {
                assert(all[all.len() - 1] == id);
            }
        }
    }
}

/// The disagreements of a cross-check that are about a package of a compared peer.
proof fn disagreements_on_package(
    outcomes: Seq<FetchOutcomeView>,
    local: Map<PackageKey, LocalPkgInfo>,
    i: int,
    key: PackageKey,
)
    requires
        0 <= i < outcomes.len(),
        outcomes[i] is Fetched,
        distinct_keys(outcomes[i]->packages),
        fetched_once(outcomes, i),
    ensures
        ({
            let id = outcomes[i]->peer_id;
            let known = as_map(outcomes[i]->packages);
            let found = all_disagreements(outcomes, local);
            &&& forall|j: int|
                0 <= j < found.len() && (#[trigger] found[j]).peer_id == id && found[j].key == key
                    ==> known.contains_key(key) && disagrees(key, known[key], local) && found[j]
                    == disagreement_on(id, key, known[key])
            &&& known.contains_key(key) && disagrees(key, known[key], local) ==> found.contains(
                disagreement_on(id, key, known[key]),
            )
        }),
{
    let id = outcomes[i]->peer_id;
    let packages = outcomes[i]->packages;
    let known = as_map(packages);
    let found = all_disagreements(outcomes, local);
    let own = peer_disagreements(id, packages, local);
    disagreements_by_peer(outcomes, local, i);
    peer_disagreements_are(id, packages, local);
    map_holds_entries(packages);
    assert forall|j: int|
        0 <= j < found.len() && (#[trigger] found[j]).peer_id == id && found[j].key
            == key implies known.contains_key(key) && disagrees(key, known[key], local) && found[j]
        == disagreement_on(id, key, known[key]) by {
        assert(own.contains(found[j]));
        let k = choose|k: int| 0 <= k < own.len() && own[k] == found[j];
        let e = choose|e: int|
            0 <= e < packages.len() && disagrees(
                (#[trigger] packages[e]).0,
                packages[e].1,
                local,
            ) && own[k] == disagreement_on(id, packages[e].0, packages[e].1);
        assert(packages[e].0 == key);
    }
    if known.contains_key(key) && disagrees(key, known[key], local) {
        let e = choose|e: int| 0 <= e < packages.len() && (#[trigger] packages[e]).0 == key;
        assert(own.contains(disagreement_on(id, packages[e].0, packages[e].1)));
    }
}

/// After a cross-check, a lookup in the cache shows of a peer that was compared exactly the
/// packages on which it now disagrees with the local rebuilder, each with the peer's status
/// and build. A disagreement that has been resolved is gone.
pub proof fn cache_shows_current_disagreements(
    rows: Seq<PeerSha256CheckView>,
    found: Seq<UpsertPeerSha256CheckView>,
    ids: Seq<i32>,
    outcomes: Seq<FetchOutcomeView>,
    local: Map<PackageKey, LocalPkgInfo>,
    i: int,
    peer: PeerRebuilderView,
    key: PackageKey,
)
    requires
        disagreements(found) == all_disagreements(outcomes, local),
        0 <= i < outcomes.len(),
        outcomes[i] is Fetched,
        outcomes[i]->peer_id == peer.id,
        distinct_keys(outcomes[i]->packages),
        fetched_once(outcomes, i),
    ensures
        ({
            let after = refreshed(rows, compared_peers(outcomes), found, ids);
            let entry = cached_entry_of(peer, cached_check(after, peer.id, key.0, key.1));
            let known = as_map(outcomes[i]->packages);
            if known.contains_key(key) && disagrees(key, known[key], local) {
                &&& entry.status == Some(known[key].status)
                &&& entry.build_id == known[key].peer_build_id
            } else {
                entry == unknown_entry(resolved_url(peer.url, peer.architecture))
            }
        }),
{
    let compared = compared_peers(outcomes);
    let known = as_map(outcomes[i]->packages);
    let all = all_disagreements(outcomes, local);
    let fresh = Seq::new(found.len(), |j: int| cached_row(found[j], ids[j]));
    compared_are_fetched(outcomes);
    kept_rows_say(rows, compared, peer.id, key.0, key.1);
    lists_say(kept_rows(rows, compared), fresh, peer.id, key.0, key.1);
    rows_say(fresh, peer.id, key.0, key.1);
    disagreements_on_package(outcomes, local, i, key);
    assert(forall|j: int| 0 <= j < found.len() ==> #[trigger] all[j] == found[j].disagreement());
    match cached_check(fresh, peer.id, key.0, key.1) {
        Some(check) => {
            let j = choose|j: int|
                0 <= j < fresh.len() && #[trigger] fresh[j] == check && check.is_about(
                    peer.id,
                    key.0,
                    key.1,
                );
            assert(all[j].peer_id == peer.id && all[j].key == key);
            status_name_round_trips(known[key].status);
        },
        None => {
            if known.contains_key(key) && disagrees(key, known[key], local) {
                let d = disagreement_on(peer.id, key, known[key]);
                let j = choose|j: int| 0 <= j < all.len() && all[j] == d;
                assert(fresh[j].is_about(peer.id, key.0, key.1));
            }
        },
    }
}

/// A cross-check leaves alone what the cache says of a peer that was not compared.
pub proof fn cache_keeps_other_peers(
    rows: Seq<PeerSha256CheckView>,
    found: Seq<UpsertPeerSha256CheckView>,
    ids: Seq<i32>,
    outcomes: Seq<FetchOutcomeView>,
    local: Map<PackageKey, LocalPkgInfo>,
    peer_id: i32,
    name: Seq<char>,
    version: Seq<char>,
)
    requires
        disagreements(found) == all_disagreements(outcomes, local),
        !compared_peers(outcomes).contains(peer_id),
    ensures
        cached_check(
            refreshed(rows, compared_peers(outcomes), found, ids),
            peer_id,
            name,
            version,
        ) == cached_check(rows, peer_id, name, version),
{
    let compared = compared_peers(outcomes);
    let all = all_disagreements(outcomes, local);
    let fresh = Seq::new(found.len(), |j: int| cached_row(found[j], ids[j]));
    compared_are_fetched(outcomes);
    not_about_others(outcomes, local, peer_id);
    assert(forall|j: int| 0 <= j < found.len() ==> #[trigger] all[j] == found[j].disagreement());
    kept_rows_say(rows, compared, peer_id, name, version);
    lists_say(kept_rows(rows, compared), fresh, peer_id, name, version);
    rows_say(fresh, peer_id, name, version);
    match cached_check(fresh, peer_id, name, version) {
        Some(check) => {
            let j = choose|j: int|
                0 <= j < fresh.len() && #[trigger] fresh[j] == check && check.is_about(
                    peer_id,
                    name,
                    version,
                );
            assert(all[j].peer_id == peer_id);
        },
        None => {},
    }
}

/// No two disagreements are about the same package of the same peer.
pub open spec fn each_once(found: Seq<Disagreement>) -> bool {
    forall|i: int, j: int|
        0 <= i < j < found.len() ==> (#[trigger] found[i]).peer_id != (#[trigger] found[j]).peer_id
            || found[i].key != found[j].key
}

/// A peer's disagreements are about different packages.
proof fn peer_disagreements_differ(
    peer_id: i32,
    packages: Seq<(PackageKey, PeerPkgInfo)>,
    local: Map<PackageKey, LocalPkgInfo>,
)
    requires
        distinct_keys(packages),
    ensures
        each_once(peer_disagreements(peer_id, packages, local)),
    decreases packages.len(),
{
    if packages.len() > 0 {
        let rest = packages.drop_last();
        let before = peer_disagreements(peer_id, rest, local);
        let all = peer_disagreements(peer_id, packages, local);
        assert(distinct_keys(rest));
        peer_disagreements_differ(peer_id, rest, local);
        peer_disagreements_are(peer_id, rest, local);
        assert forall|i: int, j: int| 0 <= i < j < all.len() implies (#[trigger] all[i]).peer_id
            != (#[trigger] all[j]).peer_id || all[i].key != all[j].key by {
            assert(all[i] == before[i]);
            if j < before.len() {
                assert(all[j] == before[j]);
            } else {
                let e = choose|e: int|
                    0 <= e < rest.len() && disagrees((#[trigger] rest[e]).0, rest[e].1, local)
                        && before[i] == disagreement_on(peer_id, rest[e].0, rest[e].1);
                assert(packages[e].0 != packages[packages.len() - 1].0);
            }
        }
    }
}

/// A cross-check finds each disagreement once, where each peer was fetched once: it does not
/// put two rows on the same package of the same peer in the cache.
pub proof fn disagreements_are_found_once(
    outcomes: Seq<FetchOutcomeView>,
    local: Map<PackageKey, LocalPkgInfo>,
)
    requires
        forall|i: int|
            0 <= i < outcomes.len() && (#[trigger] outcomes[i]) is Fetched ==> distinct_keys(
                outcomes[i]->packages,
            ) && fetched_once(outcomes, i),
    ensures
        each_once(all_disagreements(outcomes, local)),
    decreases outcomes.len(),
{
    if outcomes.len() > 0 {
        let rest = outcomes.drop_last();
        let n = outcomes.len() - 1;
        assert forall|i: int| 0 <= i < rest.len() && (#[trigger] rest[i]) is Fetched implies
            distinct_keys(rest[i]->packages) && fetched_once(rest, i) by {
            assert(rest[i] == outcomes[i]);
            assert(fetched_once(outcomes, i));
            assert forall|j: int|
                0 <= j < rest.len() && j != i && (
                #[trigger] rest[j]) is Fetched implies rest[j]->peer_id != rest[i]->peer_id by {
                assert(rest[j] == outcomes[j]);
            }
        }
        disagreements_are_found_once(rest, local);
        if outcomes.last() is Fetched {
            let id = outcomes.last()->peer_id;
            let before = all_disagreements(rest, local);
            let last = peer_disagreements(id, outcomes.last()->packages, local);
            let all = all_disagreements(outcomes, local);
            assert(outcomes[n] is Fetched);
            assert(fetched_once(outcomes, n));
            assert forall|j: int| 0 <= j < rest.len() && (
            #[trigger] rest[j]) is Fetched implies rest[j]->peer_id != id by {
                assert(rest[j] == outcomes[j]);
            }
            not_about_others(rest, local, id);
            peer_disagreements_differ(id, outcomes.last()->packages, local);
            peer_disagreements_are(id, outcomes.last()->packages, local);
            assert forall|i: int, j: int| 0 <= i < j < all.len() implies (
            #[trigger] all[i]).peer_id != (#[trigger] all[j]).peer_id || all[i].key
                != all[j].key by {
                if j < before.len() {
                    assert(all[i] == before[i] && all[j] == before[j]);
                } else {
                    assert(all[j] == last[j - before.len()]);
                    if i < before.len() {
                        assert(all[i] == before[i]);
                    } else {
                        assert(all[i] == last[i - before.len()]);
                    }
                }
            }
        }
    }
}

/// The rows of the cache that are about compared peers.
pub open spec fn compared_rows(rows: Seq<PeerSha256CheckView>, compared: Seq<i32>) -> Seq<
    PeerSha256CheckView,
>
    decreases rows.len(),
{
    if rows.len() == 0 {
        Seq::empty()
    } else {
        let rest = compared_rows(rows.drop_first(), compared);
        if compared.contains(rows.first().peer_rebuilder_id) {
            seq![rows.first()] + rest
        } else {
            rest
        }
    }
}

/// What a row of the cache holds, but for its id and the time of the check.
pub open spec fn row_disagreement(row: PeerSha256CheckView) -> Disagreement {
    Disagreement {
        peer_id: row.peer_rebuilder_id,
        key: (row.binary_name, row.binary_version),
        peer_build_id: row.peer_build_id,
        peer_status: row.peer_status,
    }
}

/// What the rows of the cache hold, but for their ids and the times of the checks.
pub open spec fn row_disagreements(rows: Seq<PeerSha256CheckView>) -> Seq<Disagreement> {
    rows.map_values(|row: PeerSha256CheckView| row_disagreement(row))
}

/// Kept and compared rows of two lists are those of the first, then those of the second.
proof fn rows_of_lists(
    first: Seq<PeerSha256CheckView>,
    second: Seq<PeerSha256CheckView>,
    compared: Seq<i32>,
)
    ensures
        kept_rows(first + second, compared) == kept_rows(first, compared) + kept_rows(
            second,
            compared,
        ),
        compared_rows(first + second, compared) == compared_rows(first, compared)
            + compared_rows(second, compared),
    decreases first.len(),
{
    if first.len() == 0 {
        assert(first + second =~= second);
        assert(kept_rows(first, compared) + kept_rows(second, compared) =~= kept_rows(
            second,
            compared,
        ));
        assert(compared_rows(first, compared) + compared_rows(second, compared)
            =~= compared_rows(second, compared));
    } else {
        let rest = first.drop_first();
        rows_of_lists(rest, second, compared);
        assert((first + second).first() == first.first());
        assert((first + second).drop_first() =~= rest + second);
        let one = seq![first.first()];
        assert(one + (kept_rows(rest, compared) + kept_rows(second, compared)) =~= one
            + kept_rows(rest, compared) + kept_rows(second, compared));
        assert(one + (compared_rows(rest, compared) + compared_rows(second, compared)) =~= one
            + compared_rows(rest, compared) + compared_rows(second, compared));
    }
}

/// Kept rows stay kept, and none of them is about a compared peer.
proof fn kept_rows_stay(rows: Seq<PeerSha256CheckView>, compared: Seq<i32>)
    ensures
        kept_rows(kept_rows(rows, compared), compared) == kept_rows(rows, compared),
        compared_rows(kept_rows(rows, compared), compared).len() == 0,
    decreases rows.len(),
{
    if rows.len() > 0 {
        let rest = kept_rows(rows.drop_first(), compared);
        kept_rows_stay(rows.drop_first(), compared);
        if !compared.contains(rows.first().peer_rebuilder_id) {
            let all = seq![rows.first()] + rest;
            assert(all.first() == rows.first());
            assert(all.drop_first() =~= rest);
        }
    }
}

/// Rows that are all about compared peers.
proof fn rows_all_compared(rows: Seq<PeerSha256CheckView>, compared: Seq<i32>)
    requires
        forall|i: int|
            0 <= i < rows.len() ==> compared.contains((#[trigger] rows[i]).peer_rebuilder_id),
    ensures
        kept_rows(rows, compared).len() == 0,
        compared_rows(rows, compared) == rows,
    decreases rows.len(),
{
    if rows.len() > 0 {
        let rest = rows.drop_first();
        assert forall|i: int| 0 <= i < rest.len() implies compared.contains(
            (#[trigger] rest[i]).peer_rebuilder_id,
        ) by {
            assert(rest[i] == rows[i + 1]);
        }
        rows_all_compared(rest, compared);
        assert(rows[0] == rows.first());
        assert(seq![rows.first()] + rest =~= rows);
    } else {
        assert(compared_rows(rows, compared) =~= rows);
    }
}

/// After a cross-check, the rows of the cache that are about compared peers are exactly the
/// disagreements that were found, in their order and, where each peer was fetched once, each
/// once. The rows about other peers are as they were.
pub proof fn compared_rows_are_what_was_found(
    rows: Seq<PeerSha256CheckView>,
    found: Seq<UpsertPeerSha256CheckView>,
    ids: Seq<i32>,
    outcomes: Seq<FetchOutcomeView>,
    local: Map<PackageKey, LocalPkgInfo>,
)
    requires
        disagreements(found) == all_disagreements(outcomes, local),
    ensures
        ({
            let compared = compared_peers(outcomes);
            let after = refreshed(rows, compared, found, ids);
            &&& compared_rows(after, compared) == Seq::new(
                found.len(),
                |i: int| cached_row(found[i], ids[i]),
            )
            &&& row_disagreements(compared_rows(after, compared)) == all_disagreements(
                outcomes,
                local,
            )
            &&& kept_rows(after, compared) == kept_rows(rows, compared)
            &&& (forall|i: int|
                0 <= i < outcomes.len() && (#[trigger] outcomes[i]) is Fetched ==> distinct_keys(
                    outcomes[i]->packages,
                ) && fetched_once(outcomes, i)) ==> each_once(
                row_disagreements(compared_rows(after, compared)),
            )
        }),
{
    let compared = compared_peers(outcomes);
    let all = all_disagreements(outcomes, local);
    let kept = kept_rows(rows, compared);
    let fresh = Seq::new(found.len(), |i: int| cached_row(found[i], ids[i]));
    compared_are_fetched(outcomes);
    assert forall|i: int| 0 <= i < fresh.len() implies compared.contains(
        (#[trigger] fresh[i]).peer_rebuilder_id,
    ) by {
        let id = found[i].peer_rebuilder_id;
        assert(all[i] == found[i].disagreement());
        if !compared.contains(id) {
            not_about_others(outcomes, local, id);
            assert(all[i].peer_id != id);
        }
    }
    rows_all_compared(fresh, compared);
    kept_rows_stay(rows, compared);
    rows_of_lists(kept, fresh, compared);
    assert(kept + Seq::<PeerSha256CheckView>::empty() =~= kept);
    assert(kept_rows(fresh, compared) =~= Seq::<PeerSha256CheckView>::empty());
    assert(compared_rows(kept, compared) + fresh =~= fresh);
    assert(row_disagreements(fresh) =~= disagreements(found));
    if forall|i: int|
        0 <= i < outcomes.len() && (#[trigger] outcomes[i]) is Fetched ==> distinct_keys(
            outcomes[i]->packages,
        ) && fetched_once(outcomes, i) {
        disagreements_are_found_once(outcomes, local);
    }
}

/// A second cross-check that gets the same answers leaves the cache as it was, but for the ids
/// of rows and the times of checks.
pub proof fn same_answers_leave_the_cache(
    rows: Seq<PeerSha256CheckView>,
    found: Seq<UpsertPeerSha256CheckView>,
    ids: Seq<i32>,
    found_again: Seq<UpsertPeerSha256CheckView>,
    new_ids: Seq<i32>,
    outcomes: Seq<FetchOutcomeView>,
    local: Map<PackageKey, LocalPkgInfo>,
)
    requires
        disagreements(found) == all_disagreements(outcomes, local),
        disagreements(found_again) == all_disagreements(outcomes, local),
    ensures
        ({
            let compared = compared_peers(outcomes);
            let once = refreshed(rows, compared, found, ids);
            let twice = refreshed(once, compared, found_again, new_ids);
            &&& row_disagreements(twice) == row_disagreements(once)
            &&& kept_rows(twice, compared) == kept_rows(once, compared)
        }),
{
    let compared = compared_peers(outcomes);
    let once = refreshed(rows, compared, found, ids);
    let twice = refreshed(once, compared, found_again, new_ids);
    let kept = kept_rows(rows, compared);
    compared_rows_are_what_was_found(rows, found, ids, outcomes, local);
    compared_rows_are_what_was_found(once, found_again, new_ids, outcomes, local);
    assert(row_disagreements(once) =~= row_disagreements(kept) + disagreements(found));
    assert(row_disagreements(twice) =~= row_disagreements(kept) + disagreements(found_again));
}

/// The peer and the local rebuilder disagree alike: it makes no difference which one is
/// asked, and no status disagrees with itself.
pub proof fn disagreement_is_mutual(a: BuildStatus, b: BuildStatus)
    ensures
        disagree(a, b) == disagree(b, a),
        !disagree(a, a),
{
}

} // verus!
