//! What holds of the cross-check with peers.

use crate::packages::PackageKey;
use crate::peers::api::{package_listing, PackageListingView, PeerPkgInfo};
use crate::peers::crosscheck::{
    all_disagreements, cached_row, compared_peers, disagreements, kept_rows, peer_disagreements,
    peer_fetches, read_from_clock, refreshed, Disagreement, FetchOutcomeView, PeerFetchView,
};
use crate::peers::local::LocalPkgInfo;
use crate::peers::registry::resolved_url;
use crate::peers::{PeerRebuilderView, PeerSha256CheckView, UpsertPeerSha256CheckView};
use crate::status::BuildStatus;
use crate::time::representable;
use vstd::prelude::*;

verus! {

/// The questions to two lists of peers are those to both.
proof fn fetches_of_both(
    a: Seq<PeerRebuilderView>,
    b: Seq<PeerRebuilderView>,
    distribution: Seq<char>,
    architecture: Seq<char>,
)
    ensures
        peer_fetches(a + b, distribution, architecture) == peer_fetches(
            a,
            distribution,
            architecture,
        ) + peer_fetches(b, distribution, architecture),
    decreases b.len(),
{
    let left = peer_fetches(a, distribution, architecture);
    let right = peer_fetches(b, distribution, architecture);
    if b.len() == 0 {
        assert(a + b =~= a);
        assert(left + right =~= left);
    } else {
        assert((a + b).drop_last() =~= a + b.drop_last());
        fetches_of_both(a, b.drop_last(), distribution, architecture);
        assert(peer_fetches(a + b, distribution, architecture) =~= left + right);
    }
}

/// Each registered peer is asked by itself, in its place, where it has the distribution and
/// architecture in question: at its resolved URL, for that distribution and architecture, and
/// for the release under the peer's name for it, or else under the local name, or else for all.
pub proof fn peers_are_asked_one_by_one(
    before: Seq<PeerRebuilderView>,
    peer: PeerRebuilderView,
    after: Seq<PeerRebuilderView>,
    distribution: Seq<char>,
    architecture: Seq<char>,
)
    ensures
        ({
            let asked = peer_fetches(before + seq![peer] + after, distribution, architecture);
            let first = peer_fetches(before, distribution, architecture);
            let rest = peer_fetches(after, distribution, architecture);
            if peer.distribution == distribution && peer.architecture == architecture {
                let fetch = asked[first.len() as int];
                let release = if peer.release_alias.len() > 0 {
                    Some(peer.release_alias)
                } else if peer.release.len() > 0 {
                    Some(peer.release)
                } else {
                    None
                };
                &&& asked == first + seq![fetch] + rest
                &&& fetch.peer_id == peer.id
                &&& fetch.url == resolved_url(peer.url, architecture)
                &&& fetch.listing == package_listing(
                    fetch.url,
                    distribution,
                    architecture,
                    release,
                )
                &&& fetch.listing matches PackageListingView::V1(listing) ==> {
                    &&& listing.distribution == peer.distribution
                    &&& listing.architecture == peer.architecture
                    &&& listing.release == release
                }
            } else {
                asked == first + rest
            }
        }),
        peer_fetches(Seq::empty(), distribution, architecture).len() == 0,
{
    let one = seq![peer];
    fetches_of_both(before + one, after, distribution, architecture);
    fetches_of_both(before, one, distribution, architecture);
    reveal_with_fuel(peer_fetches, 2);
    assert(one.drop_last() =~= Seq::<PeerRebuilderView>::empty());
    let asked = peer_fetches(before + one + after, distribution, architecture);
    let first = peer_fetches(before, distribution, architecture);
    let own = peer_fetches(one, distribution, architecture);
    if peer.distribution == distribution && peer.architecture == architecture {
        assert(own =~= seq![own[0]]);
        assert(asked[first.len() as int] == own[0]);
    } else {
        assert(first + Seq::<PeerFetchView>::empty() =~= first);
    }
}

/// The disagreements on two lists of packages are those on both.
proof fn disagreements_on_both(
    peer_id: i32,
    a: Seq<(PackageKey, PeerPkgInfo)>,
    b: Seq<(PackageKey, PeerPkgInfo)>,
    local: Map<PackageKey, LocalPkgInfo>,
)
    ensures
        peer_disagreements(peer_id, a + b, local) == peer_disagreements(peer_id, a, local)
            + peer_disagreements(peer_id, b, local),
    decreases b.len(),
{
    let left = peer_disagreements(peer_id, a, local);
    let right = peer_disagreements(peer_id, b, local);
    if b.len() == 0 {
        assert(a + b =~= a);
        assert(left + right =~= left);
    } else {
        assert((a + b).drop_last() =~= a + b.drop_last());
        disagreements_on_both(peer_id, a, b.drop_last(), local);
        assert(peer_disagreements(peer_id, a + b, local) =~= left + right);
    }
}

/// Each package of a peer is compared by itself, in its place. There is a disagreement where the
/// package is known locally and one side calls good what the other calls bad; it names the peer,
/// the package, the peer's build, and the peer's status.
pub proof fn packages_are_compared_one_by_one(
    peer_id: i32,
    before: Seq<(PackageKey, PeerPkgInfo)>,
    key: PackageKey,
    info: PeerPkgInfo,
    after: Seq<(PackageKey, PeerPkgInfo)>,
    local: Map<PackageKey, LocalPkgInfo>,
)
    ensures
        ({
            let found = peer_disagreements(peer_id, before + seq![(key, info)] + after, local);
            let first = peer_disagreements(peer_id, before, local);
            let rest = peer_disagreements(peer_id, after, local);
            let good_there = info.status == BuildStatus::Good && local[key].status
                == BuildStatus::Bad;
            let bad_there = info.status == BuildStatus::Bad && local[key].status
                == BuildStatus::Good;
            if local.contains_key(key) && (good_there || bad_there) {
                let d = found[first.len() as int];
                &&& found == first + seq![d] + rest
                &&& d.peer_id == peer_id
                &&& d.key == key
                &&& d.peer_build_id == info.peer_build_id
                &&& good_there ==> d.peer_status == Some("GOOD"@)
                &&& bad_there ==> d.peer_status == Some("BAD"@)
            } else {
                found == first + rest
            }
        }),
        peer_disagreements(peer_id, Seq::empty(), local).len() == 0,
{
    let one = seq![(key, info)];
    disagreements_on_both(peer_id, before + one, after, local);
    disagreements_on_both(peer_id, before, one, local);
    reveal_with_fuel(peer_disagreements, 2);
    assert(one.drop_last() =~= Seq::<(PackageKey, PeerPkgInfo)>::empty());
    let found = peer_disagreements(peer_id, before + one + after, local);
    let first = peer_disagreements(peer_id, before, local);
    let own = peer_disagreements(peer_id, one, local);
    if own.len() > 0 {
        assert(own =~= seq![own[0]]);
        assert(found[first.len() as int] == own[0]);
    } else {
        assert(own =~= Seq::<Disagreement>::empty());
        assert(first + own =~= first);
    }
}

/// The findings on two lists of outcomes are those on both.
proof fn findings_of_both(
    a: Seq<FetchOutcomeView>,
    b: Seq<FetchOutcomeView>,
    local: Map<PackageKey, LocalPkgInfo>,
)
    ensures
        all_disagreements(a + b, local) == all_disagreements(a, local) + all_disagreements(
            b,
            local,
        ),
        compared_peers(a + b) == compared_peers(a) + compared_peers(b),
    decreases b.len(),
{
    let left = all_disagreements(a, local);
    let right = all_disagreements(b, local);
    if b.len() == 0 {
        assert(a + b =~= a);
        assert(left + right =~= left);
        assert(compared_peers(a) + compared_peers(b) =~= compared_peers(a));
    } else {
        assert((a + b).drop_last() =~= a + b.drop_last());
        findings_of_both(a, b.drop_last(), local);
        assert(all_disagreements(a + b, local) =~= left + right);
        assert(compared_peers(a + b) =~= compared_peers(a) + compared_peers(b));
    }
}

/// Each outcome is compared by itself, in its place: a peer that was fetched by all of its
/// packages; a failure or a lost task not at all.
pub proof fn outcomes_are_compared_one_by_one(
    before: Seq<FetchOutcomeView>,
    peer_id: i32,
    packages: Seq<(PackageKey, PeerPkgInfo)>,
    after: Seq<FetchOutcomeView>,
    local: Map<PackageKey, LocalPkgInfo>,
)
    ensures
        ({
            let fetched = before + seq![FetchOutcomeView::Fetched { peer_id, packages }] + after;
            &&& all_disagreements(fetched, local) == all_disagreements(before, local)
                + peer_disagreements(peer_id, packages, local) + all_disagreements(after, local)
            &&& compared_peers(fetched) == compared_peers(before) + seq![peer_id]
                + compared_peers(after)
        }),
        ({
            let failed = before + seq![FetchOutcomeView::Failed] + after;
            &&& all_disagreements(failed, local) == all_disagreements(before, local)
                + all_disagreements(after, local)
            &&& compared_peers(failed) == compared_peers(before) + compared_peers(after)
        }),
        ({
            let lost = before + seq![FetchOutcomeView::Lost] + after;
            &&& all_disagreements(lost, local) == all_disagreements(before, local)
                + all_disagreements(after, local)
            &&& compared_peers(lost) == compared_peers(before) + compared_peers(after)
        }),
        all_disagreements(Seq::empty(), local).len() == 0,
        compared_peers(Seq::empty()).len() == 0,
{
    one_finding(before, FetchOutcomeView::Fetched { peer_id, packages }, after, local);
    one_finding(before, FetchOutcomeView::Failed, after, local);
    one_finding(before, FetchOutcomeView::Lost, after, local);
    let left = all_disagreements(before, local);
    assert(left + Seq::<Disagreement>::empty() =~= left);
    assert(compared_peers(before) + Seq::<i32>::empty() =~= compared_peers(before));
}

proof fn one_finding(
    before: Seq<FetchOutcomeView>,
    outcome: FetchOutcomeView,
    after: Seq<FetchOutcomeView>,
    local: Map<PackageKey, LocalPkgInfo>,
)
    ensures
        all_disagreements(before + seq![outcome] + after, local) == all_disagreements(
            before,
            local,
        ) + (match outcome {
            FetchOutcomeView::Fetched { peer_id, packages } => peer_disagreements(
                peer_id,
                packages,
                local,
            ),
            _ => Seq::empty(),
        }) + all_disagreements(after, local),
        compared_peers(before + seq![outcome] + after) == compared_peers(before) + (
        match outcome {
            FetchOutcomeView::Fetched { peer_id, packages } => seq![peer_id],
            _ => Seq::empty(),
        }) + compared_peers(after),
{
    let one = seq![outcome];
    findings_of_both(before + one, after, local);
    findings_of_both(before, one, local);
    reveal_with_fuel(all_disagreements, 2);
    reveal_with_fuel(compared_peers, 2);
    assert(one.drop_last() =~= Seq::<FetchOutcomeView>::empty());
    match outcome {
        FetchOutcomeView::Fetched { peer_id, packages } => {
            let own = peer_disagreements(peer_id, packages, local);
            assert(Seq::<Disagreement>::empty() + own =~= own);
            assert(Seq::<i32>::empty().push(peer_id) =~= seq![peer_id]);
        },
        _ => {},
    }
}

/// What is to be cached of a disagreement is all of it.
pub proof fn disagreements_are_cached_whole(checks: Seq<UpsertPeerSha256CheckView>, i: int)
    requires
        0 <= i < checks.len(),
    ensures
        disagreements(checks).len() == checks.len(),
        disagreements(checks)[i].peer_id == checks[i].peer_rebuilder_id,
        disagreements(checks)[i].key == (checks[i].binary_name, checks[i].binary_version),
        disagreements(checks)[i].peer_build_id == checks[i].peer_build_id,
        disagreements(checks)[i].peer_status == checks[i].peer_status,
{
}

/// What is read from the clock is a point in time with whole seconds and the nanoseconds of that
/// second, for every check.
pub proof fn checks_have_the_time_of_a_clock(checks: Seq<UpsertPeerSha256CheckView>, i: int)
    requires
        read_from_clock(checks),
        0 <= i < checks.len(),
    ensures
        representable(checks[i].checked_at.0, checks[i].checked_at.1),
        0 <= checks[i].checked_at.1 < 1_000_000_000,
{
    assert(representable(checks[i].checked_at.0, checks[i].checked_at.1));
}

/// The rows of the cache after a cross-check: first those that were there and are not about a
/// compared peer, unchanged and in their order; then one for each disagreement that was found,
/// with all that it holds.
pub proof fn cache_is_refreshed_like_this(
    rows: Seq<PeerSha256CheckView>,
    compared: Seq<i32>,
    found: Seq<UpsertPeerSha256CheckView>,
    ids: Seq<i32>,
    i: int,
)
    requires
        0 <= i < found.len(),
    ensures
        ({
            let after = refreshed(rows, compared, found, ids);
            let kept = kept_rows(rows, compared);
            let row = after[kept.len() + i];
            &&& after.len() == kept.len() + found.len()
            &&& after.take(kept.len() as int) == kept
            &&& row == cached_row(found[i], ids[i])
            &&& row.id == ids[i]
            &&& row.peer_rebuilder_id == found[i].peer_rebuilder_id
            &&& row.binary_name == found[i].binary_name
            &&& row.binary_version == found[i].binary_version
            &&& row.peer_build_id == found[i].peer_build_id
            &&& row.checked_at == found[i].checked_at
            &&& row.peer_status == found[i].peer_status
        }),
{
    let kept = kept_rows(rows, compared);
    assert(refreshed(rows, compared, found, ids).take(kept.len() as int) =~= kept);
}

/// Each row of the cache is kept or not by itself: it goes where it is about a compared peer.
pub proof fn rows_are_kept_one_by_one(
    first: PeerSha256CheckView,
    rest: Seq<PeerSha256CheckView>,
    compared: Seq<i32>,
)
    ensures
        kept_rows(seq![first] + rest, compared) == (if exists|i: int|
            0 <= i < compared.len() && compared[i] == first.peer_rebuilder_id {
            Seq::<PeerSha256CheckView>::empty()
        } else {
            seq![first]
        }) + kept_rows(rest, compared),
        kept_rows(Seq::empty(), compared).len() == 0,
{
    let all = seq![first] + rest;
    assert(all.first() == first);
    assert(all.drop_first() =~= rest);
    assert(compared.contains(first.peer_rebuilder_id) <==> exists|i: int|
        0 <= i < compared.len() && compared[i] == first.peer_rebuilder_id);
    assert(Seq::<PeerSha256CheckView>::empty() + kept_rows(rest, compared) =~= kept_rows(
        rest,
        compared,
    ));
}

} // verus!
