//! What holds of the lookup of one package.

use super::api::{no_slash_at_end, packages_are_asked_for_like_this, parameter_is};
use super::text::{
    contained_parts_stand_in_between, run_of, surrounds, trimming_end_takes_a_run,
};
use crate::peers::api::{
    diffoscope_url, log_url, unknown_entry, v0_entry_of, v0_url, v1_entry_of, PackageRequestView,
    PeerBinaryPackageView, V0PkgReleaseView,
};
use crate::peers::lookup::{
    cached_check, cached_entries_of, cached_entry_of, live_entries_of, LiveOutcomeView,
    PeerPackageQueryView,
};
use crate::peers::registry::resolved_url;
use crate::peers::{PeerRebuilderView, PeerSha256CheckView, PeerStatusEntryView};
use crate::status::{parsed_status, BuildStatus};
use crate::text::trimmed_end;
use vstd::prelude::*;

verus! {

/// The peers of a query among two lists are those among both.
proof fn among_both(
    query: PeerPackageQueryView,
    a: Seq<PeerRebuilderView>,
    b: Seq<PeerRebuilderView>,
)
    ensures
        query.among(a + b) == query.among(a) + query.among(b),
    decreases b.len(),
{
    if b.len() == 0 {
        assert(a + b =~= a);
        assert(query.among(a) + query.among(b) =~= query.among(a));
    } else {
        assert((a + b).drop_last() =~= a + b.drop_last());
        among_both(query, a, b.drop_last());
        assert(query.among(a + b) =~= query.among(a) + query.among(b));
    }
}

/// Each registered peer is judged by itself, in its place: a lookup is about it where it has
/// the distribution and architecture of the query and, if the query has a part of a URL, that
/// part stands in its stored URL.
pub proof fn peers_are_chosen_one_by_one(
    query: PeerPackageQueryView,
    before: Seq<PeerRebuilderView>,
    peer: PeerRebuilderView,
    after: Seq<PeerRebuilderView>,
)
    ensures
        query.among(before + seq![peer] + after) == query.among(before) + (if peer.distribution
            == query.distribution && peer.architecture == query.architecture && (
        query.peer matches Some(part) ==> exists|a: Seq<char>, b: Seq<char>|
            surrounds(a, part, b, peer.url)) {
            seq![peer]
        } else {
            Seq::<PeerRebuilderView>::empty()
        }) + query.among(after),
        query.among(Seq::empty()).len() == 0,
{
    let one = seq![peer];
    among_both(query, before + one, after);
    among_both(query, before, one);
    reveal_with_fuel(PeerPackageQueryView::among, 2);
    assert(one.drop_last() =~= Seq::<PeerRebuilderView>::empty());
    if let Some(part) = query.peer {
        contained_parts_stand_in_between(peer.url, part);
    }
    assert(Seq::<PeerRebuilderView>::empty().push(peer) =~= one);
}

/// Every request of a lookup goes to the resolved URL of the peer, and carries the query's own
/// name, version and architecture under these names; one to a peer with version 0 of the API
/// its name and architecture.
pub proof fn requests_carry_what_is_looked_up(query: PeerPackageQueryView, peer: PeerRebuilderView)
    ensures
        ({
            let asked = query.live_request(peer);
            &&& asked.url == resolved_url(peer.url, query.architecture)
            &&& match asked.request {
                PackageRequestView::V0(request) => {
                    &&& v0_url(asked.url)
                    &&& request.url == trimmed_end(asked.url, '/') + "/pkgs/list"@
                    &&& parameter_is(request.query, "name"@, query.name)
                    &&& parameter_is(request.query, "architecture"@, query.architecture)
                    &&& request.query.len() == 2
                },
                PackageRequestView::V1(request) => {
                    &&& !v0_url(asked.url)
                    &&& request.url == trimmed_end(asked.url, '/') + "/packages/binary"@
                    &&& parameter_is(request.query, "name"@, query.name)
                    &&& parameter_is(request.query, "version"@, query.version)
                    &&& parameter_is(request.query, "architecture"@, query.architecture)
                    &&& parameter_is(request.query, "seen_only"@, "true"@)
                    &&& parameter_is(request.query, "limit"@, "1"@)
                    &&& request.query.len() == 5
                },
            }
        }),
{
    let url = query.live_request(peer).url;
    let base = trimmed_end(url, '/');
    trimming_end_takes_a_run(url, '/');
    assert(no_slash_at_end(base));
    assert(url == base + run_of('/', url.len() - base.len()));
    packages_are_asked_for_like_this(
        base,
        url.len() - base.len(),
        query.name,
        query.version,
        query.architecture,
    );
}

/// The entries of two lists of outcomes are those of both.
proof fn entries_of_both(a: Seq<LiveOutcomeView>, b: Seq<LiveOutcomeView>, version: Seq<char>)
    ensures
        live_entries_of(a + b, version) == live_entries_of(a, version) + live_entries_of(
            b,
            version,
        ),
    decreases b.len(),
{
    let left = live_entries_of(a, version);
    let right = live_entries_of(b, version);
    if b.len() == 0 {
        assert(a + b =~= a);
        assert(left + right =~= left);
    } else {
        assert((a + b).drop_last() =~= a + b.drop_last());
        entries_of_both(a, b.drop_last(), version);
        assert(live_entries_of(a + b, version) =~= left + right);
    }
}

/// Each outcome is shown by itself, in its place: an answer by what it says, a failure by the
/// URL of the peer alone, and a lost task not at all.
pub proof fn outcomes_are_shown_one_by_one(
    before: Seq<LiveOutcomeView>,
    after: Seq<LiveOutcomeView>,
    version: Seq<char>,
    url: Seq<char>,
    releases: Seq<V0PkgReleaseView>,
    records: Seq<PeerBinaryPackageView>,
)
    ensures
        live_entries_of(
            before + seq![LiveOutcomeView::V0 { url, releases }] + after,
            version,
        ) == live_entries_of(before, version) + seq![v0_entry_of(url, releases, version)]
            + live_entries_of(after, version),
        live_entries_of(before + seq![LiveOutcomeView::V1 { url, records }] + after, version)
            == live_entries_of(before, version) + seq![v1_entry_of(url, records)]
            + live_entries_of(after, version),
        live_entries_of(before + seq![LiveOutcomeView::Failed { url }] + after, version)
            == live_entries_of(before, version) + seq![unknown_entry(url)] + live_entries_of(
            after,
            version,
        ),
        live_entries_of(before + seq![LiveOutcomeView::Lost] + after, version)
            == live_entries_of(before, version) + live_entries_of(after, version),
        live_entries_of(Seq::empty(), version).len() == 0,
{
    one_outcome(before, LiveOutcomeView::V0 { url, releases }, after, version);
    one_outcome(before, LiveOutcomeView::V1 { url, records }, after, version);
    one_outcome(before, LiveOutcomeView::Failed { url }, after, version);
    one_outcome(before, LiveOutcomeView::Lost, after, version);
    let empty = Seq::<PeerStatusEntryView>::empty();
    assert(live_entries_of(before, version) + empty =~= live_entries_of(before, version));
    assert(empty.push(v0_entry_of(url, releases, version)) =~= seq![
        v0_entry_of(url, releases, version),
    ]);
    assert(empty.push(v1_entry_of(url, records)) =~= seq![v1_entry_of(url, records)]);
    assert(empty.push(unknown_entry(url)) =~= seq![unknown_entry(url)]);
}

proof fn one_outcome(
    before: Seq<LiveOutcomeView>,
    outcome: LiveOutcomeView,
    after: Seq<LiveOutcomeView>,
    version: Seq<char>,
)
    ensures
        live_entries_of(before + seq![outcome] + after, version) == live_entries_of(
            before,
            version,
        ) + (match crate::peers::lookup::live_entry(outcome, version) {
            Some(entry) => Seq::<PeerStatusEntryView>::empty().push(entry),
            None => Seq::<PeerStatusEntryView>::empty(),
        }) + live_entries_of(after, version),
{
    let one = seq![outcome];
    entries_of_both(before + one, after, version);
    entries_of_both(before, one, version);
    reveal_with_fuel(live_entries_of, 2);
    assert(one.drop_last() =~= Seq::<LiveOutcomeView>::empty());
}

/// What the cache says of a peer and package is the first row with the id of the peer and the
/// name and version of the package.
pub proof fn first_row_of_the_cache_counts(
    checks: Seq<PeerSha256CheckView>,
    peer_id: i32,
    name: Seq<char>,
    version: Seq<char>,
    i: int,
)
    requires
        0 <= i < checks.len(),
        checks[i].peer_rebuilder_id == peer_id,
        checks[i].binary_name == name,
        checks[i].binary_version == version,
        forall|j: int|
            0 <= j < i ==> (#[trigger] checks[j]).peer_rebuilder_id != peer_id
                || checks[j].binary_name != name || checks[j].binary_version != version,
    ensures
        cached_check(checks, peer_id, name, version) == Some(checks[i]),
    decreases checks.len(),
{
    if i > 0 {
        let rest = checks.drop_first();
        assert(!checks[0].is_about(peer_id, name, version));
        assert forall|j: int| 0 <= j < i - 1 implies (#[trigger] rest[j]).peer_rebuilder_id
            != peer_id || rest[j].binary_name != name || rest[j].binary_version != version by {
            assert(rest[j] == checks[j + 1]);
        }
        first_row_of_the_cache_counts(rest, peer_id, name, version, i - 1);
    }
}

/// The cache says nothing of a peer and package that no row is about.
pub proof fn cache_says_no_more(
    checks: Seq<PeerSha256CheckView>,
    peer_id: i32,
    name: Seq<char>,
    version: Seq<char>,
)
    requires
        forall|j: int|
            0 <= j < checks.len() ==> (#[trigger] checks[j]).peer_rebuilder_id != peer_id
                || checks[j].binary_name != name || checks[j].binary_version != version,
    ensures
        cached_check(checks, peer_id, name, version) is None,
    decreases checks.len(),
{
    if checks.len() > 0 {
        let rest = checks.drop_first();
        assert(!checks[0].is_about(peer_id, name, version));
        assert forall|j: int| 0 <= j < rest.len() implies (#[trigger] rest[j]).peer_rebuilder_id
            != peer_id || rest[j].binary_name != name || rest[j].binary_version != version by {
            assert(rest[j] == checks[j + 1]);
        }
        cache_says_no_more(rest, peer_id, name, version);
    }
}

/// A row of the cache is shown at the resolved URL of the peer: with the status that its text
/// gives, the build and its log, and, for a bad package, the diffoscope output of the build.
/// Without a row, the peer is shown by its URL alone.
pub proof fn rows_of_the_cache_are_shown(peer: PeerRebuilderView, check: PeerSha256CheckView)
    ensures
        ({
            let url = resolved_url(peer.url, peer.architecture);
            let entry = cached_entry_of(peer, Some(check));
            &&& entry.url == url
            &&& check.peer_status matches Some(text) ==> entry.status == parsed_status(text)
            &&& check.peer_status is None ==> entry.status is None
            &&& entry.build_id == check.peer_build_id
            &&& check.peer_build_id matches Some(build_id) ==> {
                &&& entry.log_url == Some(log_url(url, build_id))
                &&& entry.diffoscope_url is Some <==> entry.status == Some(BuildStatus::Bad)
                &&& entry.diffoscope_url matches Some(at) ==> at == diffoscope_url(url, build_id)
            }
            &&& check.peer_build_id is None ==> entry.log_url is None
                && entry.diffoscope_url is None
            &&& cached_entry_of(peer, None) == unknown_entry(url)
        }),
{
}

/// The cache gives one entry for each peer, in their order: what it says of that peer's id and
/// the package.
pub proof fn cache_is_shown_peer_by_peer(
    peers: Seq<PeerRebuilderView>,
    checks: Seq<PeerSha256CheckView>,
    name: Seq<char>,
    version: Seq<char>,
    i: int,
)
    requires
        0 <= i < peers.len(),
    ensures
        cached_entries_of(peers, checks, name, version).len() == peers.len(),
        cached_entries_of(peers, checks, name, version)[i] == cached_entry_of(
            peers[i],
            cached_check(checks, peers[i].id, name, version),
        ),
{
}

} // verus!
