//! What holds of the registered peers.

use super::text::{contained_parts_stand_in_between, surrounds};
use crate::peers::registry::{
    listed_peers, new_peer_key, peer_key, resolved_url, stale_ids, PeerListQueryView,
};
use crate::peers::{CheckPeersRequestView, NewPeerRebuilderView, PeerRebuilderView};
use crate::text::{contains_text, occurs_at};
use vstd::prelude::*;

verus! {

/// A request registers one peer for each of its URLs, in their order: for the distribution and
/// architecture of the request, with its release, or an empty one, and with its alias, or the
/// release where the alias is missing or empty.
pub proof fn each_url_is_registered(request: CheckPeersRequestView, i: int)
    requires
        0 <= i < request.urls.len(),
    ensures
        request.peers().len() == request.urls.len(),
        ({
            let peer = request.peers()[i];
            &&& peer.url == request.urls[i]
            &&& peer.distribution == request.distribution
            &&& peer.architecture == request.architecture
            &&& request.release matches Some(release) ==> peer.release == release
            &&& request.release is None ==> peer.release.len() == 0
            &&& request.release_alias is None ==> peer.release_alias == peer.release
            &&& request.release_alias matches Some(alias) ==> if alias.len() > 0 {
                peer.release_alias == alias
            } else {
                peer.release_alias == peer.release
            }
        }),
{
}

/// Peers are told apart by URL, distribution and architecture, and by nothing else.
pub proof fn peers_are_told_apart(
    a: PeerRebuilderView,
    b: PeerRebuilderView,
    new: NewPeerRebuilderView,
)
    ensures
        peer_key(a) == peer_key(b) <==> a.url == b.url && a.distribution == b.distribution
            && a.architecture == b.architecture,
        new_peer_key(new) == peer_key(a) <==> new.url == a.url && new.distribution
            == a.distribution && new.architecture == a.architecture,
        peer_key(a) == (a.url, a.distribution, a.architecture),
{
}

/// The stale peers of two lists are those of both.
proof fn stale_of_both(
    request: CheckPeersRequestView,
    a: Seq<PeerRebuilderView>,
    b: Seq<PeerRebuilderView>,
)
    ensures
        stale_ids(request, a + b) == stale_ids(request, a) + stale_ids(request, b),
    decreases b.len(),
{
    if b.len() == 0 {
        assert(a + b =~= a);
        assert(stale_ids(request, a) + stale_ids(request, b) =~= stale_ids(request, a));
    } else {
        assert((a + b).drop_last() =~= a + b.drop_last());
        stale_of_both(request, a, b.drop_last());
        assert(stale_ids(request, a + b) =~= stale_ids(request, a) + stale_ids(request, b));
    }
}

/// Each registered peer is judged by itself, in its place: it is stale where it has the
/// distribution and architecture of the request and none of its URLs.
pub proof fn peers_are_judged_one_by_one(
    request: CheckPeersRequestView,
    before: Seq<PeerRebuilderView>,
    peer: PeerRebuilderView,
    after: Seq<PeerRebuilderView>,
)
    ensures
        stale_ids(request, before + seq![peer] + after) == stale_ids(request, before) + (if
        peer.distribution == request.distribution && peer.architecture == request.architecture
            && !(exists|i: int| 0 <= i < request.urls.len() && request.urls[i] == peer.url) {
            seq![peer.id]
        } else {
            Seq::<i32>::empty()
        }) + stale_ids(request, after),
{
    stale_of_both(request, before + seq![peer], after);
    stale_of_both(request, before, seq![peer]);
    reveal_with_fuel(stale_ids, 2);
    assert(request.urls.contains(peer.url) <==> exists|i: int|
        0 <= i < request.urls.len() && request.urls[i] == peer.url);
    assert(Seq::<i32>::empty().push(peer.id) =~= seq![peer.id]);
    assert(seq![peer].drop_last() =~= Seq::<PeerRebuilderView>::empty());
}

/// The listed peers of two lists are those of both.
proof fn listed_of_both(
    query: PeerListQueryView,
    a: Seq<PeerRebuilderView>,
    b: Seq<PeerRebuilderView>,
)
    ensures
        listed_peers(query, a + b) == listed_peers(query, a) + listed_peers(query, b),
    decreases b.len(),
{
    if b.len() == 0 {
        assert(a + b =~= a);
        assert(listed_peers(query, a) + listed_peers(query, b) =~= listed_peers(query, a));
    } else {
        assert((a + b).drop_last() =~= a + b.drop_last());
        listed_of_both(query, a, b.drop_last());
        assert(listed_peers(query, a + b) =~= listed_peers(query, a) + listed_peers(query, b));
    }
}

/// Each registered peer is listed by itself, in its place, where it has the distribution and the
/// architecture that the query asks for, if it asks for one. It is shown with its id,
/// distribution, architecture and release, and with its URL resolved for its architecture.
pub proof fn peers_are_listed_one_by_one(
    query: PeerListQueryView,
    before: Seq<PeerRebuilderView>,
    peer: PeerRebuilderView,
    after: Seq<PeerRebuilderView>,
)
    ensures
        ({
            let listed = listed_peers(query, before + seq![peer] + after);
            let first = listed_peers(query, before);
            let rest = listed_peers(query, after);
            let fits_distribution = query.distribution matches Some(distribution)
                ==> peer.distribution == distribution;
            let fits_architecture = query.architecture matches Some(architecture)
                ==> peer.architecture == architecture;
            if fits_distribution && fits_architecture {
                let shown = listed[first.len() as int];
                &&& listed == first + seq![shown] + rest
                &&& shown.id == peer.id
                &&& shown.url == resolved_url(peer.url, peer.architecture)
                &&& shown.distribution == peer.distribution
                &&& shown.architecture == peer.architecture
                &&& shown.release == peer.release
            } else {
                listed == first + rest
            }
        }),
{
    let one = seq![peer];
    listed_of_both(query, before + one, after);
    listed_of_both(query, before, one);
    reveal_with_fuel(listed_peers, 2);
    assert(one.drop_last() =~= Seq::<PeerRebuilderView>::empty());
    let first = listed_peers(query, before);
    let rest = listed_peers(query, after);
    let listed = listed_peers(query, before + one + after);
    if query.admits(peer) {
        let shown = listed_peers(query, one)[0];
        assert(listed_peers(query, one) =~= seq![shown]);
        assert(listed[first.len() as int] == shown);
    } else {
        assert(first + listed_peers(query, one) =~= first);
    }
}

/// The architecture takes the place of the first text `{arch}` in a URL, and what follows is
/// resolved in the same way.
pub proof fn architecture_takes_the_place_of_the_template(
    before: Seq<char>,
    after: Seq<char>,
    architecture: Seq<char>,
)
    requires
        forall|a: Seq<char>, b: Seq<char>|
            #![trigger surrounds(a, "{arch}"@, b, before + "{arch}"@ + after)]
            surrounds(a, "{arch}"@, b, before + "{arch}"@ + after) ==> a.len() >= before.len(),
    ensures
        resolved_url(before + "{arch}"@ + after, architecture) == before + architecture
            + resolved_url(after, architecture),
{
    reveal_strlit("{arch}");
    let template = "{arch}"@;
    let url = before + template + after;
    assert forall|at: int| 0 <= at < before.len() implies !occurs_at(url, template, at) by {
        if occurs_at(url, template, at) {
            let a = url.take(at);
            let b = url.skip(at + template.len());
            assert(url =~= a + template + b) by {
                assert forall|i: int| 0 <= i < template.len() implies url[at + i]
                    == template[i] by {
                    assert(url.subrange(at, at + template.len())[i] == url[at + i]);
                }
            }
            assert(surrounds(a, template, b, url));
        }
    }
    super::text::replacing_the_first(before, template, after, architecture);
}

/// A URL in which the text `{arch}` does not stand is left alone.
pub proof fn other_urls_are_left_alone(url: Seq<char>, architecture: Seq<char>)
    requires
        !(exists|a: Seq<char>, b: Seq<char>| surrounds(a, "{arch}"@, b, url)),
    ensures
        resolved_url(url, architecture) == url,
{
    reveal_strlit("{arch}");
    contained_parts_stand_in_between(url, "{arch}"@);
    assert(!contains_text(url, "{arch}"@));
    assert forall|at: int| !occurs_at(url, "{arch}"@, at) by {}
    super::text::replacing_nothing(url, "{arch}"@, architecture);
}

} // verus!
