//! Which peer rebuilders are registered.

use super::{
    CheckPeersRequest, CheckPeersRequestView, NewPeerRebuilder, NewPeerRebuilderView,
    PeerRebuilder, PeerRebuilderView,
};
use crate::text::{contains_text, occurs_at, replace, replaced, text_of};
use crate::views;
use vstd::prelude::*;

verus! {

// ---------------------------------------------------------------------------
// POST /api/v1/peers/check
// ---------------------------------------------------------------------------

/// What tells registered peers apart: URL, distribution and architecture. There is one
/// row per peer and distribution and architecture, whatever its release is called.
pub type PeerKey = (Seq<char>, Seq<char>, Seq<char>);

impl CheckPeersRequestView {
    /// The local release, empty where there is none.
    pub open spec fn effective_release(self) -> Seq<char> {
        match self.release {
            Some(release) => release,
            None => Seq::empty(),
        }
    }

    /// What the peers call the release: the local name, unless they have one of their own.
    pub open spec fn effective_alias(self) -> Seq<char> {
        match self.release_alias {
            Some(alias) if alias.len() > 0 => alias,
            _ => self.effective_release(),
        }
    }

    /// The peer that the request registers for a URL.
    pub open spec fn peer_at(self, url: Seq<char>) -> NewPeerRebuilderView {
        NewPeerRebuilderView {
            url,
            distribution: self.distribution,
            architecture: self.architecture,
            release: self.effective_release(),
            release_alias: self.effective_alias(),
        }
    }

    /// The peers that the request registers, one for each URL.
    pub open spec fn peers(self) -> Seq<NewPeerRebuilderView> {
        self.urls.map_values(|url: Seq<char>| self.peer_at(url))
    }

    /// A peer of the request's distribution and architecture that the request does not name.
    pub open spec fn makes_stale(self, key: PeerKey) -> bool {
        &&& key.1 == self.distribution
        &&& key.2 == self.architecture
        &&& !self.urls.contains(key.0)
    }

    /// The rows of the registered peers once the request's peers have been put in, a new row
    /// of the peer for the n-th URL under the n-th id, and the stale ones taken out.
    pub open spec fn applied_to(self, rows: Seq<PeerRebuilderView>, ids: Seq<i32>) -> Seq<
        PeerRebuilderView,
    > {
        current_rows(self, with_peers(rows, self.peers(), ids))
    }
}

/// The key of a peer to be registered.
pub open spec fn new_peer_key(peer: NewPeerRebuilderView) -> PeerKey {
    (peer.url, peer.distribution, peer.architecture)
}

/// The key of a registered peer.
pub open spec fn peer_key(peer: PeerRebuilderView) -> PeerKey {
    (peer.url, peer.distribution, peer.architecture)
}

/// The row of a registered peer, brought up to date: its release and alias are the new ones,
/// and its id stays.
pub open spec fn updated_row(
    row: PeerRebuilderView,
    peer: NewPeerRebuilderView,
) -> PeerRebuilderView {
    PeerRebuilderView { release: peer.release, release_alias: peer.release_alias, ..row }
}

/// A row of its own for a peer, under the given id.
pub open spec fn inserted_row(peer: NewPeerRebuilderView, id: i32) -> PeerRebuilderView {
    PeerRebuilderView {
        id,
        url: peer.url,
        distribution: peer.distribution,
        architecture: peer.architecture,
        release: peer.release,
        release_alias: peer.release_alias,
    }
}

/// The rows with a peer put in: the row with its key is brought up to date; without such a row
/// it gets its own, under the given id.
pub open spec fn upserted_into(
    peer: NewPeerRebuilderView,
    rows: Seq<PeerRebuilderView>,
    id: i32,
) -> Seq<PeerRebuilderView>
    decreases rows.len(),
{
    if rows.len() == 0 {
        seq![inserted_row(peer, id)]
    } else if peer_key(rows.first()) == new_peer_key(peer) {
        seq![updated_row(rows.first(), peer)] + rows.drop_first()
    } else {
        seq![rows.first()] + upserted_into(peer, rows.drop_first(), id)
    }
}

/// The rows once `peers` have been put in one by one, each under its id where it is new.
pub open spec fn with_peers(
    rows: Seq<PeerRebuilderView>,
    peers: Seq<NewPeerRebuilderView>,
    ids: Seq<i32>,
) -> Seq<PeerRebuilderView>
    decreases peers.len(),
{
    if peers.len() == 0 {
        rows
    } else {
        upserted_into(
            peers.last(),
            with_peers(rows, peers.drop_last(), ids),
            ids[peers.len() - 1],
        )
    }
}

/// The rows that a request does not make stale.
pub open spec fn current_rows(
    request: CheckPeersRequestView,
    rows: Seq<PeerRebuilderView>,
) -> Seq<PeerRebuilderView>
    decreases rows.len(),
{
    if rows.len() == 0 {
        Seq::empty()
    } else {
        let rest = current_rows(request, rows.drop_first());
        if request.makes_stale(peer_key(rows.first())) {
            rest
        } else {
            seq![rows.first()] + rest
        }
    }
}

/// The row with a key.
pub open spec fn row_with(rows: Seq<PeerRebuilderView>, key: PeerKey) -> Option<PeerRebuilderView>
    decreases rows.len(),
{
    if rows.len() == 0 {
        None
    } else if peer_key(rows.first()) == key {
        Some(rows.first())
    } else {
        row_with(rows.drop_first(), key)
    }
}

/// The keys of rows.
pub open spec fn keys_of(rows: Seq<PeerRebuilderView>) -> Seq<PeerKey> {
    rows.map_values(|row: PeerRebuilderView| peer_key(row))
}

/// What comes of a request to check peers.
pub enum CheckPeers {
    /// Only an administrator may ask for it.
    Forbidden,
    /// The peers to be put in; each replaces the release and alias of the registered peer
    /// with its URL, distribution and architecture. After that the stale peers go, and the
    /// cross-check starts.
    Register(Vec<NewPeerRebuilder>),
}

/// Decides on a request to check peers.
pub fn check_peers(admin: bool, request: &CheckPeersRequest) -> (r: CheckPeers)
    ensures
        r is Forbidden <==> !admin,
        r matches CheckPeers::Register(peers) ==> views(peers@) == request@.peers(),
{
    if !admin {
        return CheckPeers::Forbidden;
    }
    let release = match &request.release {
        Some(release) => release.clone(),
        None => String::new(),
    };
    let alias = match &request.release_alias {
        Some(alias) => if alias.as_str().is_empty() {
            release.clone()
        } else {
            alias.clone()
        },
        None => release.clone(),
    };
    let mut peers: Vec<NewPeerRebuilder> = Vec::new();
    let mut i: usize = 0;
    while i < request.urls.len()
        invariant
            i <= request.urls@.len(),
            release@ == request@.effective_release(),
            alias@ == request@.effective_alias(),
            views(peers@) == request@.peers().take(i as int),
        decreases request.urls@.len() - i,
    {
        let ghost was = peers@;
        peers.push(
            NewPeerRebuilder {
                url: request.urls[i].clone(),
                distribution: request.distribution.clone(),
                architecture: request.architecture.clone(),
                release: release.clone(),
                release_alias: alias.clone(),
            },
        );
        proof {
            assert(views(peers@) =~= views(was).push(peers@.last()@));
            assert(request@.peers().take(i + 1) =~= request@.peers().take(i as int).push(
                request@.peers()[i as int],
            ));
        }
        i += 1;
    }
    proof {
        assert(request@.peers().take(i as int) =~= request@.peers());
    }
    CheckPeers::Register(peers)
}

/// The ids of the peers that a request makes stale, in their order.
pub open spec fn stale_ids(
    request: CheckPeersRequestView,
    peers: Seq<PeerRebuilderView>,
) -> Seq<i32>
    decreases peers.len(),
{
    if peers.len() == 0 {
        Seq::empty()
    } else {
        let before = stale_ids(request, peers.drop_last());
        if request.makes_stale(peer_key(peers.last())) {
            before.push(peers.last().id)
        } else {
            before
        }
    }
}

/// Whether a URL is among those of a request.
fn names_url(request: &CheckPeersRequest, url: &String) -> (r: bool)
    ensures
        r == request@.urls.contains(url@),
{
    let mut i: usize = 0;
    while i < request.urls.len()
        invariant
            i <= request.urls@.len(),
            forall|j: int| 0 <= j < i ==> #[trigger] request@.urls[j] != url@,
        decreases request.urls@.len() - i,
    {
        if request.urls[i] == *url {
            proof {
                assert(request@.urls[i as int] == url@);
            }
            return true;
        }
        i += 1;
    }
    false
}

/// The registered peers that a request makes stale: those of its distribution and
/// architecture that it does not name.
pub fn stale_peers(request: &CheckPeersRequest, peers: &Vec<PeerRebuilder>) -> (r: Vec<i32>)
    ensures
        r@ == stale_ids(request@, views(peers@)),
{
    let mut stale: Vec<i32> = Vec::new();
    let mut i: usize = 0;
    proof {
        assert(views(peers@).take(0) =~= Seq::<PeerRebuilderView>::empty());
    }
    while i < peers.len()
        invariant
            i <= peers@.len(),
            stale@ == stale_ids(request@, views(peers@).take(i as int)),
        decreases peers@.len() - i,
    {
        let peer = &peers[i];
        proof {
            assert(views(peers@).take(i + 1).drop_last() =~= views(peers@).take(i as int));
        }
        if peer.distribution == request.distribution && peer.architecture == request.architecture
            && !names_url(request, &peer.url) {
            stale.push(peer.id);
        }
        i += 1;
    }
    proof {
        assert(views(peers@).take(i as int) =~= views(peers@));
    }
    stale
}

/// A row before others.
proof fn row_before(first: PeerRebuilderView, rest: Seq<PeerRebuilderView>)
    ensures
        (seq![first] + rest).first() == first,
        (seq![first] + rest).drop_first() == rest,
{
    assert((seq![first] + rest).drop_first() =~= rest);
}

/// A peer that is put in has its row, and no other row changes.
proof fn upsert_says(
    peer: NewPeerRebuilderView,
    rows: Seq<PeerRebuilderView>,
    id: i32,
    key: PeerKey,
)
    ensures
        row_with(upserted_into(peer, rows, id), key) == if key == new_peer_key(peer) {
            match row_with(rows, key) {
                Some(row) => Some(updated_row(row, peer)),
                None => Some(inserted_row(peer, id)),
            }
        } else {
            row_with(rows, key)
        },
    decreases rows.len(),
{
    if rows.len() == 0 {
        reveal_with_fuel(row_with, 2);
    } else {
        let rest = rows.drop_first();
        if peer_key(rows.first()) == new_peer_key(peer) {
            row_before(updated_row(rows.first(), peer), rest);
        } else {
            upsert_says(peer, rest, id, key);
            row_before(rows.first(), upserted_into(peer, rest, id));
        }
    }
}

/// To put in a peer whose row is up to date changes nothing.
proof fn upsert_of_current_row(peer: NewPeerRebuilderView, rows: Seq<PeerRebuilderView>, id: i32)
    requires
        row_with(rows, new_peer_key(peer)) matches Some(row) && updated_row(row, peer) == row,
    ensures
        upserted_into(peer, rows, id) == rows,
    decreases rows.len(),
{
    assert(rows =~= seq![rows.first()] + rows.drop_first());
    if peer_key(rows.first()) != new_peer_key(peer) {
        upsert_of_current_row(peer, rows.drop_first(), id);
    }
}

/// A peer that is put in has one key, among the others or behind them.
proof fn upsert_keeps_keys(peer: NewPeerRebuilderView, rows: Seq<PeerRebuilderView>, id: i32)
    ensures
        keys_of(upserted_into(peer, rows, id)) == if keys_of(rows).contains(new_peer_key(peer)) {
            keys_of(rows)
        } else {
            keys_of(rows).push(new_peer_key(peer))
        },
    decreases rows.len(),
{
    let key = new_peer_key(peer);
    let after = upserted_into(peer, rows, id);
    if rows.len() == 0 {
        assert(keys_of(after) =~= keys_of(rows).push(key));
    } else {
        let rest = rows.drop_first();
        assert(keys_of(rows) =~= seq![peer_key(rows.first())] + keys_of(rest));
        if peer_key(rows.first()) == key {
            assert(keys_of(rows)[0] == key);
            assert(keys_of(after) =~= keys_of(rows));
        } else {
            upsert_keeps_keys(peer, rest, id);
            assert(keys_of(after) =~= seq![peer_key(rows.first())] + keys_of(
                upserted_into(peer, rest, id),
            ));
            if keys_of(rest).contains(key) {
                let i = choose|i: int| 0 <= i < keys_of(rest).len() && keys_of(rest)[i] == key;
                assert(keys_of(rows)[i + 1] == key);
                assert(keys_of(after) =~= keys_of(rows));
            } else {
                if keys_of(rows).contains(key) {
                    let i = choose|i: int|
                        0 <= i < keys_of(rows).len() && keys_of(rows)[i] == key;
                    assert(keys_of(rest)[i - 1] == key);
                }
                assert(keys_of(after) =~= keys_of(rows).push(key));
            }
        }
    }
}

/// The rows that are not stale say what all rows say, but of stale keys.
proof fn current_rows_say(
    request: CheckPeersRequestView,
    rows: Seq<PeerRebuilderView>,
    key: PeerKey,
)
    ensures
        row_with(current_rows(request, rows), key) == if request.makes_stale(key) {
            None
        } else {
            row_with(rows, key)
        },
    decreases rows.len(),
{
    if rows.len() > 0 {
        let rest = rows.drop_first();
        current_rows_say(request, rest, key);
        row_before(rows.first(), current_rows(request, rest));
    }
}

/// Of the rows that are not stale none is stale, and their keys are keys of the rows.
proof fn current_rows_stay(request: CheckPeersRequestView, rows: Seq<PeerRebuilderView>)
    ensures
        current_rows(request, current_rows(request, rows)) == current_rows(request, rows),
        forall|key: PeerKey| #[trigger]
            keys_of(current_rows(request, rows)).contains(key) ==> keys_of(rows).contains(key),
        keys_of(rows).no_duplicates() ==> keys_of(current_rows(request, rows)).no_duplicates(),
    decreases rows.len(),
{
    if rows.len() > 0 {
        let rest = rows.drop_first();
        let kept = current_rows(request, rest);
        let all = current_rows(request, rows);
        let first = peer_key(rows.first());
        current_rows_stay(request, rest);
        row_before(rows.first(), kept);
        assert(keys_of(rows) =~= seq![first] + keys_of(rest));
        assert forall|key: PeerKey| #[trigger] keys_of(rest).contains(key) implies keys_of(
            rows,
        ).contains(key) by {
            let i = choose|i: int| 0 <= i < keys_of(rest).len() && keys_of(rest)[i] == key;
            assert(keys_of(rows)[i + 1] == key);
        }
        assert(keys_of(rows)[0] == first);
        if keys_of(rows).no_duplicates() {
            assert forall|i: int, j: int|
                0 <= i < keys_of(rest).len() && 0 <= j < keys_of(rest).len() && i
                    != j implies keys_of(rest)[i] != keys_of(rest)[j] by {
                assert(keys_of(rows)[i + 1] != keys_of(rows)[j + 1]);
            }
            assert forall|i: int| 0 <= i < keys_of(rest).len() implies #[trigger] keys_of(rest)[i]
                != first by {
                assert(keys_of(rows)[i + 1] != keys_of(rows)[0]);
            }
        }
        if !request.makes_stale(first) {
            assert(keys_of(all) =~= seq![first] + keys_of(kept));
            assert forall|key: PeerKey| #[trigger] keys_of(all).contains(key) implies keys_of(
                rows,
            ).contains(key) by {
                let i = choose|i: int| 0 <= i < keys_of(all).len() && keys_of(all)[i] == key;
                if i > 0 {
                    assert(keys_of(kept)[i - 1] == key);
                    assert(keys_of(kept).contains(key));
                }
            }
            if keys_of(rows).no_duplicates() {
                assert(!keys_of(kept).contains(first)) by {
                    if keys_of(kept).contains(first) {
                        assert(keys_of(rest).contains(first));
                    }
                }
                assert forall|i: int, j: int|
                    0 <= i < j < keys_of(all).len() implies keys_of(all)[i] != keys_of(all)[j] by {
                    assert(keys_of(all)[j] == keys_of(kept)[j - 1]);
                    assert(keys_of(kept).contains(keys_of(kept)[j - 1]));
                    if i > 0 {
                        assert(keys_of(all)[i] == keys_of(kept)[i - 1]);
                    }
                }
            }
        }
    }
}

/// A key is that of one of the first `n` peers of a request.
spec fn among_first(request: CheckPeersRequestView, n: int, key: PeerKey) -> bool {
    &&& key.1 == request.distribution
    &&& key.2 == request.architecture
    &&& request.urls.take(n).contains(key.0)
}

/// After the first `n` peers of a request have been put in, they have rows with the request's
/// release and alias, under the ids that they had; no other row has changed.
proof fn peers_put_in(
    rows: Seq<PeerRebuilderView>,
    request: CheckPeersRequestView,
    ids: Seq<i32>,
    n: int,
    key: PeerKey,
)
    requires
        0 <= n <= request.urls.len(),
    ensures
        ({
            let after = row_with(with_peers(rows, request.peers().take(n), ids), key);
            if among_first(request, n, key) {
                &&& after is Some
                &&& updated_row(after->0, request.peer_at(key.0)) == after->0
                &&& row_with(rows, key) matches Some(row) ==> after->0 == updated_row(
                    row,
                    request.peer_at(key.0),
                )
            } else {
                after == row_with(rows, key)
            }
        }),
    decreases n,
{
    let peers = request.peers();
    if n == 0 {
        assert(peers.take(0).len() == 0);
    } else {
        peers_put_in(rows, request, ids, n - 1, key);
        assert(peers.take(n).drop_last() =~= peers.take(n - 1));
        let url = request.urls[n - 1];
        assert(peers.take(n).last() == request.peer_at(url));
        upsert_says(
            request.peer_at(url),
            with_peers(rows, peers.take(n - 1), ids),
            ids[n - 1],
            key,
        );
        let before = request.urls.take(n - 1);
        let through = request.urls.take(n);
        if before.contains(key.0) {
            let j = choose|j: int| 0 <= j < before.len() && before[j] == key.0;
            assert(through[j] == key.0);
        }
        if key.0 == url {
            assert(through[n - 1] == url);
        }
        if through.contains(key.0) {
            let j = choose|j: int| 0 <= j < through.len() && through[j] == key.0;
            if j < n - 1 {
                assert(before[j] == key.0);
            }
        }
    }
}

/// After a request, the peers of its distribution and architecture are exactly those that it
/// names, each with its release and alias. One that was registered before keeps its row, id
/// included. The other peers are as they were.
pub proof fn check_registers_named_peers(
    rows: Seq<PeerRebuilderView>,
    request: CheckPeersRequestView,
    ids: Seq<i32>,
    key: PeerKey,
)
    ensures
        ({
            let after = row_with(request.applied_to(rows, ids), key);
            if key.1 == request.distribution && key.2 == request.architecture {
                &&& after is Some <==> request.urls.contains(key.0)
                &&& after matches Some(row) ==> row.release == request.effective_release()
                    && row.release_alias == request.effective_alias()
                &&& after is Some && row_with(rows, key) is Some ==> after->0 == updated_row(
                    row_with(rows, key)->0,
                    request.peer_at(key.0),
                ) && after->0.id == row_with(rows, key)->0.id
            } else {
                after == row_with(rows, key)
            }
        }),
{
    let n = request.urls.len() as int;
    peers_put_in(rows, request, ids, n, key);
    assert(request.peers().take(n) =~= request.peers());
    assert(request.urls.take(n) =~= request.urls);
    current_rows_say(request, with_peers(rows, request.peers(), ids), key);
}

/// No peer has two rows, not even one whose URL a request names twice.
pub proof fn peers_have_one_row_each(
    rows: Seq<PeerRebuilderView>,
    request: CheckPeersRequestView,
    ids: Seq<i32>,
)
    requires
        keys_of(rows).no_duplicates(),
    ensures
        keys_of(request.applied_to(rows, ids)).no_duplicates(),
{
    let n = request.urls.len() as int;
    assert(request.peers().take(n) =~= request.peers());
    one_row_each_with(rows, request, ids, n);
    current_rows_stay(request, with_peers(rows, request.peers(), ids));
}

/// Peers that are put in have one row each.
proof fn one_row_each_with(
    rows: Seq<PeerRebuilderView>,
    request: CheckPeersRequestView,
    ids: Seq<i32>,
    n: int,
)
    requires
        keys_of(rows).no_duplicates(),
        0 <= n <= request.urls.len(),
    ensures
        keys_of(with_peers(rows, request.peers().take(n), ids)).no_duplicates(),
    decreases n,
{
    let peers = request.peers();
    if n == 0 {
        assert(peers.take(0).len() == 0);
    } else {
        one_row_each_with(rows, request, ids, n - 1);
        assert(peers.take(n).drop_last() =~= peers.take(n - 1));
        upsert_keeps_keys(
            peers.take(n).last(),
            with_peers(rows, peers.take(n - 1), ids),
            ids[n - 1],
        );
    }
}

/// To put in peers whose rows are up to date changes nothing.
proof fn current_peers_put_in(
    rows: Seq<PeerRebuilderView>,
    request: CheckPeersRequestView,
    ids: Seq<i32>,
    n: int,
)
    requires
        0 <= n <= request.urls.len(),
        forall|i: int|
            0 <= i < request.urls.len() ==> ({
                let peer = request.peer_at(#[trigger] request.urls[i]);
                row_with(rows, new_peer_key(peer)) matches Some(row) && updated_row(row, peer)
                    == row
            }),
    ensures
        with_peers(rows, request.peers().take(n), ids) == rows,
    decreases n,
{
    let peers = request.peers();
    if n == 0 {
        assert(peers.take(0).len() == 0);
    } else {
        current_peers_put_in(rows, request, ids, n - 1);
        assert(peers.take(n).drop_last() =~= peers.take(n - 1));
        assert(peers.take(n).last() == request.peer_at(request.urls[n - 1]));
        upsert_of_current_row(peers.take(n).last(), rows, ids[n - 1]);
    }
}

/// To repeat a request changes no row: every peer keeps its id, its release and its alias.
pub proof fn repeated_check_changes_nothing(
    rows: Seq<PeerRebuilderView>,
    request: CheckPeersRequestView,
    ids: Seq<i32>,
    new_ids: Seq<i32>,
)
    ensures
        request.applied_to(request.applied_to(rows, ids), new_ids) == request.applied_to(
            rows,
            ids,
        ),
{
    let n = request.urls.len() as int;
    let once = request.applied_to(rows, ids);
    assert(request.peers().take(n) =~= request.peers());
    assert(request.urls.take(n) =~= request.urls);
    assert forall|i: int| 0 <= i < request.urls.len() implies ({
        let peer = request.peer_at(#[trigger] request.urls[i]);
        row_with(once, new_peer_key(peer)) matches Some(row) && updated_row(row, peer) == row
    }) by {
        let key = new_peer_key(request.peer_at(request.urls[i]));
        assert(request.urls.contains(request.urls[i]));
        peers_put_in(rows, request, ids, n, key);
        current_rows_say(request, with_peers(rows, request.peers(), ids), key);
    }
    current_peers_put_in(once, request, new_ids, n);
    current_rows_stay(request, with_peers(rows, request.peers(), ids));
}

/// The release and alias of an optional row.
pub open spec fn release_of(row: Option<PeerRebuilderView>) -> Option<(Seq<char>, Seq<char>)> {
    match row {
        Some(row) => Some((row.release, row.release_alias)),
        None => None,
    }
}

/// A later request for the same distribution and architecture takes effect as if the earlier
/// one had not been made: corrected aliases win, and URLs that are no longer named go.
pub proof fn last_check_counts(
    rows: Seq<PeerRebuilderView>,
    earlier: CheckPeersRequestView,
    later: CheckPeersRequestView,
    ids: Seq<i32>,
    later_ids: Seq<i32>,
    key: PeerKey,
)
    requires
        earlier.distribution == later.distribution,
        earlier.architecture == later.architecture,
    ensures
        release_of(row_with(later.applied_to(earlier.applied_to(rows, ids), later_ids), key))
            == release_of(row_with(later.applied_to(rows, later_ids), key)),
{
    check_registers_named_peers(rows, earlier, ids, key);
    check_registers_named_peers(rows, later, later_ids, key);
    check_registers_named_peers(earlier.applied_to(rows, ids), later, later_ids, key);
}

/// The rows without those of the given ids.
pub open spec fn rows_without(rows: Seq<PeerRebuilderView>, ids: Seq<i32>) -> Seq<
    PeerRebuilderView,
>
    decreases rows.len(),
{
    if rows.len() == 0 {
        Seq::empty()
    } else {
        let rest = rows_without(rows.drop_first(), ids);
        if ids.contains(rows.first().id) {
            rest
        } else {
            seq![rows.first()] + rest
        }
    }
}

/// To take out the stale peers by their ids leaves the rows that are not stale.
pub proof fn stale_peers_go(request: CheckPeersRequestView, rows: Seq<PeerRebuilderView>)
    requires
        forall|i: int, j: int|
            0 <= i < j < rows.len() ==> (#[trigger] rows[i]).id != (#[trigger] rows[j]).id,
    ensures
        rows_without(rows, stale_ids(request, rows)) == current_rows(request, rows),
{
    let stale = stale_ids(request, rows);
    assert forall|i: int| 0 <= i < rows.len() implies (stale.contains((#[trigger] rows[i]).id)
        <==> request.makes_stale(peer_key(rows[i]))) by {
        stale_peers_are_not_named(request, rows, rows[i].id);
    }
    stale_rows_go(request, rows, stale);
}

/// To take out rows by ids that are those of the stale ones leaves the rows that are not stale.
proof fn stale_rows_go(
    request: CheckPeersRequestView,
    rows: Seq<PeerRebuilderView>,
    stale: Seq<i32>,
)
    requires
        forall|i: int|
            0 <= i < rows.len() ==> (stale.contains((#[trigger] rows[i]).id)
                <==> request.makes_stale(peer_key(rows[i]))),
    ensures
        rows_without(rows, stale) == current_rows(request, rows),
    decreases rows.len(),
{
    if rows.len() > 0 {
        let rest = rows.drop_first();
        assert(rows[0] == rows.first());
        assert forall|i: int| 0 <= i < rest.len() implies (stale.contains((#[trigger] rest[i]).id)
            <==> request.makes_stale(peer_key(rest[i]))) by {
            assert(rest[i] == rows[i + 1]);
        }
        stale_rows_go(request, rest, stale);
    }
}

/// The stale peers are those of the request's distribution and architecture that it does not
/// name, and no others.
pub proof fn stale_peers_are_not_named(
    request: CheckPeersRequestView,
    peers: Seq<PeerRebuilderView>,
    id: i32,
)
    ensures
        stale_ids(request, peers).contains(id) <==> exists|i: int|
            0 <= i < peers.len() && (#[trigger] peers[i]).id == id && request.makes_stale(
                peer_key(peers[i]),
            ),
    decreases peers.len(),
{
    if peers.len() > 0 {
        let rest = peers.drop_last();
        let before = stale_ids(request, rest);
        let all = stale_ids(request, peers);
        let n = peers.len() - 1;
        stale_peers_are_not_named(request, rest, id);
        assert(forall|i: int| 0 <= i < rest.len() ==> #[trigger] rest[i] == peers[i]);
        if all.contains(id) {
            let k = choose|k: int| 0 <= k < all.len() && all[k] == id;
            if k < before.len() {
                assert(before[k] == id);
                let i = choose|i: int|
                    0 <= i < rest.len() && (#[trigger] rest[i]).id == id && request.makes_stale(
                        peer_key(rest[i]),
                    );
                assert(peers[i].id == id);
            } else {
                assert(peers[n].id == id);
            }
        }
        if exists|i: int|
            0 <= i < peers.len() && (#[trigger] peers[i]).id == id && request.makes_stale(
                peer_key(peers[i]),
            ) {
            let i = choose|i: int|
                0 <= i < peers.len() && (#[trigger] peers[i]).id == id && request.makes_stale(
                    peer_key(peers[i]),
                );
            if i < n {
                assert(rest[i].id == id);
                let k = choose|k: int| 0 <= k < before.len() && before[k] == id;
                assert(all[k] == id);
            } else {
                assert(all[all.len() - 1] == id);
            }
        }
    }
}

/// An empty alias is as good as none: the peers call the release what it is called locally.
pub proof fn empty_alias_is_none(request: CheckPeersRequestView)
    requires
        request.release_alias matches Some(alias) ==> alias.len() == 0,
    ensures
        request.effective_alias() == request.effective_release(),
        request.peers() == (CheckPeersRequestView { release_alias: None, ..request }).peers(),
{
    let without = CheckPeersRequestView { release_alias: None, ..request };
    assert(request.peers() =~= without.peers());
}

// ---------------------------------------------------------------------------
// GET /api/v1/peers
// ---------------------------------------------------------------------------

/// Which peers to list.
#[derive(Debug)]
pub struct PeerListQuery {
    pub distribution: Option<String>,
    pub architecture: Option<String>,
}

#[verifier::ext_equal]
pub struct PeerListQueryView {
    pub distribution: Option<Seq<char>>,
    pub architecture: Option<Seq<char>>,
}

impl View for PeerListQuery {
    type V = PeerListQueryView;

    open spec fn view(&self) -> PeerListQueryView {
        PeerListQueryView {
            distribution: text_of(self.distribution),
            architecture: text_of(self.architecture),
        }
    }
}

/// A registered peer as the API shows it.
#[derive(Debug)]
pub struct PeerInfo {
    pub id: i32,
    pub url: String,
    pub distribution: String,
    pub architecture: String,
    pub release: String,
}

#[verifier::ext_equal]
pub struct PeerInfoView {
    pub id: i32,
    pub url: Seq<char>,
    pub distribution: Seq<char>,
    pub architecture: Seq<char>,
    pub release: Seq<char>,
}

impl View for PeerInfo {
    type V = PeerInfoView;

    open spec fn view(&self) -> PeerInfoView {
        PeerInfoView {
            id: self.id,
            url: self.url@,
            distribution: self.distribution@,
            architecture: self.architecture@,
            release: self.release@,
        }
    }
}

/// A peer's URL with the architecture in place of the template `{arch}`.
pub open spec fn resolved_url(url: Seq<char>, architecture: Seq<char>) -> Seq<char> {
    replaced(url, "{arch}"@, architecture)
}

/// A peer's URL with the architecture in place of the template `{arch}`.
pub fn resolve_url(url: &str, architecture: &str) -> (r: String)
    ensures
        r@ == resolved_url(url@, architecture@),
{
    proof {
        reveal_strlit("{arch}");
    }
    replace(url, "{arch}", architecture)
}

/// A URL without the template is its own resolution, whatever the architecture.
pub proof fn url_without_template_stays(url: Seq<char>, architecture: Seq<char>)
    requires
        !contains_text(url, "{arch}"@),
    ensures
        resolved_url(url, architecture) == url,
    decreases url.len(),
{
    let template = "{arch}"@;
    if url.len() > 0 && template.len() > 0 {
        assert(!occurs_at(url, template, 0));
        let rest = url.drop_first();
        assert forall|at: int| !occurs_at(rest, template, at) by {
            if occurs_at(rest, template, at) {
                assert(url.subrange(at + 1, at + 1 + template.len()) =~= rest.subrange(
                    at,
                    at + template.len(),
                ));
                assert(occurs_at(url, template, at + 1));
            }
        }
        url_without_template_stays(rest, architecture);
        assert(seq![url.first()] + rest =~= url);
    }
}

/// The architecture takes the place of the first template in a URL, and what follows is
/// resolved in the same way.
pub proof fn template_gives_way(before: Seq<char>, after: Seq<char>, architecture: Seq<char>)
    requires
        forall|at: int|
            0 <= at < before.len() ==> !occurs_at(before + "{arch}"@ + after, "{arch}"@, at),
    ensures
        resolved_url(before + "{arch}"@ + after, architecture) == before + architecture
            + resolved_url(after, architecture),
    decreases before.len(),
{
    reveal_strlit("{arch}");
    let template = "{arch}"@;
    let url = before + template + after;
    if before.len() == 0 {
        assert(url.subrange(0, template.len() as int) =~= template);
        assert(url.skip(template.len() as int) =~= after);
        assert(before + architecture =~= architecture);
    } else {
        let shorter = before.drop_first();
        let rest = shorter + template + after;
        assert(url.drop_first() =~= rest);
        assert forall|at: int| 0 <= at < shorter.len() implies !occurs_at(
            rest,
            template,
            at,
        ) by {
            if occurs_at(rest, template, at) {
                assert(url.subrange(at + 1, at + 1 + template.len()) =~= rest.subrange(
                    at,
                    at + template.len(),
                ));
                assert(occurs_at(url, template, at + 1));
            }
        }
        template_gives_way(shorter, after, architecture);
        assert(!occurs_at(url, template, 0));
        assert(url.first() == before.first());
        assert(seq![before.first()] + (shorter + architecture + resolved_url(after, architecture))
            =~= before + architecture + resolved_url(after, architecture));
    }
}

impl PeerListQueryView {
    /// The query asks for this peer.
    pub open spec fn admits(self, peer: PeerRebuilderView) -> bool {
        &&& self.distribution is None || self.distribution == Some(peer.distribution)
        &&& self.architecture is None || self.architecture == Some(peer.architecture)
    }
}

/// A registered peer as the API shows it, with its URL resolved.
pub open spec fn peer_info(peer: PeerRebuilderView) -> PeerInfoView {
    PeerInfoView {
        id: peer.id,
        url: resolved_url(peer.url, peer.architecture),
        distribution: peer.distribution,
        architecture: peer.architecture,
        release: peer.release,
    }
}

/// The peers that a query asks for, in their order.
pub open spec fn listed_peers(
    query: PeerListQueryView,
    peers: Seq<PeerRebuilderView>,
) -> Seq<PeerInfoView>
    decreases peers.len(),
{
    if peers.len() == 0 {
        Seq::empty()
    } else {
        let before = listed_peers(query, peers.drop_last());
        if query.admits(peers.last()) {
            before.push(peer_info(peers.last()))
        } else {
            before
        }
    }
}

/// Whether an optional filter lets a value pass.
fn passes(filter: &Option<String>, value: &String) -> (r: bool)
    ensures
        r == (text_of(*filter) is None || text_of(*filter) == Some(value@)),
{
    match filter {
        Some(wanted) => *wanted == *value,
        None => true,
    }
}

/// The registered peers that a query asks for, with their URLs resolved.
pub fn list_peers(query: &PeerListQuery, peers: &Vec<PeerRebuilder>) -> (r: Vec<PeerInfo>)
    ensures
        views(r@) == listed_peers(query@, views(peers@)),
{
    let mut listed: Vec<PeerInfo> = Vec::new();
    let mut i: usize = 0;
    proof {
        assert(views(peers@).take(0) =~= Seq::<PeerRebuilderView>::empty());
        assert(views(listed@) =~= Seq::<PeerInfoView>::empty());
    }
    while i < peers.len()
        invariant
            i <= peers@.len(),
            views(listed@) == listed_peers(query@, views(peers@).take(i as int)),
        decreases peers@.len() - i,
    {
        let peer = &peers[i];
        proof {
            assert(views(peers@).take(i + 1).drop_last() =~= views(peers@).take(i as int));
        }
        if passes(&query.distribution, &peer.distribution) && passes(
            &query.architecture,
            &peer.architecture,
        ) {
            let ghost was = listed@;
            listed.push(
                PeerInfo {
                    id: peer.id,
                    url: resolve_url(peer.url.as_str(), peer.architecture.as_str()),
                    distribution: peer.distribution.clone(),
                    architecture: peer.architecture.clone(),
                    release: peer.release.clone(),
                },
            );
            proof {
                assert(views(listed@) =~= views(was).push(listed@.last()@));
            }
        }
        i += 1;
    }
    proof {
        assert(views(peers@).take(i as int) =~= views(peers@));
    }
    listed
}

} // verus!
