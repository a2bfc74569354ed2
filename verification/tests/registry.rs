use rebuilderd::peers::api::PackageListing;
use rebuilderd::peers::crosscheck::run_peer_check;
use rebuilderd::peers::registry::{
    check_peers, list_peers, resolve_url, stale_peers, CheckPeers, PeerListQuery,
};
use rebuilderd::peers::{CheckPeersRequest, NewPeerRebuilder, PeerRebuilder};

fn s(text: &str) -> String {
    text.to_string()
}

fn request(release: Option<&str>, alias: Option<&str>, urls: &[&str]) -> CheckPeersRequest {
    CheckPeersRequest {
        distribution: s("debian"),
        architecture: s("amd64"),
        release: release.map(s),
        release_alias: alias.map(s),
        urls: urls.iter().map(|url| s(url)).collect(),
    }
}

fn peer(id: i32, url: &str, distribution: &str, architecture: &str) -> PeerRebuilder {
    PeerRebuilder {
        id,
        url: s(url),
        distribution: s(distribution),
        architecture: s(architecture),
        release: s("sid"),
        release_alias: s("unstable"),
    }
}

fn registered(request: &CheckPeersRequest) -> Vec<NewPeerRebuilder> {
    match check_peers(true, request) {
        CheckPeers::Register(peers) => peers,
        CheckPeers::Forbidden => panic!("forbidden"),
    }
}

/// Puts the peers of a request in a table, and takes the stale ones out.
fn apply(table: &mut Vec<PeerRebuilder>, request: &CheckPeersRequest) {
    for new in registered(request) {
        let known = table.iter_mut().find(|peer| {
            peer.url == new.url
                && peer.distribution == new.distribution
                && peer.architecture == new.architecture
        });
        match known {
            Some(peer) => {
                peer.release = new.release;
                peer.release_alias = new.release_alias;
            }
            None => {
                let id = table.iter().map(|peer| peer.id).max().unwrap_or(0) + 1;
                table.push(PeerRebuilder {
                    id,
                    url: new.url,
                    distribution: new.distribution,
                    architecture: new.architecture,
                    release: new.release,
                    release_alias: new.release_alias,
                });
            }
        }
    }
    let stale = stale_peers(request, table);
    table.retain(|peer| !stale.contains(&peer.id));
}

fn shown(table: &[PeerRebuilder]) -> Vec<(String, String, String)> {
    let mut shown: Vec<(String, String, String)> = table
        .iter()
        .map(|peer| (peer.url.clone(), peer.architecture.clone(), peer.release_alias.clone()))
        .collect();
    shown.sort();
    shown
}

#[test]
fn table_has_the_peers_of_the_last_request() {
    let mut table = vec![peer(1, "https://z", "debian", "amd64"), peer(2, "https://z", "debian", "arm64")];
    apply(&mut table, &request(Some("sid"), Some("wrong"), &["https://a", "https://b"]));
    let last = request(Some("sid"), Some("testing"), &["https://b", "https://c"]);
    apply(&mut table, &last);
    let expected = [
        (s("https://b"), s("amd64"), s("testing")),
        (s("https://c"), s("amd64"), s("testing")),
        (s("https://z"), s("arm64"), s("unstable")),
    ];
    assert_eq!(shown(&table), expected);
    apply(&mut table, &last);
    assert_eq!(shown(&table), expected);
    let mut afresh =
        vec![peer(1, "https://z", "debian", "amd64"), peer(2, "https://z", "debian", "arm64")];
    apply(&mut afresh, &last);
    assert_eq!(shown(&afresh), expected);
}

#[test]
fn peers_that_stay_keep_their_ids() {
    let ids = |table: &[PeerRebuilder]| -> Vec<(i32, String)> {
        table.iter().map(|peer| (peer.id, peer.url.clone())).collect()
    };
    let mut table = vec![peer(7, "https://b", "debian", "amd64"), peer(3, "https://z", "debian", "amd64")];
    let twice_named = request(Some("sid"), None, &["https://a", "https://b", "https://a"]);
    apply(&mut table, &twice_named);
    assert_eq!(ids(&table), [(7, s("https://b")), (8, s("https://a"))]);
    apply(&mut table, &twice_named);
    assert_eq!(ids(&table), [(7, s("https://b")), (8, s("https://a"))]);
    apply(&mut table, &request(Some("sid"), Some("unstable"), &["https://b"]));
    assert_eq!(ids(&table), [(7, s("https://b"))]);
    assert_eq!(table[0].release_alias, "unstable");
}

#[test]
fn registered_peers_are_asked_by_their_alias() {
    for (release, alias, expected) in [
        (Some("sid"), Some("unstable"), Some("unstable")),
        (Some("sid"), Some(""), Some("sid")),
        (Some("sid"), None, Some("sid")),
        (None, None, None),
    ] {
        let mut table = Vec::new();
        apply(&mut table, &request(release, alias, &["https://a/v1"]));
        let fetches = run_peer_check(&table, "debian", "amd64");
        match &fetches[0].listing {
            PackageListing::V1(listing) => assert_eq!(listing.release.as_deref(), expected),
            PackageListing::V0(_) => panic!("not version 0"),
        }
    }
}

#[test]
fn only_administrators_may_check() {
    let request = request(None, None, &["https://a"]);
    assert!(matches!(check_peers(false, &request), CheckPeers::Forbidden));
    assert!(matches!(check_peers(true, &request), CheckPeers::Register(_)));
}

#[test]
fn each_url_is_registered() {
    let peers = registered(&request(Some("sid"), Some("unstable"), &["https://a", "https://b"]));
    assert_eq!(peers.len(), 2);
    for (peer, url) in peers.iter().zip(["https://a", "https://b"]) {
        assert_eq!(peer.url, url);
        assert_eq!(peer.distribution, "debian");
        assert_eq!(peer.architecture, "amd64");
        assert_eq!(peer.release, "sid");
        assert_eq!(peer.release_alias, "unstable");
    }
    assert!(registered(&request(None, None, &[])).is_empty());
}

#[test]
fn alias_falls_back_to_the_release() {
    for alias in [None, Some("")] {
        let peers = registered(&request(Some("sid"), alias, &["https://a"]));
        assert_eq!((peers[0].release.as_str(), peers[0].release_alias.as_str()), ("sid", "sid"));
    }
    let peers = registered(&request(None, None, &["https://a"]));
    assert_eq!((peers[0].release.as_str(), peers[0].release_alias.as_str()), ("", ""));
    let peers = registered(&request(None, Some("unstable"), &["https://a"]));
    assert_eq!((peers[0].release.as_str(), peers[0].release_alias.as_str()), ("", "unstable"));
}

#[test]
fn unnamed_peers_are_stale() {
    let peers = vec![
        peer(1, "https://a", "debian", "amd64"),
        peer(2, "https://b", "debian", "amd64"),
        peer(3, "https://c", "debian", "arm64"),
        peer(4, "https://c", "archlinux", "amd64"),
        peer(5, "https://a/", "debian", "amd64"),
    ];
    assert_eq!(stale_peers(&request(None, None, &["https://a"]), &peers), [2, 5]);
    assert_eq!(stale_peers(&request(None, None, &[]), &peers), [1, 2, 5]);
    assert_eq!(
        stale_peers(&request(None, None, &["https://a/", "https://b", "https://a"]), &peers),
        Vec::<i32>::new()
    );
}

#[test]
fn template_is_resolved() {
    assert_eq!(resolve_url("https://a/{arch}/api/v1", "amd64"), "https://a/amd64/api/v1");
    assert_eq!(resolve_url("{arch}{arch}", "x"), "xx");
    assert_eq!(resolve_url("{{arch}}", "x"), "{x}");
    assert_eq!(resolve_url("{arch}", "{arch}"), "{arch}");
    assert_eq!(resolve_url("https://a/api/v1", "amd64"), "https://a/api/v1");
}

#[test]
fn peers_are_listed_as_asked_for() {
    let peers = vec![
        peer(1, "https://a/{arch}", "debian", "amd64"),
        peer(2, "https://b", "debian", "arm64"),
        peer(3, "https://c/{arch}", "archlinux", "amd64"),
    ];
    let ids = |distribution: Option<&str>, architecture: Option<&str>| -> Vec<i32> {
        let query = PeerListQuery {
            distribution: distribution.map(s),
            architecture: architecture.map(s),
        };
        list_peers(&query, &peers).iter().map(|peer| peer.id).collect()
    };
    assert_eq!(ids(None, None), [1, 2, 3]);
    assert_eq!(ids(Some("debian"), None), [1, 2]);
    assert_eq!(ids(None, Some("amd64")), [1, 3]);
    assert_eq!(ids(Some("debian"), Some("arm64")), [2]);
    assert_eq!(ids(Some("fedora"), None), Vec::<i32>::new());
    let all = list_peers(&PeerListQuery { distribution: None, architecture: None }, &peers);
    assert_eq!(all[0].url, "https://a/amd64");
    assert_eq!(all[2].url, "https://c/amd64");
    assert_eq!(all[2].distribution, "archlinux");
    assert_eq!(all[1].architecture, "arm64");
    assert_eq!(all[1].release, "sid");
}
