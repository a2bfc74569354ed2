use rebuilderd::peers::api::{PackageRequest, PeerBinaryPackage, PeerResultPage, V0PkgRelease, V0Status};
use rebuilderd::peers::lookup::{
    cached_entry, cached_peer_entries, default_true, get_peer_package, live_entries, LiveOutcome,
    PeerLookup, PeerPackageQuery,
};
use rebuilderd::peers::{PeerRebuilder, PeerSha256Check};
use rebuilderd::status::BuildStatus;
use rebuilderd::time::Timestamp;

fn s(text: &str) -> String {
    text.to_string()
}

fn peer(id: i32, url: &str, distribution: &str, architecture: &str) -> PeerRebuilder {
    PeerRebuilder {
        id,
        url: s(url),
        distribution: s(distribution),
        architecture: s(architecture),
        release: s(""),
        release_alias: s(""),
    }
}

fn query(live: bool, part: Option<&str>) -> PeerPackageQuery {
    PeerPackageQuery {
        distribution: s("debian"),
        architecture: s("amd64"),
        name: s("rust"),
        version: s("1.80"),
        live,
        peer: part.map(s),
    }
}

fn check(peer_id: i32, name: &str, version: &str, build: Option<i32>, status: Option<&str>) -> PeerSha256Check {
    PeerSha256Check {
        id: 1,
        peer_rebuilder_id: peer_id,
        binary_name: s(name),
        binary_version: s(version),
        peer_build_id: build,
        checked_at: Timestamp::new(0, 0).unwrap(),
        peer_status: status.map(s),
    }
}

fn peers() -> Vec<PeerRebuilder> {
    vec![
        peer(1, "https://a/{arch}/v1", "debian", "amd64"),
        peer(2, "https://b/v0", "debian", "amd64"),
        peer(3, "https://c/v1", "debian", "arm64"),
        peer(4, "https://a/v1", "archlinux", "amd64"),
    ]
}

#[test]
fn peers_are_asked_in_real_time_by_default() {
    assert!(default_true());
}

#[test]
fn nothing_is_looked_up_without_peers() {
    for live in [true, false] {
        assert!(matches!(get_peer_package(&query(live, None), &Vec::new()), PeerLookup::NoPeers));
        assert!(matches!(get_peer_package(&query(live, Some("nowhere")), &peers()), PeerLookup::NoPeers));
        assert!(matches!(get_peer_package(&query(live, Some("https://c")), &peers()), PeerLookup::NoPeers));
    }
}

#[test]
fn cache_is_read_for_the_peers_in_question() {
    let ids = |part: Option<&str>| -> Vec<i32> {
        match get_peer_package(&query(false, part), &peers()) {
            PeerLookup::Cached(peers) => peers.iter().map(|peer| peer.id).collect(),
            _ => panic!("not cached"),
        }
    };
    assert_eq!(ids(None), [1, 2]);
    assert_eq!(ids(Some("https://a")), [1]);
    assert_eq!(ids(Some("{arch}")), [1]);
    assert_eq!(ids(Some("")), [1, 2]);
}

#[test]
fn peers_are_asked_at_their_resolved_urls() {
    let requests = match get_peer_package(&query(true, None), &peers()) {
        PeerLookup::Live(requests) => requests,
        _ => panic!("not live"),
    };
    assert_eq!(requests.len(), 2);
    assert_eq!(requests[0].url, "https://a/amd64/v1");
    match &requests[0].request {
        PackageRequest::V1(request) => assert_eq!(request.url, "https://a/amd64/v1/packages/binary"),
        PackageRequest::V0(_) => panic!("not version 0"),
    }
    assert_eq!(requests[1].url, "https://b/v0");
    match &requests[1].request {
        PackageRequest::V0(request) => assert_eq!(request.query[0], (s("name"), s("rust"))),
        PackageRequest::V1(_) => panic!("not version 1"),
    }
}

#[test]
fn every_answer_gives_an_entry() {
    let outcomes = vec![
        LiveOutcome::Failed { url: s("https://a") },
        LiveOutcome::Lost,
        LiveOutcome::V0 {
            url: s("https://b/v0"),
            releases: vec![V0PkgRelease {
                name: s("rust"),
                version: s("1.80"),
                status: V0Status::Bad,
                build_id: Some(4),
                has_diffoscope: false,
            }],
        },
        LiveOutcome::V1 {
            url: s("https://c/v1"),
            page: PeerResultPage {
                total: Some(1),
                records: vec![PeerBinaryPackage {
                    id: 1,
                    name: s("rust"),
                    version: s("1.80"),
                    status: Some(BuildStatus::Good),
                    build_id: Some(5),
                    artifact_id: None,
                    diffoscope_log_id: None,
                    rebuild_status: None,
                }],
            },
        },
    ];
    let entries = live_entries(&outcomes, "1.80");
    assert_eq!(entries.len(), 3);
    assert_eq!((entries[0].url.as_str(), entries[0].status), ("https://a", None));
    assert_eq!((entries[1].url.as_str(), entries[1].status), ("https://b/v0", Some(BuildStatus::Bad)));
    assert_eq!(entries[1].diffoscope_url, None);
    assert_eq!((entries[2].url.as_str(), entries[2].status), ("https://c/v1", Some(BuildStatus::Good)));
    assert_eq!(live_entries(&outcomes, "1.81")[1].status, None);
}

#[test]
fn cached_disagreement_gives_an_entry() {
    let peer = peer(1, "https://a/{arch}/v1/", "debian", "amd64");
    let entry = cached_entry(&peer, Some(&check(1, "rust", "1.80", Some(7), Some("BAD"))));
    assert_eq!(entry.url, "https://a/amd64/v1/");
    assert_eq!(entry.status, Some(BuildStatus::Bad));
    assert_eq!(entry.build_id, Some(7));
    assert_eq!(entry.log_url.as_deref(), Some("https://a/amd64/v1/builds/7/log"));
    assert_eq!(entry.diffoscope_url.as_deref(), Some("https://a/amd64/v1/builds/7/diffoscope"));
    let entry = cached_entry(&peer, Some(&check(1, "rust", "1.80", Some(7), Some("GOOD"))));
    assert_eq!((entry.status, entry.diffoscope_url), (Some(BuildStatus::Good), None));
    let entry = cached_entry(&peer, Some(&check(1, "rust", "1.80", None, Some("BAD"))));
    assert_eq!((entry.build_id, entry.log_url, entry.diffoscope_url), (None, None, None));
    for status in [None, Some("bad"), Some("")] {
        let entry = cached_entry(&peer, Some(&check(1, "rust", "1.80", Some(7), status)));
        assert_eq!((entry.status, entry.build_id), (None, Some(7)));
    }
    let entry = cached_entry(&peer, None);
    assert_eq!((entry.url.as_str(), entry.status, entry.log_url), ("https://a/amd64/v1/", None, None));
}

#[test]
fn cache_has_an_entry_for_each_peer() {
    let checks = vec![
        check(2, "rust", "1.81", Some(1), Some("GOOD")),
        check(2, "cargo", "1.80", Some(2), Some("GOOD")),
        check(1, "rust", "1.80", Some(3), Some("BAD")),
        check(2, "rust", "1.80", Some(4), Some("GOOD")),
        check(2, "rust", "1.80", Some(5), Some("BAD")),
    ];
    let entries = cached_peer_entries(&peers(), &checks, "rust", "1.80");
    assert_eq!(entries.len(), 4);
    assert_eq!((entries[0].status, entries[0].build_id), (Some(BuildStatus::Bad), Some(3)));
    assert_eq!((entries[1].status, entries[1].build_id), (Some(BuildStatus::Good), Some(4)));
    assert_eq!((entries[2].status, entries[2].build_id), (None, None));
    assert_eq!((entries[3].status, entries[3].build_id), (None, None));
}
