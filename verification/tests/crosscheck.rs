use rebuilderd::packages::PackageMap;
use rebuilderd::peers::api::{PackageListing, PeerPkgInfo};
use rebuilderd::peers::crosscheck::{
    any_fetched, cross_check, disagreement_check, run_peer_check, statuses_disagree, CrossCheck,
    FetchOutcome,
};
use rebuilderd::peers::local::{local_packages, LocalPackageRow};
use rebuilderd::peers::lookup::cached_peer_entries;
use rebuilderd::peers::{PeerRebuilder, PeerSha256Check};
use rebuilderd::status::BuildStatus;
use rebuilderd::time::Timestamp;

fn s(text: &str) -> String {
    text.to_string()
}

fn peer(id: i32, url: &str, architecture: &str, release: &str, alias: &str) -> PeerRebuilder {
    PeerRebuilder {
        id,
        url: s(url),
        distribution: s("debian"),
        architecture: s(architecture),
        release: s(release),
        release_alias: s(alias),
    }
}

fn row(name: &str, artifact: Option<BuildStatus>, rebuild: Option<BuildStatus>) -> LocalPackageRow {
    LocalPackageRow { name: s(name), version: s("1"), artifact_status: artifact, rebuild_status: rebuild }
}

fn reported(packages: &[(&str, BuildStatus, i32)]) -> PackageMap<PeerPkgInfo> {
    let mut map = PackageMap::new();
    for (name, status, build) in packages {
        map = map.insert(s(name), s("1"), PeerPkgInfo { status: *status, peer_build_id: Some(*build) });
    }
    map
}

/// Applies what a cross-check has found to the rows of the cache.
fn refresh(rows: Vec<PeerSha256Check>, found: CrossCheck) -> Vec<PeerSha256Check> {
    let mut after: Vec<PeerSha256Check> = rows
        .into_iter()
        .filter(|row| !found.compared_peer_ids.contains(&row.peer_rebuilder_id))
        .collect();
    for upsert in found.upserts {
        after.push(PeerSha256Check {
            id: 100 + after.len() as i32,
            peer_rebuilder_id: upsert.peer_rebuilder_id,
            binary_name: upsert.binary_name,
            binary_version: upsert.binary_version,
            peer_build_id: upsert.peer_build_id,
            checked_at: upsert.checked_at,
            peer_status: upsert.peer_status,
        });
    }
    after
}

#[test]
fn peers_are_asked_for_their_own_release() {
    let peers = vec![
        peer(1, "https://a/{arch}/v1", "amd64", "sid", "unstable"),
        peer(2, "https://b/v1", "amd64", "", ""),
        peer(3, "https://c/v0", "amd64", "sid", "unstable"),
        peer(4, "https://d/v1", "arm64", "sid", "unstable"),
        peer(5, "https://e/v1", "amd64", "sid", ""),
    ];
    let fetches = run_peer_check(&peers, "debian", "amd64");
    assert_eq!(fetches.len(), 4);
    assert_eq!((fetches[0].peer_id, fetches[0].url.as_str()), (1, "https://a/amd64/v1"));
    match &fetches[0].listing {
        PackageListing::V1(listing) => {
            assert_eq!(listing.release.as_deref(), Some("unstable"));
            assert_eq!(listing.distribution, "debian");
            assert_eq!(listing.architecture, "amd64");
        }
        PackageListing::V0(_) => panic!("not version 0"),
    }
    match &fetches[1].listing {
        PackageListing::V1(listing) => assert_eq!(listing.release, None),
        PackageListing::V0(_) => panic!("not version 0"),
    }
    assert!(matches!(fetches[2].listing, PackageListing::V0(_)));
    match &fetches[3].listing {
        PackageListing::V1(listing) => assert_eq!(listing.release.as_deref(), Some("sid")),
        PackageListing::V0(_) => panic!("not version 0"),
    }
    assert!(run_peer_check(&peers, "archlinux", "amd64").is_empty());
    assert!(run_peer_check(&Vec::new(), "debian", "amd64").is_empty());
}

#[test]
fn good_and_bad_disagree() {
    let all = [BuildStatus::Good, BuildStatus::Bad, BuildStatus::Fail, BuildStatus::Unknown];
    for a in all {
        for b in all {
            let expected = (a == BuildStatus::Good && b == BuildStatus::Bad)
                || (a == BuildStatus::Bad && b == BuildStatus::Good);
            assert_eq!(statuses_disagree(a, b), expected);
            assert_eq!(statuses_disagree(a, b), statuses_disagree(b, a));
        }
    }
}

#[test]
fn disagreement_is_noted_with_its_time() {
    let now = Timestamp::new(1483228800, 17).unwrap();
    let info = PeerPkgInfo { status: BuildStatus::Bad, peer_build_id: None };
    let check = disagreement_check(3, &s("rust"), &s("1.80"), info, now);
    assert_eq!(check.peer_rebuilder_id, 3);
    assert_eq!((check.binary_name.as_str(), check.binary_version.as_str()), ("rust", "1.80"));
    assert_eq!(check.peer_build_id, None);
    assert_eq!(check.checked_at, now);
    assert_eq!(check.peer_status.as_deref(), Some("BAD"));
}

#[test]
fn without_answers_nothing_is_compared() {
    assert!(!any_fetched(&Vec::new()));
    assert!(!any_fetched(&vec![FetchOutcome::Failed, FetchOutcome::Lost]));
    assert!(any_fetched(&vec![
        FetchOutcome::Failed,
        FetchOutcome::Fetched { peer_id: 1, packages: PackageMap::new() },
    ]));
}

#[test]
fn disagreements_are_found() {
    let local = local_packages(&vec![
        row("a", Some(BuildStatus::Good), None),
        row("b", Some(BuildStatus::Bad), None),
        row("c", None, Some(BuildStatus::Fail)),
    ]);
    let outcomes = vec![
        FetchOutcome::Fetched {
            peer_id: 1,
            packages: reported(&[
                ("a", BuildStatus::Bad, 10),
                ("b", BuildStatus::Bad, 11),
                ("c", BuildStatus::Good, 12),
                ("z", BuildStatus::Bad, 13),
            ]),
        },
        FetchOutcome::Failed,
        FetchOutcome::Fetched {
            peer_id: 2,
            packages: reported(&[("b", BuildStatus::Good, 20), ("a", BuildStatus::Good, 21)]),
        },
        FetchOutcome::Lost,
    ];
    let before = Timestamp::now();
    let found = cross_check(&outcomes, &local);
    let after = Timestamp::now();
    assert_eq!(found.compared_peer_ids, [1, 2]);
    let upserts: Vec<(i32, &str, Option<i32>, Option<&str>)> = found
        .upserts
        .iter()
        .map(|u| (u.peer_rebuilder_id, u.binary_name.as_str(), u.peer_build_id, u.peer_status.as_deref()))
        .collect();
    assert_eq!(upserts, [(1, "a", Some(10), Some("BAD")), (2, "b", Some(20), Some("GOOD"))]);
    for upsert in &found.upserts {
        assert_eq!(upsert.binary_version, "1");
        assert!(before.at_or_before(&upsert.checked_at));
        assert!(upsert.checked_at.at_or_before(&after));
    }
}

#[test]
fn cache_follows_the_cross_checks() {
    let peers = vec![peer(1, "https://a/v1", "amd64", "", ""), peer(2, "https://b/v1", "amd64", "", "")];
    let local = local_packages(&vec![row("a", Some(BuildStatus::Good), None)]);
    let disagreeing = |id: i32| FetchOutcome::Fetched {
        peer_id: id,
        packages: reported(&[("a", BuildStatus::Bad, 10 + id)]),
    };
    let agreeing = |id: i32| FetchOutcome::Fetched {
        peer_id: id,
        packages: reported(&[("a", BuildStatus::Good, 10 + id)]),
    };
    let rows = refresh(Vec::new(), cross_check(&vec![disagreeing(1), disagreeing(2)], &local));
    assert_eq!(rows.len(), 2);
    let entries = cached_peer_entries(&peers, &rows, "a", "1");
    assert_eq!((entries[0].status, entries[0].build_id), (Some(BuildStatus::Bad), Some(11)));
    assert_eq!((entries[1].status, entries[1].build_id), (Some(BuildStatus::Bad), Some(12)));
    // The first peer now agrees, the second cannot be reached.
    let rows = refresh(rows, cross_check(&vec![agreeing(1), FetchOutcome::Failed], &local));
    let entries = cached_peer_entries(&peers, &rows, "a", "1");
    assert_eq!((entries[0].status, entries[0].build_id), (None, None));
    assert_eq!((entries[1].status, entries[1].build_id), (Some(BuildStatus::Bad), Some(12)));
}

#[test]
fn same_answers_leave_the_rows() {
    let local = local_packages(&vec![
        row("a", Some(BuildStatus::Good), None),
        row("b", Some(BuildStatus::Bad), None),
    ]);
    let outcomes = vec![
        FetchOutcome::Fetched {
            peer_id: 1,
            packages: reported(&[("a", BuildStatus::Bad, 10), ("b", BuildStatus::Good, 11)]),
        },
        FetchOutcome::Failed,
    ];
    let contents = |rows: &[PeerSha256Check]| -> Vec<(i32, String, String, Option<i32>, Option<String>)> {
        rows.iter()
            .map(|row| {
                (
                    row.peer_rebuilder_id,
                    row.binary_name.clone(),
                    row.binary_version.clone(),
                    row.peer_build_id,
                    row.peer_status.clone(),
                )
            })
            .collect()
    };
    let other = FetchOutcome::Fetched { peer_id: 2, packages: reported(&[("a", BuildStatus::Bad, 20)]) };
    let rows = refresh(Vec::new(), cross_check(&vec![other], &local));
    let once = refresh(rows, cross_check(&outcomes, &local));
    let expected = contents(&once);
    assert_eq!(
        expected,
        [
            (2, s("a"), s("1"), Some(20), Some(s("BAD"))),
            (1, s("a"), s("1"), Some(10), Some(s("BAD"))),
            (1, s("b"), s("1"), Some(11), Some(s("GOOD"))),
        ]
    );
    let twice = refresh(once, cross_check(&outcomes, &local));
    assert_eq!(contents(&twice), expected);
}
