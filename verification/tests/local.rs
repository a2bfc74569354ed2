use rebuilderd::peers::local::{
    fetch_local_packages, local_packages, LocalBinaryPackage, LocalPackageRow, Rebuild,
    RebuildArtifact,
};
use rebuilderd::status::BuildStatus;
use rebuilderd::time::Timestamp;

fn s(text: &str) -> String {
    text.to_string()
}

fn row(name: &str, artifact: Option<BuildStatus>, rebuild: Option<BuildStatus>) -> LocalPackageRow {
    LocalPackageRow { name: s(name), version: s("1"), artifact_status: artifact, rebuild_status: rebuild }
}

fn package(name: &str, build_input_id: i32) -> LocalBinaryPackage {
    LocalBinaryPackage {
        name: s(name),
        version: s("1"),
        distribution: s("debian"),
        architecture: s("amd64"),
        build_input_id,
        seen_in_last_sync: true,
    }
}

fn rebuild(id: i32, build_input_id: i32, status: Option<BuildStatus>, built_at: i64) -> Rebuild {
    Rebuild { id, build_input_id, status, built_at: Timestamp::new(built_at, 0).unwrap() }
}

fn artifact(rebuild_id: i32, name: &str, status: BuildStatus) -> RebuildArtifact {
    RebuildArtifact { rebuild_id, name: s(name), status }
}

type Found = Vec<(String, Option<BuildStatus>, Option<BuildStatus>)>;

fn found(
    packages: Vec<LocalBinaryPackage>,
    rebuilds: Vec<Rebuild>,
    artifacts: Vec<RebuildArtifact>,
) -> Found {
    fetch_local_packages(&packages, &rebuilds, &artifacts, "debian", "amd64")
        .into_iter()
        .map(|row| (row.name, row.artifact_status, row.rebuild_status))
        .collect()
}

const GOOD: Option<BuildStatus> = Some(BuildStatus::Good);
const BAD: Option<BuildStatus> = Some(BuildStatus::Bad);
const FAIL: Option<BuildStatus> = Some(BuildStatus::Fail);

#[test]
fn local_status_is_that_of_the_artifact_or_the_rebuild() {
    let local = local_packages(&vec![
        row("a", Some(BuildStatus::Good), Some(BuildStatus::Bad)),
        row("b", None, Some(BuildStatus::Fail)),
        row("c", None, None),
        row("d", Some(BuildStatus::Bad), None),
        row("a", Some(BuildStatus::Bad), None),
    ]);
    assert_eq!(local.len(), 4);
    assert_eq!(local.get("a", &s("1")).unwrap().status, BuildStatus::Bad);
    assert_eq!(local.get("b", &s("1")).unwrap().status, BuildStatus::Fail);
    assert_eq!(local.get("c", &s("1")).unwrap().status, BuildStatus::Unknown);
    assert_eq!(local.get("d", &s("1")).unwrap().status, BuildStatus::Bad);
    assert!(local.get("a", &s("2")).is_none());
}

#[test]
fn latest_rebuild_counts() {
    let rebuilds = vec![
        rebuild(1, 7, FAIL, 100),
        rebuild(2, 7, GOOD, 300),
        rebuild(3, 7, BAD, 200),
        rebuild(4, 8, BAD, 400),
    ];
    let artifacts = vec![
        artifact(3, "a", BuildStatus::Bad),
        artifact(2, "a", BuildStatus::Good),
        artifact(4, "a", BuildStatus::Bad),
    ];
    assert_eq!(found(vec![package("a", 7)], rebuilds, artifacts), [(s("a"), GOOD, GOOD)]);
}

#[test]
fn higher_id_counts_at_the_same_time() {
    for rebuilds in [
        vec![rebuild(5, 7, FAIL, 100), rebuild(6, 7, GOOD, 100)],
        vec![rebuild(6, 7, GOOD, 100), rebuild(5, 7, FAIL, 100)],
    ] {
        assert_eq!(found(vec![package("a", 7)], rebuilds, Vec::new()), [(s("a"), None, GOOD)]);
    }
}

#[test]
fn package_without_rebuild_has_no_status() {
    assert_eq!(
        found(vec![package("a", 7)], vec![rebuild(1, 8, GOOD, 1)], vec![artifact(1, "a", BuildStatus::Good)]),
        [(s("a"), None, None)]
    );
}

#[test]
fn rebuild_without_the_artifact_has_its_own_status() {
    let packages = vec![package("a", 7), package("b", 7), package("c", 7)];
    let artifacts = vec![artifact(1, "b", BuildStatus::Bad), artifact(1, "c", BuildStatus::Good), artifact(1, "b", BuildStatus::Good)];
    assert_eq!(
        found(packages, vec![rebuild(1, 7, FAIL, 1)], artifacts),
        [(s("a"), None, FAIL), (s("b"), BAD, FAIL), (s("b"), GOOD, FAIL), (s("c"), GOOD, FAIL)]
    );
    assert_eq!(found(vec![package("a", 7)], vec![rebuild(1, 7, None, 1)], Vec::new()), [(s("a"), None, None)]);
}

#[test]
fn only_packages_in_question_count() {
    let mut packages = vec![package("a", 7), package("b", 7), package("c", 7), package("d", 7)];
    packages[0].distribution = s("archlinux");
    packages[1].architecture = s("arm64");
    packages[2].seen_in_last_sync = false;
    assert_eq!(found(packages, Vec::new(), Vec::new()), [(s("d"), None, None)]);
}
