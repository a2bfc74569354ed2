use rebuilderd::freebsd::commits::{
    commit_timestamp, request_commit, unique_commits, CommitResponse, CommitTimes,
};
use rebuilderd::freebsd::pkg::{
    build_timestamp, package_info, report_package, FreeBSDPkg, FreeBSDPkgAnnotations, PackageInfo,
    Site,
};
use rebuilderd::time::Timestamp;

fn s(text: &str) -> String {
    text.to_string()
}

fn at(secs: i64) -> Timestamp {
    Timestamp::new(secs, 0).unwrap()
}

fn site() -> Site {
    Site { source: s("https://pkg.example.org"), release: s("14"), architecture: s("amd64") }
}

fn pkg(name: &str, hash: Option<&str>, built: Option<&str>) -> FreeBSDPkg {
    FreeBSDPkg {
        name: s(name),
        origin: format!("devel/{name}"),
        version: s("1.0"),
        arch: s("FreeBSD:14:amd64"),
        annotations: Some(FreeBSDPkgAnnotations {
            ports_top_git_hash: hash.map(s),
            build_timestamp: built.map(s),
        }),
    }
}

fn info(name: &str, hash: Option<&str>, built: Option<i64>) -> PackageInfo {
    package_info(&site(), pkg(name, hash, None), built.map(at))
}

#[test]
fn urls_of_a_site() {
    assert_eq!(
        site().packagesite_url(),
        "https://pkg.example.org/FreeBSD:14:amd64/latest/packagesite.pkg"
    );
    assert_eq!(
        site().pkg_url("rust", "1.80"),
        "https://pkg.example.org/FreeBSD:14:amd64/latest/All/rust-1.80.pkg"
    );
}

#[test]
fn packages_are_known_by_name_only() {
    let rust = pkg("rust", None, None);
    assert_eq!(rust.pkg_name(), "rust");
    assert!(!rust.by_maintainer(&[s("rust@FreeBSD.org")]));
    assert_eq!(rust.clone().origin, "devel/rust");
    assert!(rust.clone().annotations.is_some());
}

#[test]
fn build_time_is_read_from_the_annotations() {
    let built = pkg("rust", None, Some("2025-10-24T19:14:30+0000"));
    assert_eq!(build_timestamp(&built), Some(at(1761333270)));
    assert_eq!(build_timestamp(&pkg("rust", None, Some("yesterday"))), None);
    assert_eq!(build_timestamp(&pkg("rust", None, None)), None);
    let mut bare = pkg("rust", None, None);
    bare.annotations = None;
    assert_eq!(build_timestamp(&bare), None);
}

#[test]
fn package_is_reported_with_its_artifact() {
    let known = package_info(&site(), pkg("rust", Some("abc"), None), Some(at(50)));
    assert_eq!(known.git_hash.as_deref(), Some("abc"));
    let report = report_package(&known, Some(at(40)));
    assert_eq!((report.name.as_str(), report.version.as_str()), ("devel/rust", "1.0"));
    let url = "https://pkg.example.org/FreeBSD:14:amd64/latest/All/rust-1.0.pkg";
    assert_eq!(report.url, url);
    assert_eq!(report.artifacts.len(), 1);
    let artifact = &report.artifacts[0];
    assert_eq!((artifact.name.as_str(), artifact.version.as_str()), ("rust", "1.0"));
    assert_eq!((artifact.architecture.as_str(), artifact.url.as_str()), ("FreeBSD:14:amd64", url));
    assert_eq!(report.fbsd_ports_top_git_hash.as_deref(), Some("abc"));
    assert_eq!(report.fbsd_build_timestamp, Some(at(50)));
    assert_eq!(report.fbsd_ports_top_git_timestamp, Some(at(40)));
}

#[test]
fn each_commit_is_asked_for_once() {
    let infos = vec![
        info("a", Some("x"), None),
        info("b", None, None),
        info("c", Some("y"), None),
        info("d", Some("x"), None),
    ];
    assert_eq!(unique_commits(&Some(s("token")), &infos), ["x", "y"]);
    assert!(unique_commits(&None, &infos).is_empty());
}

#[test]
fn commit_is_asked_of_github() {
    let request = request_commit("abc123", "token");
    assert_eq!(request.url, "https://api.github.com/repos/freebsd/freebsd-ports/commits/abc123");
    assert!(request.query.is_empty());
    assert_eq!(
        request.headers,
        [
            (s("Authorization"), s("Bearer token")),
            (s("User-Agent"), s("rebuilderd")),
            (s("Accept"), s("application/vnd.github+json")),
            (s("X-GitHub-Api-Version"), s("2022-11-28")),
        ]
    );
}

#[test]
fn only_successful_answers_give_a_time() {
    let date = || Some(s("2024-02-29T12:00:00Z"));
    let time = |success: bool, date: Option<String>| {
        commit_timestamp(&CommitResponse::Answered { success, date })
    };
    assert_eq!(time(true, date()), Some(at(1709208000)));
    assert_eq!(time(false, date()), None);
    assert_eq!(time(true, None), None);
    assert_eq!(time(true, Some(s("2024-02-30T12:00:00Z"))), None);
    assert_eq!(commit_timestamp(&CommitResponse::Unreachable), None);
}

#[test]
fn earliest_build_stands_for_the_commit() {
    let infos = vec![
        info("a", Some("x"), Some(30)),
        info("b", Some("x"), Some(20)),
        info("c", Some("x"), Some(25)),
        info("d", Some("y"), None),
        info("e", None, Some(1)),
        info("f", Some("told"), Some(100)),
        info("g", Some("late"), Some(100)),
    ];
    let mut times = CommitTimes::new();
    times.put(s("told"), at(90));
    times.put(s("late"), at(110));
    times.put(s("late"), at(120));
    assert_eq!(times.get(&Some(s("late"))), Some(at(120)));
    times.approximate(&infos);
    assert_eq!(times.get(&Some(s("x"))), Some(at(20)));
    assert_eq!(times.get(&Some(s("y"))), None);
    assert_eq!(times.get(&Some(s("told"))), Some(at(90)));
    assert_eq!(times.get(&Some(s("late"))), Some(at(100)));
    assert_eq!(times.get(&None), None);
}

#[test]
fn order_of_packages_makes_no_difference() {
    let times_of = |order: [i64; 3]| {
        let infos = order.iter().map(|secs| info("a", Some("x"), Some(*secs))).collect();
        let mut times = CommitTimes::new();
        times.approximate(&infos);
        times.get(&Some(s("x")))
    };
    for order in [[1, 2, 3], [2, 1, 3], [3, 2, 1], [2, 3, 1]] {
        assert_eq!(times_of(order), Some(at(1)));
    }
}

#[test]
fn no_commit_is_after_its_builds() {
    let infos = vec![info("a", Some("x"), Some(30)), info("b", Some("x"), Some(20))];
    let mut times = CommitTimes::new();
    times.put(s("x"), at(25));
    times.approximate(&infos);
    for info in &infos {
        let report = report_package(info, times.get(&info.git_hash));
        let commit = report.fbsd_ports_top_git_timestamp.unwrap();
        assert!(commit.at_or_before(&report.fbsd_build_timestamp.unwrap()));
    }
}
