use rebuilderd::http::HttpRequest;
use rebuilderd::peers::api::{
    build_diffoscope_url, build_log_url, is_v0_url, list_packages, no_entry, request_package,
    status_or_rebuild, status_or_unknown, v0_entry, v0_packages, v0_to_build_status, v0_urls,
    v1_entry, v1_urls, PackageListing, PackageRequest, PeerBinaryPackage, PeerPkgInfo,
    PeerResultPage, V0PkgRelease, V0Status, V1Listing, V1Step, PAGE_LIMIT,
};
use rebuilderd::packages::PackageMap;
use rebuilderd::status::BuildStatus;

fn s(text: &str) -> String {
    text.to_string()
}

fn query(request: &HttpRequest) -> Vec<(&str, &str)> {
    request.query.iter().map(|(name, value)| (name.as_str(), value.as_str())).collect()
}

fn record(id: i32, name: &str, status: Option<BuildStatus>) -> PeerBinaryPackage {
    PeerBinaryPackage {
        id,
        name: s(name),
        version: s("1"),
        status,
        build_id: Some(id + 100),
        artifact_id: Some(id + 200),
        diffoscope_log_id: Some(id + 300),
        rebuild_status: None,
    }
}

fn release(name: &str, version: &str, status: V0Status) -> V0PkgRelease {
    V0PkgRelease { name: s(name), version: s(version), status, build_id: Some(9), has_diffoscope: true }
}

fn page(records: Vec<PeerBinaryPackage>) -> PeerResultPage {
    PeerResultPage { total: None, records }
}

#[test]
fn urls_of_builds() {
    assert_eq!(build_log_url("https://a/api/v1", 7), "https://a/api/v1/builds/7/log");
    assert_eq!(build_log_url("https://a/api/v1//", -7), "https://a/api/v1/builds/-7/log");
    assert_eq!(build_diffoscope_url("https://a/", 7), "https://a/builds/7/diffoscope");
}

#[test]
fn urls_of_version_0() {
    assert_eq!(
        v0_urls("https://a/api/v0/", 7, true, true),
        (Some(s("https://a/api/v0/builds/7/log")), Some(s("https://a/api/v0/builds/7/diffoscope")))
    );
    for (has_diffoscope, is_bad) in [(true, false), (false, true), (false, false)] {
        assert_eq!(
            v0_urls("https://a", 7, has_diffoscope, is_bad),
            (Some(s("https://a/builds/7/log")), None)
        );
    }
}

#[test]
fn urls_of_version_1() {
    assert_eq!(
        v1_urls("https://a/", 7, Some(8), Some(9), true),
        (Some(s("https://a/builds/7/log")), Some(s("https://a/builds/7/artifacts/8/diffoscope")))
    );
    for (artifact, diffoscope, is_bad) in
        [(None, Some(9), true), (Some(8), None, true), (Some(8), Some(9), false), (None, None, false)]
    {
        assert_eq!(
            v1_urls("https://a", 7, artifact, diffoscope, is_bad),
            (Some(s("https://a/builds/7/log")), None)
        );
    }
}

#[test]
fn version_0_is_in_the_url() {
    for url in ["https://a/api/v0", "https://a/api/v0/", "https://a/v0/amd64", "/v0//", "https://v0"] {
        assert!(is_v0_url(url), "{url}");
    }
    for url in ["https://a/api/v1", "https://a/v01", "https://a/v0x/", "", "v0"] {
        assert!(!is_v0_url(url), "{url}");
    }
}

#[test]
fn slashes_at_the_end_make_no_difference() {
    for url in ["https://a/api/v0", "https://a/api/v1"] {
        let slashed = format!("{url}/");
        assert_eq!(is_v0_url(url), is_v0_url(&slashed));
        assert_eq!(build_log_url(url, 3), build_log_url(&slashed, 3));
    }
}

#[test]
fn statuses_of_version_0() {
    assert_eq!(v0_to_build_status(V0Status::Good), BuildStatus::Good);
    assert_eq!(v0_to_build_status(V0Status::Bad), BuildStatus::Bad);
    assert_eq!(v0_to_build_status(V0Status::Unknown), BuildStatus::Unknown);
}

#[test]
fn artifact_counts_before_rebuild() {
    let (good, fail) = (Some(BuildStatus::Good), Some(BuildStatus::Fail));
    assert_eq!(status_or_rebuild(good, fail), good);
    assert_eq!(status_or_rebuild(None, fail), fail);
    assert_eq!(status_or_rebuild(None, None), None);
    assert_eq!(status_or_unknown(good, fail), BuildStatus::Good);
    assert_eq!(status_or_unknown(None, fail), BuildStatus::Fail);
    assert_eq!(status_or_unknown(None, None), BuildStatus::Unknown);
}

#[test]
fn packages_of_version_1_are_asked_for_in_pages() {
    let listing = V1Listing::new("https://a/api/v1/", "debian", "amd64", Some(s("unstable")));
    let request = listing.request();
    assert_eq!(request.url, "https://a/api/v1/packages/binary");
    assert!(request.headers.is_empty());
    assert_eq!(
        query(&request),
        [
            ("distribution", "debian"),
            ("architecture", "amd64"),
            ("seen_only", "true"),
            ("limit", "1000"),
            ("release", "unstable"),
        ]
    );
    let full: Vec<PeerBinaryPackage> =
        (0..PAGE_LIMIT).map(|id| record(id, &format!("p{id}"), Some(BuildStatus::Good))).collect();
    let next = match listing.page(&page(full)) {
        V1Step::Next(next) => next,
        V1Step::Done(_) => panic!("a full page is not the last"),
    };
    assert_eq!(
        query(&next.request()),
        [
            ("distribution", "debian"),
            ("architecture", "amd64"),
            ("seen_only", "true"),
            ("limit", "1000"),
            ("after", "999"),
            ("release", "unstable"),
        ]
    );
    let packages = match next.page(&page(vec![record(5000, "p0", Some(BuildStatus::Bad))])) {
        V1Step::Done(packages) => packages,
        V1Step::Next(_) => panic!("a short page is the last"),
    };
    assert_eq!(packages.len(), 1000);
    let replaced = packages.get("p0", &s("1")).unwrap();
    assert_eq!((replaced.status, replaced.peer_build_id), (BuildStatus::Bad, Some(5100)));
    let kept = packages.get("p999", &s("1")).unwrap();
    assert_eq!((kept.status, kept.peer_build_id), (BuildStatus::Good, Some(1099)));
}

#[test]
fn full_last_page_asks_once_more() {
    let listing = V1Listing::new("https://a/api/v1", "archlinux", "x86_64", None);
    let full: Vec<PeerBinaryPackage> =
        (0..PAGE_LIMIT).map(|id| record(id, &format!("p{id}"), None)).collect();
    let next = match listing.page(&page(full)) {
        V1Step::Next(next) => next,
        V1Step::Done(_) => panic!("a full page is not the last"),
    };
    assert!(query(&next.request()).iter().all(|(name, _)| *name != "release"));
    let packages = match next.page(&page(Vec::new())) {
        V1Step::Done(packages) => packages,
        V1Step::Next(_) => panic!("an empty page is the last"),
    };
    assert_eq!(packages.len(), 1000);
    assert_eq!(packages.get("p3", &s("1")).unwrap().status, BuildStatus::Unknown);
}

#[test]
fn paging_makes_no_difference() {
    let records = || vec![record(1, "a", None), record(2, "b", Some(BuildStatus::Good)), record(3, "a", Some(BuildStatus::Bad))];
    let listed = |pages: Vec<Vec<PeerBinaryPackage>>| -> PackageMap<PeerPkgInfo> {
        let mut packages = PackageMap::new();
        for records in pages {
            let mut listing = V1Listing::new("https://a", "debian", "amd64", None);
            listing.packages = packages;
            packages = match listing.page(&page(records)) {
                V1Step::Done(packages) => packages,
                V1Step::Next(_) => panic!("a short page is the last"),
            };
        }
        packages
    };
    let at_once = listed(vec![records()]);
    let mut first = records();
    let second = first.split_off(1);
    let in_two = listed(vec![first, second]);
    assert_eq!(at_once.len(), in_two.len());
    for name in ["a", "b"] {
        let (one, two) = (at_once.get(name, &s("1")).unwrap(), in_two.get(name, &s("1")).unwrap());
        assert_eq!((one.status, one.peer_build_id), (two.status, two.peer_build_id));
    }
    assert_eq!(at_once.get("a", &s("1")).unwrap().peer_build_id, Some(103));
}

#[test]
fn listing_goes_by_the_version_of_the_api() {
    match list_packages("https://a/api/v0/", "debian", "amd64", Some(s("sid"))) {
        PackageListing::V0(request) => {
            assert_eq!(request.url, "https://a/api/v0/pkgs/list");
            assert_eq!(query(&request), [("architecture", "amd64")]);
        }
        PackageListing::V1(_) => panic!("not version 1"),
    }
    match list_packages("https://a/api/v1", "debian", "amd64", Some(s("sid"))) {
        PackageListing::V1(listing) => {
            assert_eq!(listing.peer_url, "https://a/api/v1");
            assert_eq!(listing.release.as_deref(), Some("sid"));
            assert_eq!(listing.after, None);
        }
        PackageListing::V0(_) => panic!("not version 0"),
    }
}

#[test]
fn packages_of_version_0() {
    let packages = v0_packages(&vec![
        release("a", "1", V0Status::Good),
        release("a", "2", V0Status::Bad),
        release("a", "1", V0Status::Unknown),
    ]);
    assert_eq!(packages.len(), 2);
    assert_eq!(packages.get("a", &s("1")).unwrap().status, BuildStatus::Unknown);
    assert_eq!(packages.get("a", &s("2")).unwrap().status, BuildStatus::Bad);
    assert_eq!(packages.get("a", &s("2")).unwrap().peer_build_id, Some(9));
}

#[test]
fn one_package_is_asked_for_by_version() {
    match request_package("https://a/v0", "rust", "1.80", "amd64") {
        PackageRequest::V0(request) => {
            assert_eq!(request.url, "https://a/v0/pkgs/list");
            assert_eq!(query(&request), [("name", "rust"), ("architecture", "amd64")]);
        }
        PackageRequest::V1(_) => panic!("not version 1"),
    }
    match request_package("https://a/v1/", "rust", "1.80", "amd64") {
        PackageRequest::V1(request) => {
            assert_eq!(request.url, "https://a/v1/packages/binary");
            assert_eq!(
                query(&request),
                [
                    ("name", "rust"),
                    ("version", "1.80"),
                    ("architecture", "amd64"),
                    ("seen_only", "true"),
                    ("limit", "1"),
                ]
            );
        }
        PackageRequest::V0(_) => panic!("not version 0"),
    }
}

#[test]
fn answer_of_version_1_gives_an_entry() {
    let entry = v1_entry("https://a/v1", &page(vec![record(1, "a", Some(BuildStatus::Bad)), record(2, "b", None)]));
    assert_eq!(entry.url, "https://a/v1");
    assert_eq!(entry.status, Some(BuildStatus::Bad));
    assert_eq!(entry.build_id, Some(101));
    assert_eq!(entry.log_url.as_deref(), Some("https://a/v1/builds/101/log"));
    assert_eq!(
        entry.diffoscope_url.as_deref(),
        Some("https://a/v1/builds/101/artifacts/201/diffoscope")
    );
    let mut failed = record(3, "c", None);
    failed.rebuild_status = Some(BuildStatus::Fail);
    failed.build_id = None;
    let entry = v1_entry("https://a/v1", &page(vec![failed]));
    assert_eq!(entry.status, Some(BuildStatus::Fail));
    assert_eq!((entry.build_id, entry.log_url, entry.diffoscope_url), (None, None, None));
    let entry = v1_entry("https://a/v1", &page(Vec::new()));
    assert_eq!((entry.url.as_str(), entry.status, entry.build_id), ("https://a/v1", None, None));
    let entry = v1_entry("https://a/v1", &page(vec![record(4, "d", Some(BuildStatus::Good))]));
    assert_eq!(entry.diffoscope_url, None);
    assert!(entry.log_url.is_some());
}

#[test]
fn answer_of_version_0_gives_an_entry() {
    let releases = vec![
        release("a", "1", V0Status::Good),
        release("a", "2", V0Status::Bad),
        release("b", "2", V0Status::Good),
    ];
    let entry = v0_entry("https://a/v0/", &releases, "2");
    assert_eq!(entry.url, "https://a/v0/");
    assert_eq!(entry.status, Some(BuildStatus::Bad));
    assert_eq!(entry.build_id, Some(9));
    assert_eq!(entry.log_url.as_deref(), Some("https://a/v0/builds/9/log"));
    assert_eq!(entry.diffoscope_url.as_deref(), Some("https://a/v0/builds/9/diffoscope"));
    let entry = v0_entry("https://a/v0", &releases, "1");
    assert_eq!((entry.status, entry.diffoscope_url), (Some(BuildStatus::Good), None));
    let entry = v0_entry("https://a/v0", &releases, "3");
    assert_eq!((entry.status, entry.build_id, entry.log_url), (None, None, None));
    let mut unbuilt = release("c", "1", V0Status::Bad);
    unbuilt.build_id = None;
    let entry = v0_entry("https://a/v0", &vec![unbuilt], "1");
    assert_eq!((entry.status, entry.log_url, entry.diffoscope_url), (Some(BuildStatus::Bad), None, None));
}

#[test]
fn peer_without_answer_has_an_empty_entry() {
    let entry = no_entry(s("https://a"));
    assert_eq!(entry.url, "https://a");
    assert_eq!((entry.status, entry.build_id, entry.log_url, entry.diffoscope_url), (None, None, None, None));
}

#[test]
fn requests_take_parameters_and_headers() {
    let request = HttpRequest::get(s("https://a")).with_query("x", "1").with_header("H", "v").with_query("y", "2");
    assert_eq!(request.url, "https://a");
    assert_eq!(query(&request), [("x", "1"), ("y", "2")]);
    assert_eq!(request.headers, [(s("H"), s("v"))]);
}
