use rebuilderd::freebsd::commits::CommitResponse;
use rebuilderd::freebsd::packagesite::SiteError;
use rebuilderd::freebsd::pkg::{FreeBSDPkg, FreeBSDPkgAnnotations, PackageReport};
use rebuilderd::freebsd::sync::{sync, ParsedLine, SyncRequest, SyncStep};
use rebuilderd::time::Timestamp;

fn s(text: &str) -> String {
    text.to_string()
}

fn request(releases: &[&str], architectures: &[&str], token: Option<&str>) -> SyncRequest {
    SyncRequest {
        source: s("https://m"),
        releases: releases.iter().map(|r| s(r)).collect(),
        architectures: architectures.iter().map(|a| s(a)).collect(),
        github_token: token.map(s),
    }
}

fn archive(path: &str, data: &[u8]) -> Vec<u8> {
    let mut builder = tar::Builder::new(Vec::new());
    let mut header = tar::Header::new_gnu();
    header.set_size(data.len() as u64);
    header.set_mode(0o644);
    header.set_cksum();
    builder.append_data(&mut header, path, data).unwrap();
    zstd::stream::encode_all(&builder.into_inner().unwrap()[..], 3).unwrap()
}

fn pkg(name: &str, hash: Option<&str>, built: Option<&str>) -> FreeBSDPkg {
    FreeBSDPkg {
        name: s(name),
        origin: format!("devel/{name}"),
        version: s("1"),
        arch: s("any"),
        annotations: Some(FreeBSDPkgAnnotations {
            ports_top_git_hash: hash.map(s),
            build_timestamp: built.map(s),
        }),
    }
}

/// Reads a line as `name hash time`, with `-` for what is missing; packages whose name starts
/// with an underscore are not asked for.
fn parse(line: &str) -> ParsedLine {
    let parts: Vec<&str> = line.split(' ').collect();
    if parts.len() != 3 {
        return ParsedLine::Unreadable;
    }
    let hash = if parts[1] == "-" { None } else { Some(parts[1]) };
    let built = if parts[2] == "-" { None } else { Some(parts[2]) };
    ParsedLine::Package { pkg: pkg(parts[0], hash, built), selected: !parts[0].starts_with('_') }
}

/// Runs to the end, with what a site has and what GitHub answers.
fn run(
    request: SyncRequest,
    site: impl Fn(&str) -> Option<Vec<u8>>,
    github: impl Fn(&str) -> CommitResponse,
) -> (Result<Vec<PackageReport>, SiteError>, Vec<String>) {
    let mut asked = Vec::new();
    let mut step = sync(request);
    loop {
        step = match step {
            SyncStep::FetchSite(fetch) => {
                asked.push(fetch.url.clone());
                let bytes = site(&fetch.url);
                fetch.fetched(bytes)
            }
            SyncStep::ReadPackages(reading) => {
                let lines = reading.lines.iter().map(|line| parse(line)).collect();
                reading.parsed(&lines)
            }
            SyncStep::AskCommit(query) => {
                asked.push(query.request.url.clone());
                let response = github(&query.commit);
                query.answered(&response)
            }
            SyncStep::Done(reports) => return (Ok(reports), asked),
            SyncStep::Failed(error) => return (Err(error), asked),
        };
    }
}

fn unreachable_github(_: &str) -> CommitResponse {
    CommitResponse::Unreachable
}

const BUILT: &str = "2025-10-24T19:14:30+0000";

#[test]
fn every_release_is_read_on_every_architecture() {
    let (reports, asked) = run(
        request(&["13", "14"], &["amd64", "aarch64"], None),
        |_| Some(archive("packagesite.yaml", b"a - -\n")),
        unreachable_github,
    );
    assert_eq!(
        asked,
        [
            "https://m/FreeBSD:13:amd64/latest/packagesite.pkg",
            "https://m/FreeBSD:13:aarch64/latest/packagesite.pkg",
            "https://m/FreeBSD:14:amd64/latest/packagesite.pkg",
            "https://m/FreeBSD:14:aarch64/latest/packagesite.pkg",
        ]
    );
    let reports = reports.unwrap();
    let sites: Vec<(Option<&str>, &str)> =
        reports.iter().map(|r| (r.release.as_deref(), r.architecture.as_str())).collect();
    assert_eq!(
        sites,
        [
            (Some("13"), "amd64"),
            (Some("13"), "aarch64"),
            (Some("14"), "amd64"),
            (Some("14"), "aarch64"),
        ]
    );
    for report in &reports {
        assert_eq!(report.distribution, "freebsd");
        assert_eq!(report.component, None);
        assert_eq!(report.packages.len(), 1);
    }
}

#[test]
fn nothing_to_read_is_done_at_once() {
    for (releases, architectures) in [(vec![], vec!["amd64"]), (vec!["14"], vec![])] {
        let (reports, asked) =
            run(request(&releases, &architectures, None), |_| None, unreachable_github);
        assert!(reports.unwrap().is_empty() && asked.is_empty());
    }
}

#[test]
fn missing_sites_are_passed_over() {
    let (reports, asked) = run(
        request(&["12", "13", "14"], &["amd64"], None),
        |url| {
            if url.contains(":12:") {
                None
            } else if url.contains(":13:") {
                Some(archive("other", b"x"))
            } else {
                Some(archive("packagesite.yaml", b""))
            }
        },
        unreachable_github,
    );
    let reports = reports.unwrap();
    assert_eq!(asked.len(), 3);
    assert_eq!(reports.len(), 1);
    assert_eq!(reports[0].release.as_deref(), Some("14"));
    assert!(reports[0].packages.is_empty());
}

#[test]
fn unreadable_list_ends_the_run() {
    let (reports, _) = run(
        request(&["13", "14"], &["amd64"], None),
        |_| Some(b"junk".to_vec()),
        unreachable_github,
    );
    assert_eq!(reports.err(), Some(SiteError::Archive));
    let (reports, _) = run(
        request(&["14"], &["amd64"], None),
        |_| Some(archive("packagesite.yaml", b"a - -\n\xff\n")),
        unreachable_github,
    );
    assert_eq!(reports.err(), Some(SiteError::NotText));
}

#[test]
fn unreadable_and_unwanted_packages_are_left_out() {
    let (reports, _) = run(
        request(&["14"], &["amd64"], None),
        |_| Some(archive("packagesite.yaml", b"a - -\n\nnonsense\r\n_b - -\nc - -")),
        unreachable_github,
    );
    let names: Vec<String> =
        reports.unwrap()[0].packages.iter().map(|package| package.name.clone()).collect();
    assert_eq!(names, ["devel/a", "devel/c"]);
}

#[test]
fn without_a_token_builds_stand_for_commits() {
    let list = format!("a x {BUILT}\nb x 2025-10-24T19:14:31+0000\nc y -\n");
    let (reports, asked) = run(
        request(&["14"], &["amd64"], None),
        |_| Some(archive("packagesite.yaml", list.as_bytes())),
        |_| panic!("GitHub is not asked"),
    );
    assert_eq!(asked.len(), 1);
    let packages = &reports.unwrap()[0].packages;
    let built = Timestamp::new(1761333270, 0);
    assert_eq!(packages[0].fbsd_build_timestamp, built);
    assert_eq!(packages[0].fbsd_ports_top_git_timestamp, built);
    assert_eq!(packages[1].fbsd_ports_top_git_timestamp, built);
    assert_eq!(packages[2].fbsd_ports_top_git_hash.as_deref(), Some("y"));
    assert_eq!(packages[2].fbsd_ports_top_git_timestamp, None);
}

#[test]
fn with_a_token_github_is_asked() {
    let list = format!("a x {BUILT}\nb y {BUILT}\nc x {BUILT}\nd z -\ne w -\n");
    let (reports, asked) = run(
        request(&["14"], &["amd64"], Some("token")),
        |_| Some(archive("packagesite.yaml", list.as_bytes())),
        |commit| match commit {
            "x" => CommitResponse::Answered { success: true, date: Some(s("2025-10-01T00:00:00Z")) },
            "y" => CommitResponse::Answered { success: false, date: Some(s("2025-10-01T00:00:00Z")) },
            "z" => CommitResponse::Answered { success: true, date: Some(s("2025-10-02T00:00:00Z")) },
            _ => CommitResponse::Unreachable,
        },
    );
    let commits: Vec<&str> = asked[1..].iter().map(|url| url.rsplit('/').next().unwrap()).collect();
    assert_eq!(commits, ["x", "y", "z", "w"]);
    let packages = &reports.unwrap()[0].packages;
    let (built, first, second) =
        (Timestamp::new(1761333270, 0), Timestamp::new(1759276800, 0), Timestamp::new(1759363200, 0));
    assert_eq!(packages[0].fbsd_ports_top_git_timestamp, first);
    assert_eq!(packages[1].fbsd_ports_top_git_timestamp, built);
    assert_eq!(packages[2].fbsd_ports_top_git_timestamp, first);
    assert_eq!(packages[3].fbsd_ports_top_git_timestamp, second);
    assert_eq!(packages[4].fbsd_ports_top_git_timestamp, None);
}

#[test]
fn commits_can_be_dated_directly() {
    let step = sync(request(&["14"], &["amd64"], Some("token")));
    let step = match step {
        SyncStep::FetchSite(fetch) => fetch.unpacked(Ok(Some(b"a x -\n".to_vec()))),
        _ => panic!("no site to fetch"),
    };
    let step = match step {
        SyncStep::ReadPackages(reading) => {
            assert_eq!(reading.lines, ["a x -"]);
            let lines = vec![parse(&reading.lines[0])];
            reading.parsed(&lines)
        }
        _ => panic!("no packages to read"),
    };
    let query = match step {
        SyncStep::AskCommit(query) => query,
        _ => panic!("no commit to ask for"),
    };
    assert_eq!(query.commit, "x");
    assert_eq!(query.request.headers[0].1, "Bearer token");
    match query.dated(Timestamp::new(5, 0)) {
        SyncStep::Done(reports) => {
            assert_eq!(reports[0].packages[0].fbsd_ports_top_git_timestamp, Timestamp::new(5, 0));
        }
        _ => panic!("not done"),
    }
}
