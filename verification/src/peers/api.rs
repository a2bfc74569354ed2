//! What is asked of a peer's API, in its versions 0 and 1, and what is made of the answers.

use super::{PeerStatusEntry, PeerStatusEntryView};
use crate::http::{HttpRequest, HttpRequestView};
use crate::packages::{as_map, pages_add_up, with_entries, PackageKey, PackageMap};
use crate::status::BuildStatus;
use crate::text::{
    contains, contains_text, decimal, ends_with, ends_with_text, push_decimal, same_text, text_of,
    trim_end_matches, trimmed_end,
};
use crate::views;
use vstd::prelude::*;

verus! {

// ---------------------------------------------------------------------------
// URLs
// ---------------------------------------------------------------------------

/// A peer's URL without the slashes at its end.
pub open spec fn base_url(url: Seq<char>) -> Seq<char> {
    trimmed_end(url, '/')
}

/// Where a peer has what belongs to a build.
pub open spec fn build_url(url: Seq<char>, build_id: i32, what: Seq<char>) -> Seq<char> {
    base_url(url) + "/builds/"@ + decimal(build_id as int) + what
}

/// Where a peer has the log of a build.
pub open spec fn log_url(url: Seq<char>, build_id: i32) -> Seq<char> {
    build_url(url, build_id, "/log"@)
}

/// Where a peer has the diffoscope output of a build.
pub open spec fn diffoscope_url(url: Seq<char>, build_id: i32) -> Seq<char> {
    build_url(url, build_id, "/diffoscope"@)
}

/// Where a peer has the diffoscope output of an artifact of a build.
pub open spec fn artifact_diffoscope_url(
    url: Seq<char>,
    build_id: i32,
    artifact_id: i32,
) -> Seq<char> {
    build_url(url, build_id, "/artifacts/"@ + decimal(artifact_id as int) + "/diffoscope"@)
}

/// A URL of version 0 of the API.
pub open spec fn v0_url(url: Seq<char>) -> bool {
    ends_with_text(base_url(url), "/v0"@) || contains_text(base_url(url), "/v0/"@)
}

/// Slashes at the end of a peer's URL make no difference to which version of the API it is
/// and to what is looked for there.
pub proof fn trailing_slash_is_ignored(url: Seq<char>, build_id: i32, what: Seq<char>)
    ensures
        base_url(url.push('/')) == base_url(url),
        v0_url(url.push('/')) == v0_url(url),
        build_url(url.push('/'), build_id, what) == build_url(url, build_id, what),
{
    assert(url.push('/').drop_last() =~= url);
}

/// The text of `url` without the slashes at its end, followed by `path`.
fn join_url(url: &str, path: &str) -> (r: String)
    ensures
        r@ == base_url(url@) + path@,
{
    let mut joined = trim_end_matches(url, '/');
    joined.append(path);
    joined
}

/// Where a peer has what belongs to a build.
fn join_build_url(url: &str, build_id: i32, what: &str) -> (r: String)
    ensures
        r@ == build_url(url@, build_id, what@),
{
    let mut joined = join_url(url, "/builds/");
    push_decimal(&mut joined, build_id);
    joined.append(what);
    joined
}

/// Where a peer has the log of a build.
pub fn build_log_url(url: &str, build_id: i32) -> (r: String)
    ensures
        r@ == log_url(url@, build_id),
{
    join_build_url(url, build_id, "/log")
}

/// Where a peer has the diffoscope output of a build.
pub fn build_diffoscope_url(url: &str, build_id: i32) -> (r: String)
    ensures
        r@ == diffoscope_url(url@, build_id),
{
    join_build_url(url, build_id, "/diffoscope")
}

/// Where a peer with version 0 of the API has the log and, if the build is bad and there is
/// one, the diffoscope output of a build.
pub fn v0_urls(peer_url: &str, build_id: i32, has_diffoscope: bool, is_bad: bool) -> (r: (
    Option<String>,
    Option<String>,
))
    ensures
        text_of(r.0) == Some(log_url(peer_url@, build_id)),
        text_of(r.1) == if is_bad && has_diffoscope {
            Some(diffoscope_url(peer_url@, build_id))
        } else {
            None
        },
{
    let log = Some(build_log_url(peer_url, build_id));
    let diffoscope = if is_bad && has_diffoscope {
        Some(build_diffoscope_url(peer_url, build_id))
    } else {
        None
    };
    (log, diffoscope)
}

/// Where a peer with version 1 of the API has the log and, if the build is bad and there is
/// one, the diffoscope output of an artifact of a build.
pub fn v1_urls(
    peer_url: &str,
    build_id: i32,
    artifact_id: Option<i32>,
    diffoscope_log_id: Option<i32>,
    is_bad: bool,
) -> (r: (Option<String>, Option<String>))
    ensures
        text_of(r.0) == Some(log_url(peer_url@, build_id)),
        text_of(r.1) == if is_bad && artifact_id is Some && diffoscope_log_id is Some {
            Some(artifact_diffoscope_url(peer_url@, build_id, artifact_id->0))
        } else {
            None
        },
{
    let log = Some(build_log_url(peer_url, build_id));
    if is_bad && diffoscope_log_id.is_some() {
        if let Some(artifact_id) = artifact_id {
            let mut what = String::new();
            what.append("/artifacts/");
            push_decimal(&mut what, artifact_id);
            what.append("/diffoscope");
            proof {
                assert(what@ =~= "/artifacts/"@ + decimal(artifact_id as int)
                    + "/diffoscope"@);
            }
            return (log, Some(join_build_url(peer_url, build_id, what.as_str())));
        }
    }
    (log, None)
}

/// Whether a URL is one of version 0 of the API.
pub fn is_v0_url(url: &str) -> (r: bool)
    ensures
        r == v0_url(url@),
{
    let trimmed = trim_end_matches(url, '/');
    ends_with(trimmed.as_str(), "/v0") || contains(trimmed.as_str(), "/v0/")
}

// ---------------------------------------------------------------------------
// What peers report
// ---------------------------------------------------------------------------

/// What a peer knows of a package.
#[derive(Debug, Clone, Copy)]
pub struct PeerPkgInfo {
    pub status: BuildStatus,
    pub peer_build_id: Option<i32>,
}

/// A binary package in an answer of version 1 of the API.
#[derive(Debug)]
pub struct PeerBinaryPackage {
    pub id: i32,
    pub name: String,
    pub version: String,
    pub status: Option<BuildStatus>,
    pub build_id: Option<i32>,
    pub artifact_id: Option<i32>,
    pub diffoscope_log_id: Option<i32>,
    pub rebuild_status: Option<BuildStatus>,
}

#[verifier::ext_equal]
pub struct PeerBinaryPackageView {
    pub id: i32,
    pub name: Seq<char>,
    pub version: Seq<char>,
    pub status: Option<BuildStatus>,
    pub build_id: Option<i32>,
    pub artifact_id: Option<i32>,
    pub diffoscope_log_id: Option<i32>,
    pub rebuild_status: Option<BuildStatus>,
}

impl View for PeerBinaryPackage {
    type V = PeerBinaryPackageView;

    open spec fn view(&self) -> PeerBinaryPackageView {
        PeerBinaryPackageView {
            id: self.id,
            name: self.name@,
            version: self.version@,
            status: self.status,
            build_id: self.build_id,
            artifact_id: self.artifact_id,
            diffoscope_log_id: self.diffoscope_log_id,
            rebuild_status: self.rebuild_status,
        }
    }
}

/// An answer of version 1 of the API.
#[derive(Debug)]
pub struct PeerResultPage {
    pub total: Option<i64>,
    pub records: Vec<PeerBinaryPackage>,
}

/// A status in an answer of version 0 of the API.
#[derive(Debug, Clone, Copy, PartialEq, Eq, Structural)]
pub enum V0Status {
    Good,
    Bad,
    Unknown,
}

/// A package in an answer of version 0 of the API.
#[derive(Debug)]
pub struct V0PkgRelease {
    pub name: String,
    pub version: String,
    pub status: V0Status,
    pub build_id: Option<i32>,
    pub has_diffoscope: bool,
}

#[verifier::ext_equal]
pub struct V0PkgReleaseView {
    pub name: Seq<char>,
    pub version: Seq<char>,
    pub status: V0Status,
    pub build_id: Option<i32>,
    pub has_diffoscope: bool,
}

impl View for V0PkgRelease {
    type V = V0PkgReleaseView;

    open spec fn view(&self) -> V0PkgReleaseView {
        V0PkgReleaseView {
            name: self.name@,
            version: self.version@,
            status: self.status,
            build_id: self.build_id,
            has_diffoscope: self.has_diffoscope,
        }
    }
}

/// The build status that a status of version 0 stands for.
pub open spec fn v0_build_status(status: V0Status) -> BuildStatus {
    match status {
        V0Status::Good => BuildStatus::Good,
        V0Status::Bad => BuildStatus::Bad,
        V0Status::Unknown => BuildStatus::Unknown,
    }
}

/// The build status that a status of version 0 stands for.
pub fn v0_to_build_status(status: V0Status) -> (r: BuildStatus)
    ensures
        r == v0_build_status(status),
{
    match status {
        V0Status::Good => BuildStatus::Good,
        V0Status::Bad => BuildStatus::Bad,
        V0Status::Unknown => BuildStatus::Unknown,
    }
}

/// The status of the artifact or, where there is none, that of the whole rebuild.
pub open spec fn known_status(
    artifact: Option<BuildStatus>,
    rebuild: Option<BuildStatus>,
) -> Option<BuildStatus> {
    if artifact is Some {
        artifact
    } else {
        rebuild
    }
}

/// The known status, or that it is unknown.
pub open spec fn effective_status(
    artifact: Option<BuildStatus>,
    rebuild: Option<BuildStatus>,
) -> BuildStatus {
    match known_status(artifact, rebuild) {
        Some(status) => status,
        None => BuildStatus::Unknown,
    }
}

/// The status of the artifact or, where there is none, that of the whole rebuild.
pub fn status_or_rebuild(artifact: Option<BuildStatus>, rebuild: Option<BuildStatus>) -> (r: Option<
    BuildStatus,
>)
    ensures
        r == known_status(artifact, rebuild),
{
    match artifact {
        Some(status) => Some(status),
        None => rebuild,
    }
}

/// The known status, or that it is unknown.
pub fn status_or_unknown(artifact: Option<BuildStatus>, rebuild: Option<BuildStatus>) -> (r:
    BuildStatus)
    ensures
        r == effective_status(artifact, rebuild),
{
    match status_or_rebuild(artifact, rebuild) {
        Some(status) => status,
        None => BuildStatus::Unknown,
    }
}

/// What an entry of a peer says of the package.
pub open spec fn v1_package(record: PeerBinaryPackageView) -> (PackageKey, PeerPkgInfo) {
    (
        (record.name, record.version),
        PeerPkgInfo {
            status: effective_status(record.status, record.rebuild_status),
            peer_build_id: record.build_id,
        },
    )
}

/// What an entry of a peer says of the package.
pub open spec fn v0_package(release: V0PkgReleaseView) -> (PackageKey, PeerPkgInfo) {
    (
        (release.name, release.version),
        PeerPkgInfo {
            status: v0_build_status(release.status),
            peer_build_id: release.build_id,
        },
    )
}

/// What the records of a page say.
pub open spec fn v1_packages(records: Seq<PeerBinaryPackageView>) -> Seq<
    (PackageKey, PeerPkgInfo),
> {
    records.map_values(|record: PeerBinaryPackageView| v1_package(record))
}

/// What the packages of a list say.
pub open spec fn v0_list(releases: Seq<V0PkgReleaseView>) -> Seq<(PackageKey, PeerPkgInfo)> {
    releases.map_values(|release: V0PkgReleaseView| v0_package(release))
}

// ---------------------------------------------------------------------------
// All packages of a peer
// ---------------------------------------------------------------------------

/// How many packages are asked for at a time.
pub const PAGE_LIMIT: i32 = 1000;

/// A number as the value of a query parameter.
fn number(n: i32) -> (r: String)
    ensures
        r@ == decimal(n as int),
{
    let mut text = String::new();
    push_decimal(&mut text, n);
    proof {
        assert(text@ =~= decimal(n as int));
    }
    text
}

/// The list of all packages of a peer, as far as it has come in.
pub struct V1Listing {
    pub peer_url: String,
    pub distribution: String,
    pub architecture: String,
    /// The peer's name of the release, or `None` to ask for all releases.
    pub release: Option<String>,
    /// The id of the last package that has come in.
    pub after: Option<i32>,
    pub packages: PackageMap<PeerPkgInfo>,
}

#[verifier::ext_equal]
pub struct V1ListingView {
    pub peer_url: Seq<char>,
    pub distribution: Seq<char>,
    pub architecture: Seq<char>,
    pub release: Option<Seq<char>>,
    pub after: Option<i32>,
    pub packages: Map<PackageKey, PeerPkgInfo>,
}

impl View for V1Listing {
    type V = V1ListingView;

    open spec fn view(&self) -> V1ListingView {
        V1ListingView {
            peer_url: self.peer_url@,
            distribution: self.distribution@,
            architecture: self.architecture@,
            release: text_of(self.release),
            after: self.after,
            packages: self.packages@,
        }
    }
}

impl V1ListingView {
    /// The request for the next page.
    pub open spec fn request(self) -> HttpRequestView {
        let fixed = seq![
            ("distribution"@, self.distribution),
            ("architecture"@, self.architecture),
            ("seen_only"@, "true"@),
            ("limit"@, decimal(PAGE_LIMIT as int)),
        ];
        let paged = match self.after {
            Some(after) => fixed.push(("after"@, decimal(after as int))),
            None => fixed,
        };
        HttpRequestView {
            url: base_url(self.peer_url) + "/packages/binary"@,
            query: match self.release {
                Some(release) => paged.push(("release"@, release)),
                None => paged,
            },
            headers: Seq::empty(),
        }
    }

    /// The list with one more page.
    pub open spec fn with_page(self, records: Seq<PeerBinaryPackageView>) -> V1ListingView {
        V1ListingView {
            after: if records.len() > 0 {
                Some(records.last().id)
            } else {
                None
            },
            packages: with_entries(self.packages, v1_packages(records)),
            ..self
        }
    }
}

/// How a list goes on after a page.
pub enum V1Step {
    /// There may be more: ask for the next page.
    Next(V1Listing),
    /// All packages have come in.
    Done(PackageMap<PeerPkgInfo>),
}

impl V1Listing {
    /// A list that is still to come in.
    pub fn new(
        peer_url: &str,
        distribution: &str,
        architecture: &str,
        release: Option<String>,
    ) -> (r: V1Listing)
        ensures
            r@ == (V1ListingView {
                peer_url: peer_url@,
                distribution: distribution@,
                architecture: architecture@,
                release: text_of(release),
                after: None,
                packages: Map::empty(),
            }),
    {
        V1Listing {
            peer_url: peer_url.to_owned(),
            distribution: distribution.to_owned(),
            architecture: architecture.to_owned(),
            release,
            after: None,
            packages: PackageMap::new(),
        }
    }

    /// The request for the next page.
    pub fn request(&self) -> (r: HttpRequest)
        ensures
            r@ == self@.request(),
    {
        let fixed = HttpRequest::get(
            join_url(self.peer_url.as_str(), "/packages/binary"),
        ).with_query("distribution", self.distribution.as_str()).with_query(
            "architecture",
            self.architecture.as_str(),
        ).with_query("seen_only", "true").with_query("limit", number(PAGE_LIMIT).as_str());
        let paged = match self.after {
            Some(after) => fixed.with_query("after", number(after).as_str()),
            None => fixed,
        };
        match &self.release {
            Some(release) => paged.with_query("release", release.as_str()),
            None => paged,
        }
    }

    /// Takes in a page. A full page means that there may be more after its last package.
    pub fn page(self, page: &PeerResultPage) -> (r: V1Step)
        ensures
            match r {
                V1Step::Next(next) => page.records@.len() >= PAGE_LIMIT && next@
                    == self@.with_page(views(page.records@)),
                V1Step::Done(packages) => page.records@.len() < PAGE_LIMIT && packages@
                    == self@.with_page(views(page.records@)).packages,
            },
    {
        let ghost records = views(page.records@);
        let ghost listing = self@;
        let ghost entries = v1_packages(records);
        let mut packages = self.packages;
        let mut i: usize = 0;
        proof {
            assert(entries.take(0) =~= Seq::<(PackageKey, PeerPkgInfo)>::empty());
        }
        while i < page.records.len()
            invariant
                i <= page.records@.len(),
                records == views(page.records@),
                entries == v1_packages(records),
                packages@ == with_entries(listing.packages, entries.take(i as int)),
            decreases page.records@.len() - i,
        {
            let record = &page.records[i];
            proof {
                assert(entries.take(i + 1).drop_last() =~= entries.take(i as int));
                assert(entries.take(i + 1).last() == v1_package(record@));
            }
            packages = packages.insert(
                record.name.clone(),
                record.version.clone(),
                PeerPkgInfo {
                    status: status_or_unknown(record.status, record.rebuild_status),
                    peer_build_id: record.build_id,
                },
            );
            i += 1;
        }
        proof {
            assert(entries.take(i as int) =~= entries);
        }
        if i < PAGE_LIMIT as usize {
            V1Step::Done(packages)
        } else {
            V1Step::Next(
                V1Listing {
                    peer_url: self.peer_url,
                    distribution: self.distribution,
                    architecture: self.architecture,
                    release: self.release,
                    after: Some(page.records[i - 1].id),
                    packages,
                },
            )
        }
    }
}

/// It makes no difference how a peer spreads its packages over pages: two pages say what one
/// page with the packages of both would, and the next request goes on after the last of them.
pub proof fn paging_is_transparent(
    listing: V1ListingView,
    first: Seq<PeerBinaryPackageView>,
    second: Seq<PeerBinaryPackageView>,
)
    requires
        second.len() > 0,
    ensures
        listing.with_page(first).with_page(second) == listing.with_page(first + second),
{
    pages_add_up(listing.packages, v1_packages(first), v1_packages(second));
    assert(v1_packages(first) + v1_packages(second) =~= v1_packages(first + second));
}

/// How all packages of a peer are asked for.
pub enum PackageListing {
    /// With one request, whose answer is a list of packages.
    V0(HttpRequest),
    /// Page by page.
    V1(V1Listing),
}

#[verifier::ext_equal]
pub enum PackageListingView {
    V0(HttpRequestView),
    V1(V1ListingView),
}

impl View for PackageListing {
    type V = PackageListingView;

    open spec fn view(&self) -> PackageListingView {
        match self {
            PackageListing::V0(request) => PackageListingView::V0(request@),
            PackageListing::V1(listing) => PackageListingView::V1(listing@),
        }
    }
}

/// How all packages of a peer are asked for: by the version of the API that its URL names.
/// Version 0 knows neither distributions nor releases.
pub open spec fn package_listing(
    peer_url: Seq<char>,
    distribution: Seq<char>,
    architecture: Seq<char>,
    release: Option<Seq<char>>,
) -> PackageListingView {
    if v0_url(peer_url) {
        PackageListingView::V0(
            HttpRequestView {
                url: base_url(peer_url) + "/pkgs/list"@,
                query: seq![("architecture"@, architecture)],
                headers: Seq::empty(),
            },
        )
    } else {
        PackageListingView::V1(
            V1ListingView {
                peer_url,
                distribution,
                architecture,
                release,
                after: None,
                packages: Map::empty(),
            },
        )
    }
}

/// How all packages of a peer are asked for.
pub fn list_packages(
    peer_url: &str,
    distribution: &str,
    architecture: &str,
    release: Option<String>,
) -> (r: PackageListing)
    ensures
        r@ == package_listing(peer_url@, distribution@, architecture@, text_of(release)),
{
    if is_v0_url(peer_url) {
        PackageListing::V0(
            HttpRequest::get(join_url(peer_url, "/pkgs/list")).with_query(
                "architecture",
                architecture,
            ),
        )
    } else {
        PackageListing::V1(V1Listing::new(peer_url, distribution, architecture, release))
    }
}

/// What a peer with version 0 of the API knows of its packages.
pub fn v0_packages(releases: &Vec<V0PkgRelease>) -> (r: PackageMap<PeerPkgInfo>)
    ensures
        r@ == as_map(v0_list(views(releases@))),
{
    let ghost entries = v0_list(views(releases@));
    let mut packages: PackageMap<PeerPkgInfo> = PackageMap::new();
    let mut i: usize = 0;
    proof {
        assert(entries.take(0) =~= Seq::<(PackageKey, PeerPkgInfo)>::empty());
    }
    while i < releases.len()
        invariant
            i <= releases@.len(),
            entries == v0_list(views(releases@)),
            packages@ == as_map(entries.take(i as int)),
        decreases releases@.len() - i,
    {
        let release = &releases[i];
        proof {
            assert(entries.take(i + 1).drop_last() =~= entries.take(i as int));
            assert(entries.take(i + 1).last() == v0_package(release@));
        }
        packages = packages.insert(
            release.name.clone(),
            release.version.clone(),
            PeerPkgInfo {
                status: v0_to_build_status(release.status),
                peer_build_id: release.build_id,
            },
        );
        i += 1;
    }
    proof {
        assert(entries.take(i as int) =~= entries);
    }
    packages
}

// ---------------------------------------------------------------------------
// One package of a peer
// ---------------------------------------------------------------------------

/// How one package is asked for.
pub enum PackageRequest {
    V0(HttpRequest),
    V1(HttpRequest),
}

#[verifier::ext_equal]
pub enum PackageRequestView {
    V0(HttpRequestView),
    V1(HttpRequestView),
}

impl View for PackageRequest {
    type V = PackageRequestView;

    open spec fn view(&self) -> PackageRequestView {
        match self {
            PackageRequest::V0(request) => PackageRequestView::V0(request@),
            PackageRequest::V1(request) => PackageRequestView::V1(request@),
        }
    }
}

/// How one package is asked for: by the version of the API that the peer's URL names.
/// Version 0 knows no versions of packages.
pub open spec fn package_request(
    peer_url: Seq<char>,
    name: Seq<char>,
    version: Seq<char>,
    architecture: Seq<char>,
) -> PackageRequestView {
    if v0_url(peer_url) {
        PackageRequestView::V0(
            HttpRequestView {
                url: base_url(peer_url) + "/pkgs/list"@,
                query: seq![("name"@, name), ("architecture"@, architecture)],
                headers: Seq::empty(),
            },
        )
    } else {
        PackageRequestView::V1(
            HttpRequestView {
                url: base_url(peer_url) + "/packages/binary"@,
                query: seq![
                    ("name"@, name),
                    ("version"@, version),
                    ("architecture"@, architecture),
                    ("seen_only"@, "true"@),
                    ("limit"@, "1"@),
                ],
                headers: Seq::empty(),
            },
        )
    }
}

/// The entry of a peer that has not built the package, or has not answered.
pub open spec fn unknown_entry(url: Seq<char>) -> PeerStatusEntryView {
    PeerStatusEntryView {
        url,
        status: None,
        build_id: None,
        log_url: None,
        diffoscope_url: None,
    }
}

/// The entry that the answer of a peer with version 1 of the API gives: it is about the
/// first record, if there is one.
pub open spec fn v1_entry_of(
    url: Seq<char>,
    records: Seq<PeerBinaryPackageView>,
) -> PeerStatusEntryView {
    if records.len() == 0 {
        unknown_entry(url)
    } else {
        let record = records[0];
        let status = known_status(record.status, record.rebuild_status);
        PeerStatusEntryView {
            url,
            status,
            build_id: record.build_id,
            log_url: match record.build_id {
                Some(build_id) => Some(log_url(url, build_id)),
                None => None,
            },
            diffoscope_url: match (record.build_id, record.artifact_id) {
                (Some(build_id), Some(artifact_id)) => if status == Some(BuildStatus::Bad)
                    && record.diffoscope_log_id is Some {
                    Some(artifact_diffoscope_url(url, build_id, artifact_id))
                } else {
                    None
                },
                _ => None,
            },
        }
    }
}

/// The first package of a list with the given version.
pub open spec fn with_version(releases: Seq<V0PkgReleaseView>, version: Seq<char>) -> Option<
    V0PkgReleaseView,
>
    decreases releases.len(),
{
    if releases.len() == 0 {
        None
    } else if releases.first().version == version {
        Some(releases.first())
    } else {
        with_version(releases.drop_first(), version)
    }
}

/// The entry that the answer of a peer with version 0 of the API gives: it is about the
/// first package with the version in question, if there is one.
pub open spec fn v0_entry_of(
    url: Seq<char>,
    releases: Seq<V0PkgReleaseView>,
    version: Seq<char>,
) -> PeerStatusEntryView {
    match with_version(releases, version) {
        None => unknown_entry(url),
        Some(release) => {
            let status = v0_build_status(release.status);
            PeerStatusEntryView {
                url,
                status: Some(status),
                build_id: release.build_id,
                log_url: match release.build_id {
                    Some(build_id) => Some(log_url(url, build_id)),
                    None => None,
                },
                diffoscope_url: match release.build_id {
                    Some(build_id) => if status == BuildStatus::Bad && release.has_diffoscope {
                        Some(diffoscope_url(url, build_id))
                    } else {
                        None
                    },
                    None => None,
                },
            }
        },
    }
}

/// The entry of a peer that has not built the package, or has not answered.
pub fn no_entry(url: String) -> (r: PeerStatusEntry)
    ensures
        r@ == unknown_entry(url@),
{
    PeerStatusEntry { url, status: None, build_id: None, log_url: None, diffoscope_url: None }
}

/// How one package is asked for.
pub fn request_package(peer_url: &str, name: &str, version: &str, architecture: &str) -> (r:
    PackageRequest)
    ensures
        r@ == package_request(peer_url@, name@, version@, architecture@),
{
    if is_v0_url(peer_url) {
        PackageRequest::V0(
            HttpRequest::get(join_url(peer_url, "/pkgs/list")).with_query("name", name).with_query(
                "architecture",
                architecture,
            ),
        )
    } else {
        PackageRequest::V1(
            HttpRequest::get(join_url(peer_url, "/packages/binary")).with_query(
                "name",
                name,
            ).with_query("version", version).with_query("architecture", architecture).with_query(
                "seen_only",
                "true",
            ).with_query("limit", "1"),
        )
    }
}

/// The entry that the answer of a peer with version 1 of the API gives.
pub fn v1_entry(peer_url: &str, page: &PeerResultPage) -> (r: PeerStatusEntry)
    ensures
        r@ == v1_entry_of(peer_url@, views(page.records@)),
{
    if page.records.len() == 0 {
        return no_entry(peer_url.to_owned());
    }
    let record = &page.records[0];
    let status = status_or_rebuild(record.status, record.rebuild_status);
    let is_bad = match status {
        Some(status) => status == BuildStatus::Bad,
        None => false,
    };
    let (log, diffoscope) = match record.build_id {
        Some(build_id) => v1_urls(
            peer_url,
            build_id,
            record.artifact_id,
            record.diffoscope_log_id,
            is_bad,
        ),
        None => (None, None),
    };
    PeerStatusEntry {
        url: peer_url.to_owned(),
        status,
        build_id: record.build_id,
        log_url: log,
        diffoscope_url: diffoscope,
    }
}

/// The entry that the answer of a peer with version 0 of the API gives.
pub fn v0_entry(peer_url: &str, releases: &Vec<V0PkgRelease>, version: &str) -> (r:
    PeerStatusEntry)
    ensures
        r@ == v0_entry_of(peer_url@, views(releases@), version@),
{
    let ghost all = views(releases@);
    let mut i: usize = 0;
    proof {
        assert(all.skip(0) =~= all);
    }
    while i < releases.len()
        invariant
            i <= releases@.len(),
            all == views(releases@),
            with_version(all.skip(i as int), version@) == with_version(all, version@),
        decreases releases@.len() - i,
    {
        let release = &releases[i];
        proof {
            assert(all.skip(i as int).first() == release@);
            assert(all.skip(i as int).drop_first() =~= all.skip(i + 1));
        }
        if same_text(release.version.as_str(), version) {
            let status = v0_to_build_status(release.status);
            let is_bad = status == BuildStatus::Bad;
            let (log, diffoscope) = match release.build_id {
                Some(build_id) => v0_urls(peer_url, build_id, release.has_diffoscope, is_bad),
                None => (None, None),
            };
            return PeerStatusEntry {
                url: peer_url.to_owned(),
                status: Some(status),
                build_id: release.build_id,
                log_url: log,
                diffoscope_url: diffoscope,
            };
        }
        i += 1;
    }
    no_entry(peer_url.to_owned())
}

/// An entry links to a log exactly where it has a build, and to diffoscope output only where
/// the peer has reported the package as bad.
pub open spec fn links_are_backed(entry: PeerStatusEntryView) -> bool {
    &&& entry.log_url is Some <==> entry.build_id is Some
    &&& entry.diffoscope_url is Some ==> entry.status == Some(BuildStatus::Bad)
        && entry.build_id is Some
}

/// The entries that answers of peers give have no links without what they link to.
pub proof fn answers_back_their_links(
    url: Seq<char>,
    records: Seq<PeerBinaryPackageView>,
    releases: Seq<V0PkgReleaseView>,
    version: Seq<char>,
)
    ensures
        links_are_backed(v1_entry_of(url, records)),
        links_are_backed(v0_entry_of(url, releases, version)),
        links_are_backed(unknown_entry(url)),
{
}

} // verus!
