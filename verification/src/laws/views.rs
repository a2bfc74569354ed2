//! What the models of values show: each field as it is.

use crate::binary_package::{BinaryPackage, NewBinaryPackage};
use crate::freebsd::commits::{CommitResponse, CommitResponseView};
use crate::freebsd::packagesite::{bytes_of, contents_of, SiteError};
use crate::freebsd::pkg::{
    BinaryPackageReport, FreeBSDPkg, PackageInfo, PackageReport, Site, SourcePackageReport,
};
use crate::freebsd::sync::{
    ParsedLine, ParsedLineView, SyncRun, SyncStep, SyncStepView, Target,
};
use crate::http::HttpRequest;
use crate::peers::{
    CheckPeersRequest, NewPeerRebuilder, PeerRebuilder, PeerSha256Check, PeerStatusEntry,
    UpsertPeerSha256Check,
};
use crate::peers::api::{
    PackageListing, PackageListingView, PackageRequest, PackageRequestView, PeerBinaryPackage,
    V0PkgRelease, V1Listing,
};
use crate::peers::crosscheck::{FetchOutcome, FetchOutcomeView, PeerFetch};
use crate::peers::local::{LocalBinaryPackage, LocalPackageRow, RebuildArtifact};
use crate::peers::lookup::{LiveOutcome, LiveOutcomeView, LiveRequest, PeerPackageQuery};
use crate::peers::registry::{PeerInfo, PeerListQuery};
use crate::text::text_of;
use crate::time::time_of;
use crate::views;
use vstd::prelude::*;

verus! {

/// The model of a `BinaryPackage` shows its fields.
pub proof fn binary_package_shows_its_fields(x: BinaryPackage)
    ensures
        x@.id == x.id,
        x@.source_package_id == x.source_package_id,
        x@.build_input_id == x.build_input_id,
        x@.name == x.name@,
        x@.version == x.version@,
        x@.architecture == x.architecture@,
        x@.artifact_url == x.artifact_url@,
        x@.seen_in_last_sync == x.seen_in_last_sync,
{
}

/// The model of a `NewBinaryPackage` shows its fields.
pub proof fn new_binary_package_shows_its_fields(x: NewBinaryPackage)
    ensures
        x@.source_package_id == x.source_package_id,
        x@.build_input_id == x.build_input_id,
        x@.name == x.name@,
        x@.version == x.version@,
        x@.architecture == x.architecture@,
        x@.artifact_url == x.artifact_url@,
        x@.seen_in_last_sync == x.seen_in_last_sync,
{
}

/// The model of a `FreeBSDPkg` shows its fields.
pub proof fn freebsd_pkg_shows_its_fields(x: FreeBSDPkg)
    ensures
        x@.name == x.name@,
        x@.origin == x.origin@,
        x@.version == x.version@,
        x@.arch == x.arch@,
{
}

/// The model of a `Site` shows its fields.
pub proof fn site_shows_its_fields(x: Site)
    ensures
        x@.source == x.source@,
        x@.release == x.release@,
        x@.architecture == x.architecture@,
{
}

/// The model of a `PackageInfo` shows its fields.
pub proof fn package_info_shows_its_fields(x: PackageInfo)
    ensures
        x@.pkg == x.pkg@,
        x@.pkg_url == x.pkg_url@,
        x@.build_timestamp == time_of(x.build_timestamp),
        x@.git_hash == text_of(x.git_hash),
{
}

/// The model of a `BinaryPackageReport` shows its fields.
pub proof fn binary_package_report_shows_its_fields(x: BinaryPackageReport)
    ensures
        x@.name == x.name@,
        x@.version == x.version@,
        x@.architecture == x.architecture@,
        x@.url == x.url@,
{
}

/// The model of a `SourcePackageReport` shows its fields.
pub proof fn source_package_report_shows_its_fields(x: SourcePackageReport)
    ensures
        x@.name == x.name@,
        x@.version == x.version@,
        x@.url == x.url@,
        x@.artifacts == views(x.artifacts@),
        x@.fbsd_ports_top_git_hash == text_of(x.fbsd_ports_top_git_hash),
        x@.fbsd_build_timestamp == time_of(x.fbsd_build_timestamp),
        x@.fbsd_ports_top_git_timestamp == time_of(x.fbsd_ports_top_git_timestamp),
{
}

/// The model of a `PackageReport` shows its fields.
pub proof fn package_report_shows_its_fields(x: PackageReport)
    ensures
        x@.distribution == x.distribution@,
        x@.release == text_of(x.release),
        x@.component == text_of(x.component),
        x@.architecture == x.architecture@,
        x@.packages == views(x.packages@),
{
}

/// The model of a `SyncRun` shows its fields.
pub proof fn sync_run_shows_its_fields(x: SyncRun)
    ensures
        x@.source == x.source@,
        x@.github_token == text_of(x.github_token),
        x@.targets == views(x.targets@),
        x@.next == x.next,
        x@.reports == views(x.reports@),
{
}

/// The model of a `CheckPeersRequest` shows its fields.
pub proof fn check_peers_request_shows_its_fields(x: CheckPeersRequest)
    ensures
        x@.distribution == x.distribution@,
        x@.architecture == x.architecture@,
        x@.release == text_of(x.release),
        x@.release_alias == text_of(x.release_alias),
        x@.urls == views(x.urls@),
{
}

/// The model of a `PeerStatusEntry` shows its fields.
pub proof fn peer_status_entry_shows_its_fields(x: PeerStatusEntry)
    ensures
        x@.url == x.url@,
        x@.status == x.status,
        x@.build_id == x.build_id,
        x@.log_url == text_of(x.log_url),
        x@.diffoscope_url == text_of(x.diffoscope_url),
{
}

/// The model of a `PeerRebuilder` shows its fields.
pub proof fn peer_rebuilder_shows_its_fields(x: PeerRebuilder)
    ensures
        x@.id == x.id,
        x@.url == x.url@,
        x@.distribution == x.distribution@,
        x@.architecture == x.architecture@,
        x@.release == x.release@,
        x@.release_alias == x.release_alias@,
{
}

/// The model of a `NewPeerRebuilder` shows its fields.
pub proof fn new_peer_rebuilder_shows_its_fields(x: NewPeerRebuilder)
    ensures
        x@.url == x.url@,
        x@.distribution == x.distribution@,
        x@.architecture == x.architecture@,
        x@.release == x.release@,
        x@.release_alias == x.release_alias@,
{
}

/// The model of a `PeerSha256Check` shows its fields.
pub proof fn peer_sha_check_shows_its_fields(x: PeerSha256Check)
    ensures
        x@.id == x.id,
        x@.peer_rebuilder_id == x.peer_rebuilder_id,
        x@.binary_name == x.binary_name@,
        x@.binary_version == x.binary_version@,
        x@.peer_build_id == x.peer_build_id,
        x@.checked_at == x.checked_at@,
        x@.peer_status == text_of(x.peer_status),
{
}

/// The model of a `UpsertPeerSha256Check` shows its fields.
pub proof fn upsert_peer_sha_check_shows_its_fields(x: UpsertPeerSha256Check)
    ensures
        x@.peer_rebuilder_id == x.peer_rebuilder_id,
        x@.binary_name == x.binary_name@,
        x@.binary_version == x.binary_version@,
        x@.peer_build_id == x.peer_build_id,
        x@.checked_at == x.checked_at@,
        x@.peer_status == text_of(x.peer_status),
{
}

/// The model of a `PeerBinaryPackage` shows its fields.
pub proof fn peer_binary_package_shows_its_fields(x: PeerBinaryPackage)
    ensures
        x@.id == x.id,
        x@.name == x.name@,
        x@.version == x.version@,
        x@.status == x.status,
        x@.build_id == x.build_id,
        x@.artifact_id == x.artifact_id,
        x@.diffoscope_log_id == x.diffoscope_log_id,
        x@.rebuild_status == x.rebuild_status,
{
}

/// The model of a `V0PkgRelease` shows its fields.
pub proof fn v0_pkg_release_shows_its_fields(x: V0PkgRelease)
    ensures
        x@.name == x.name@,
        x@.version == x.version@,
        x@.status == x.status,
        x@.build_id == x.build_id,
        x@.has_diffoscope == x.has_diffoscope,
{
}

/// The model of a `V1Listing` shows its fields.
pub proof fn v1_listing_shows_its_fields(x: V1Listing)
    ensures
        x@.peer_url == x.peer_url@,
        x@.distribution == x.distribution@,
        x@.architecture == x.architecture@,
        x@.release == text_of(x.release),
        x@.after == x.after,
        x@.packages == x.packages@,
{
}

/// The model of a `PeerFetch` shows its fields.
pub proof fn peer_fetch_shows_its_fields(x: PeerFetch)
    ensures
        x@.peer_id == x.peer_id,
        x@.url == x.url@,
        x@.listing == x.listing@,
{
}

/// The model of a `LocalBinaryPackage` shows its fields.
pub proof fn local_binary_package_shows_its_fields(x: LocalBinaryPackage)
    ensures
        x@.name == x.name@,
        x@.version == x.version@,
        x@.distribution == x.distribution@,
        x@.architecture == x.architecture@,
        x@.build_input_id == x.build_input_id,
        x@.seen_in_last_sync == x.seen_in_last_sync,
{
}

/// The model of a `RebuildArtifact` shows its fields.
pub proof fn rebuild_artifact_shows_its_fields(x: RebuildArtifact)
    ensures
        x@.rebuild_id == x.rebuild_id,
        x@.name == x.name@,
        x@.status == x.status,
{
}

/// The model of a `LocalPackageRow` shows its fields.
pub proof fn local_package_row_shows_its_fields(x: LocalPackageRow)
    ensures
        x@.name == x.name@,
        x@.version == x.version@,
        x@.artifact_status == x.artifact_status,
        x@.rebuild_status == x.rebuild_status,
{
}

/// The model of a `LiveRequest` shows its fields.
pub proof fn live_request_shows_its_fields(x: LiveRequest)
    ensures
        x@.url == x.url@,
        x@.request == x.request@,
{
}

/// The model of a `PeerPackageQuery` shows its fields.
pub proof fn peer_package_query_shows_its_fields(x: PeerPackageQuery)
    ensures
        x@.distribution == x.distribution@,
        x@.architecture == x.architecture@,
        x@.name == x.name@,
        x@.version == x.version@,
        x@.live == x.live,
        x@.peer == text_of(x.peer),
{
}

/// The model of a `PeerInfo` shows its fields.
pub proof fn peer_info_shows_its_fields(x: PeerInfo)
    ensures
        x@.id == x.id,
        x@.url == x.url@,
        x@.distribution == x.distribution@,
        x@.architecture == x.architecture@,
        x@.release == x.release@,
{
}

/// The model of a `PeerListQuery` shows its fields.
pub proof fn peer_list_query_shows_its_fields(x: PeerListQuery)
    ensures
        x@.distribution == text_of(x.distribution),
        x@.architecture == text_of(x.architecture),
{
}

/// The model of optional text shows the text.
pub proof fn optional_text_shows_its_text(s: Option<String>)
    ensures
        s matches Some(text) ==> text_of(s) == Some(text@),
        s is None ==> text_of(s) is None,
{
}

/// The model of a list shows the models of its values, in their places.
pub proof fn lists_show_their_values<T: View>(list: Seq<T>)
    ensures
        views(list).len() == list.len(),
        forall|i: int| 0 <= i < list.len() ==> #[trigger] views(list)[i] == list[i]@,
{
}

/// The model of a request shows its URL, and the names and values of its parameters and headers
/// in their places.
pub proof fn requests_show_their_parts(request: HttpRequest)
    ensures
        request@.url == request.url@,
        request@.query.len() == request.query@.len(),
        forall|i: int|
            0 <= i < request.query@.len() ==> #[trigger] request@.query[i] == (
                request.query@[i].0@,
                request.query@[i].1@,
            ),
        request@.headers.len() == request.headers@.len(),
        forall|i: int|
            0 <= i < request.headers@.len() ==> #[trigger] request@.headers[i] == (
                request.headers@[i].0@,
                request.headers@[i].1@,
            ),
{
}

/// The model of a package's annotations shows them.
pub proof fn annotations_are_shown(pkg: FreeBSDPkg)
    ensures
        pkg.annotations matches Some(annotations) ==> pkg@.git_hash == text_of(
            annotations.ports_top_git_hash,
        ) && pkg@.build_timestamp == text_of(annotations.build_timestamp),
        pkg.annotations is None ==> pkg@.git_hash is None && pkg@.build_timestamp is None,
{
}

/// The models of what comes of a question show which it is, and what it holds.
pub proof fn outcomes_show_what_they_hold(
    live: LiveOutcome,
    fetch: FetchOutcome,
    response: CommitResponse,
    line: ParsedLine,
    target: Target,
)
    ensures
        match live {
            LiveOutcome::V0 { url, releases } => live@ == LiveOutcomeView::V0 {
                url: url@,
                releases: views(releases@),
            },
            LiveOutcome::V1 { url, page } => live@ == LiveOutcomeView::V1 {
                url: url@,
                records: views(page.records@),
            },
            LiveOutcome::Failed { url } => live@ == LiveOutcomeView::Failed { url: url@ },
            LiveOutcome::Lost => live@ == LiveOutcomeView::Lost,
        },
        match fetch {
            FetchOutcome::Fetched { peer_id, packages } => fetch@ == FetchOutcomeView::Fetched {
                peer_id,
                packages: packages.entries(),
            },
            FetchOutcome::Failed => fetch@ == FetchOutcomeView::Failed,
            FetchOutcome::Lost => fetch@ == FetchOutcomeView::Lost,
        },
        match response {
            CommitResponse::Unreachable => response@ == CommitResponseView::Unreachable,
            CommitResponse::Answered { success, date } => response@
                == CommitResponseView::Answered { success, date: text_of(date) },
        },
        match line {
            ParsedLine::Unreadable => line@ == ParsedLineView::Unreadable,
            ParsedLine::Package { pkg, selected } => line@ == ParsedLineView::Package {
                pkg: pkg@,
                selected,
            },
        },
        target@ == (target.release@, target.architecture@),
{
}

/// The models of questions to a peer show the version of its API, and the question.
pub proof fn questions_show_their_version(listing: PackageListing, request: PackageRequest)
    ensures
        match listing {
            PackageListing::V0(question) => listing@ == PackageListingView::V0(question@),
            PackageListing::V1(question) => listing@ == PackageListingView::V1(question@),
        },
        match request {
            PackageRequest::V0(question) => request@ == PackageRequestView::V0(question@),
            PackageRequest::V1(question) => request@ == PackageRequestView::V1(question@),
        },
{
}

/// The model of a step shows which it is, and what it holds. Of a question for a commit, the
/// commit in question comes first, then those that are asked for later.
pub proof fn steps_show_what_they_hold(step: SyncStep)
    ensures
        match step {
            SyncStep::FetchSite(fetch) => step@ == (SyncStepView::FetchSite {
                run: fetch.run@,
                site: fetch.site@,
                url: fetch.url@,
            }),
            SyncStep::ReadPackages(reading) => step@ == (SyncStepView::ReadPackages {
                run: reading.run@,
                site: reading.site@,
                lines: views(reading.lines@),
            }),
            SyncStep::AskCommit(query) => {
                &&& step@ == (SyncStepView::AskCommit {
                    run: query.run@,
                    site: query.site@,
                    infos: views(query.infos@),
                    commits: query.pending(),
                    times: query.times@,
                    request: query.request@,
                })
                &&& query.pending().len() == 1 + query.later@.len()
                &&& query.pending()[0] == query.commit@
                &&& forall|i: int|
                    0 <= i < query.later@.len() ==> query.pending()[1 + i]
                        == #[trigger] query.later@[i]@
            },
            SyncStep::Done(reports) => step@ == (SyncStepView::Done { reports: views(reports@) }),
            SyncStep::Failed(error) => step@ == (SyncStepView::Failed { error }),
        },
{
}

/// The model of fetched bytes shows them, and that of unpacked bytes shows them or the error.
pub proof fn bytes_are_shown(bytes: Vec<u8>, error: SiteError)
    ensures
        bytes_of(Some(bytes)) == Some(bytes@),
        bytes_of(None) is None,
        contents_of(Ok(Some(bytes))) == Ok::<Option<Seq<u8>>, SiteError>(Some(bytes@)),
        contents_of(Ok(None)) == Ok::<Option<Seq<u8>>, SiteError>(None),
        contents_of(Err(error)) == Err::<Option<Seq<u8>>, SiteError>(error),
{
}

} // verus!
