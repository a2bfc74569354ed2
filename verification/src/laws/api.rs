//! What holds of the questions to peers and of their answers.

use super::tables::{entries_replace_what_is_known, last_entry_counts, nothing_else_is_known};
use super::text::{
    contained_parts_stand_in_between, last_parts_are_completed, run_of, surrounds,
};
use crate::packages::as_map;
use crate::peers::api::{
    artifact_diffoscope_url, base_url, diffoscope_url, log_url, package_listing,
    package_request, unknown_entry, v0_entry_of, v0_list, v0_url, v1_entry_of, v1_packages,
    with_version, PackageListingView, PackageRequestView, PeerBinaryPackageView, V0PkgReleaseView,
    V0Status, V1ListingView, PAGE_LIMIT,
};
use crate::status::BuildStatus;
use crate::text::decimal;
use vstd::prelude::*;

verus! {

// ---------------------------------------------------------------------------
// URLs
// ---------------------------------------------------------------------------

/// Text that does not end in a slash.
pub open spec fn no_slash_at_end(s: Seq<char>) -> bool {
    s.len() > 0 ==> s.last() != '/'
}

/// Slashes at the end of a URL are taken off, all of them and nothing else.
proof fn slashes_come_off(url: Seq<char>, n: int)
    requires
        no_slash_at_end(url),
        n >= 0,
    ensures
        base_url(url + run_of('/', n)) == url,
    decreases n,
{
    if n == 0 {
        assert(url + run_of('/', 0) =~= url);
    } else {
        let longer = url + run_of('/', n);
        assert(longer.drop_last() =~= url + run_of('/', n - 1));
        slashes_come_off(url, n - 1);
    }
}

/// With any number of slashes at the end of its URL, a peer has the log of a build, its
/// diffoscope output and that of an artifact at these places.
pub proof fn builds_have_these_urls(url: Seq<char>, n: int, build_id: i32, artifact_id: i32)
    requires
        no_slash_at_end(url),
        n >= 0,
    ensures
        log_url(url + run_of('/', n), build_id) == url + "/builds/"@ + decimal(build_id as int)
            + "/log"@,
        diffoscope_url(url + run_of('/', n), build_id) == url + "/builds/"@ + decimal(
            build_id as int,
        ) + "/diffoscope"@,
        artifact_diffoscope_url(url + run_of('/', n), build_id, artifact_id) == url
            + "/builds/"@ + decimal(build_id as int) + "/artifacts/"@ + decimal(
            artifact_id as int,
        ) + "/diffoscope"@,
{
    slashes_come_off(url, n);
    let start = url + "/builds/"@ + decimal(build_id as int);
    assert(start + ("/artifacts/"@ + decimal(artifact_id as int) + "/diffoscope"@) =~= start
        + "/artifacts/"@ + decimal(artifact_id as int) + "/diffoscope"@);
}

/// With any number of slashes at its end, a URL is one of version 0 exactly where the rest ends
/// in `/v0` or has `/v0/` in it.
pub proof fn version_0_shows_in_the_url(url: Seq<char>, n: int)
    requires
        no_slash_at_end(url),
        n >= 0,
    ensures
        v0_url(url + run_of('/', n)) <==> {
            ||| exists|before: Seq<char>| url == #[trigger] (before + "/v0"@)
            ||| exists|before: Seq<char>, after: Seq<char>|
                surrounds(before, "/v0/"@, after, url)
        },
{
    slashes_come_off(url, n);
    last_parts_are_completed(url, "/v0"@);
    contained_parts_stand_in_between(url, "/v0/"@);
}

// ---------------------------------------------------------------------------
// All packages of a peer
// ---------------------------------------------------------------------------

/// The value of a parameter, where a query has it once.
pub open spec fn parameter_is(
    query: Seq<(Seq<char>, Seq<char>)>,
    name: Seq<char>,
    value: Seq<char>,
) -> bool {
    exists|i: int|
        {
            &&& 0 <= i < query.len()
            &&& #[trigger] query[i] == (name, value)
            &&& forall|j: int|
                0 <= j < query.len() && j != i ==> (#[trigger] query[j]).0 != name
        }
}

/// A query does not have a parameter.
pub open spec fn parameter_is_missing(
    query: Seq<(Seq<char>, Seq<char>)>,
    name: Seq<char>,
) -> bool {
    forall|i: int| 0 <= i < query.len() ==> (#[trigger] query[i]).0 != name
}

/// The names of parameters are different.
proof fn names_differ()
    ensures
        "distribution"@ != "architecture"@,
        "distribution"@ != "seen_only"@,
        "distribution"@ != "limit"@,
        "distribution"@ != "after"@,
        "distribution"@ != "release"@,
        "architecture"@ != "seen_only"@,
        "architecture"@ != "limit"@,
        "architecture"@ != "after"@,
        "architecture"@ != "release"@,
        "seen_only"@ != "limit"@,
        "seen_only"@ != "after"@,
        "seen_only"@ != "release"@,
        "limit"@ != "after"@,
        "limit"@ != "release"@,
        "after"@ != "release"@,
        "name"@ != "version"@,
        "name"@ != "architecture"@,
        "name"@ != "seen_only"@,
        "name"@ != "limit"@,
        "version"@ != "architecture"@,
        "version"@ != "seen_only"@,
        "version"@ != "limit"@,
{
    reveal_strlit("distribution");
    reveal_strlit("architecture");
    reveal_strlit("seen_only");
    reveal_strlit("limit");
    reveal_strlit("after");
    reveal_strlit("release");
    reveal_strlit("name");
    reveal_strlit("version");
    assert("distribution"@[0] != "architecture"@[0]);
    assert("after"@.len() == 5 && "limit"@.len() == 5 && "after"@[0] != "limit"@[0]);
    assert("name"@.len() == 4 && "seen_only"@.len() == 9 && "version"@.len() == 7);
}

/// A number in decimal notation that is written out.
proof fn thousand()
    ensures
        decimal(1000) == "1000"@,
{
    reveal_strlit("1000");
    reveal_with_fuel(crate::text::digits, 4);
    assert(decimal(1000) =~= "1000"@);
}

/// Each page is asked for at `/packages/binary`: of the distribution and architecture, of what
/// was seen in the last sync, a thousand at a time. With a page taken in, the question goes on
/// after the id of its last package, with or without a release; before that it does not. The
/// release is part of the question exactly where there is one. Nothing else is.
pub proof fn pages_are_asked_for_like_this(listing: V1ListingView, url: Seq<char>, n: int)
    requires
        no_slash_at_end(url),
        n >= 0,
        listing.peer_url == url + run_of('/', n),
    ensures
        ({
            let request = listing.request();
            let query = request.query;
            &&& request.url == url + "/packages/binary"@
            &&& request.headers.len() == 0
            &&& parameter_is(query, "distribution"@, listing.distribution)
            &&& parameter_is(query, "architecture"@, listing.architecture)
            &&& parameter_is(query, "seen_only"@, "true"@)
            &&& parameter_is(query, "limit"@, "1000"@)
            &&& listing.after matches Some(id) ==> parameter_is(
                query,
                "after"@,
                decimal(id as int),
            )
            &&& listing.after is None ==> parameter_is_missing(query, "after"@)
            &&& listing.release matches Some(release) ==> parameter_is(
                query,
                "release"@,
                release,
            )
            &&& listing.release is None ==> parameter_is_missing(query, "release"@)
            &&& query.len() == 4 + (if listing.after is Some {
                1int
            } else {
                0
            }) + (if listing.release is Some {
                1int
            } else {
                0
            })
        }),
{
    slashes_come_off(url, n);
    names_differ();
    thousand();
    let query = listing.request().query;
    assert(query[0] == ("distribution"@, listing.distribution));
    assert(query[1] == ("architecture"@, listing.architecture));
    assert(query[2] == ("seen_only"@, "true"@));
    assert(query[3] == ("limit"@, "1000"@));
    if listing.after is Some {
        assert(query[4] == ("after"@, decimal(listing.after->0 as int)));
    }
    if listing.release is Some {
        assert(query[query.len() - 1] == ("release"@, listing.release->0));
    }
}

/// What counts of a package: the status of its artifact, whatever that of the rebuild; without
/// one, the status of the rebuild; without either, that it is unknown.
pub open spec fn counts_as(
    status: BuildStatus,
    artifact: Option<BuildStatus>,
    rebuild: Option<BuildStatus>,
) -> bool {
    &&& artifact matches Some(own) ==> status == own
    &&& artifact is None ==> (rebuild matches Some(whole) ==> status == whole)
    &&& artifact is None && rebuild is None ==> status == BuildStatus::Unknown
}

/// With a page taken in, the list goes on after its last package. Of a package on the page it
/// has what the last record of it says: the status that counts, and the build. Of any other
/// package it has what it had. The rest of the question stays.
pub proof fn pages_are_taken_in_like_this(
    listing: V1ListingView,
    records: Seq<PeerBinaryPackageView>,
    i: int,
)
    requires
        0 <= i < records.len(),
        forall|j: int|
            i < j < records.len() ==> (#[trigger] records[j]).name != records[i].name
                || records[j].version != records[i].version,
    ensures
        ({
            let next = listing.with_page(records);
            let key = (records[i].name, records[i].version);
            &&& next.after == Some(records.last().id)
            &&& next.packages.contains_key(key)
            &&& counts_as(
                next.packages[key].status,
                records[i].status,
                records[i].rebuild_status,
            )
            &&& next.packages[key].peer_build_id == records[i].build_id
            &&& next.peer_url == listing.peer_url
            &&& next.distribution == listing.distribution
            &&& next.architecture == listing.architecture
            &&& next.release == listing.release
        }),
{
    let entries = v1_packages(records);
    let key = (records[i].name, records[i].version);
    assert(entries[i].0 == key);
    assert forall|j: int| i < j < entries.len() implies (#[trigger] entries[j]).0
        != entries[i].0 by {
        assert(entries[j].0 == (records[j].name, records[j].version));
    }
    last_entry_counts(entries, i);
    entries_replace_what_is_known(listing.packages, entries, key);
}

/// A page leaves alone what is known of packages that are not on it.
pub proof fn pages_leave_other_packages(
    listing: V1ListingView,
    records: Seq<PeerBinaryPackageView>,
    name: Seq<char>,
    version: Seq<char>,
)
    requires
        forall|i: int|
            0 <= i < records.len() ==> (#[trigger] records[i]).name != name || records[i].version
                != version,
    ensures
        ({
            let next = listing.with_page(records);
            let key = (name, version);
            &&& next.packages.contains_key(key) <==> listing.packages.contains_key(key)
            &&& listing.packages.contains_key(key) ==> next.packages[key] == listing.packages[key]
            &&& records.len() == 0 ==> next.after is None
        }),
{
    let entries = v1_packages(records);
    assert forall|i: int| 0 <= i < entries.len() implies (#[trigger] entries[i]).0 != (
        name,
        version,
    ) by {
        assert(entries[i].0 == (records[i].name, records[i].version));
    }
    nothing_else_is_known(entries, (name, version));
    entries_replace_what_is_known(listing.packages, entries, (name, version));
}

/// A page is full with a thousand packages.
pub proof fn full_pages_have_a_thousand_packages()
    ensures
        PAGE_LIMIT == 1000,
{
}

/// A peer with version 0 of the API knows of a package what the last entry of it says: good and
/// bad as such, and anything else as unknown.
pub proof fn version_0_lists_say(releases: Seq<V0PkgReleaseView>, i: int)
    requires
        0 <= i < releases.len(),
        forall|j: int|
            i < j < releases.len() ==> (#[trigger] releases[j]).name != releases[i].name
                || releases[j].version != releases[i].version,
    ensures
        ({
            let known = as_map(v0_list(releases));
            let key = (releases[i].name, releases[i].version);
            &&& known.contains_key(key)
            &&& known[key].status == BuildStatus::Good <==> releases[i].status == V0Status::Good
            &&& known[key].status == BuildStatus::Bad <==> releases[i].status == V0Status::Bad
            &&& known[key].status == BuildStatus::Unknown <==> releases[i].status
                == V0Status::Unknown
            &&& known[key].peer_build_id == releases[i].build_id
        }),
{
    let entries = v0_list(releases);
    assert forall|j: int| i < j < entries.len() implies (#[trigger] entries[j]).0
        != entries[i].0 by {
        assert(entries[j].0 == (releases[j].name, releases[j].version));
    }
    assert(entries[i].0 == (releases[i].name, releases[i].version));
    last_entry_counts(entries, i);
}

/// A peer with version 0 of the API knows of no package that it does not list.
pub proof fn version_0_lists_say_no_more(
    releases: Seq<V0PkgReleaseView>,
    name: Seq<char>,
    version: Seq<char>,
)
    requires
        forall|i: int|
            0 <= i < releases.len() ==> (#[trigger] releases[i]).name != name
                || releases[i].version != version,
    ensures
        !as_map(v0_list(releases)).contains_key((name, version)),
{
    let entries = v0_list(releases);
    assert forall|i: int| 0 <= i < entries.len() implies (#[trigger] entries[i]).0 != (
        name,
        version,
    ) by {
        assert(entries[i].0 == (releases[i].name, releases[i].version));
    }
    nothing_else_is_known(entries, (name, version));
}

/// All packages of a peer with version 0 of the API are asked for at `/pkgs/list` by
/// architecture alone; those of any other peer page by page, from the start, for what the
/// question is about.
pub proof fn listings_go_by_version(
    url: Seq<char>,
    n: int,
    distribution: Seq<char>,
    architecture: Seq<char>,
    release: Option<Seq<char>>,
)
    requires
        no_slash_at_end(url),
        n >= 0,
    ensures
        ({
            let peer_url = url + run_of('/', n);
            match package_listing(peer_url, distribution, architecture, release) {
                PackageListingView::V0(request) => {
                    &&& v0_url(peer_url)
                    &&& request.url == url + "/pkgs/list"@
                    &&& request.headers.len() == 0
                    &&& request.query.len() == 1
                    &&& parameter_is(request.query, "architecture"@, architecture)
                },
                PackageListingView::V1(listing) => {
                    &&& !v0_url(peer_url)
                    &&& listing.peer_url == peer_url
                    &&& listing.distribution == distribution
                    &&& listing.architecture == architecture
                    &&& listing.release == release
                    &&& listing.after is None
                    &&& forall|name: Seq<char>, version: Seq<char>|
                        !(#[trigger] listing.packages.contains_key((name, version)))
                },
            }
        }),
{
    slashes_come_off(url, n);
    match package_listing(url + run_of('/', n), distribution, architecture, release) {
        PackageListingView::V0(request) => {
            assert(request.query[0] == ("architecture"@, architecture));
        },
        _ => {},
    }
}

// ---------------------------------------------------------------------------
// One package of a peer
// ---------------------------------------------------------------------------

/// One package is asked for by its own name, version and architecture under these names, among
/// what was seen in the last sync, and one record is enough. Version 0 of the API is asked by
/// name and architecture alone.
pub proof fn packages_are_asked_for_like_this(
    url: Seq<char>,
    n: int,
    name: Seq<char>,
    version: Seq<char>,
    architecture: Seq<char>,
)
    requires
        no_slash_at_end(url),
        n >= 0,
    ensures
        ({
            let peer_url = url + run_of('/', n);
            match package_request(peer_url, name, version, architecture) {
                PackageRequestView::V0(request) => {
                    &&& v0_url(peer_url)
                    &&& request.url == url + "/pkgs/list"@
                    &&& request.headers.len() == 0
                    &&& request.query.len() == 2
                    &&& parameter_is(request.query, "name"@, name)
                    &&& parameter_is(request.query, "architecture"@, architecture)
                },
                PackageRequestView::V1(request) => {
                    &&& !v0_url(peer_url)
                    &&& request.url == url + "/packages/binary"@
                    &&& request.headers.len() == 0
                    &&& request.query.len() == 5
                    &&& parameter_is(request.query, "name"@, name)
                    &&& parameter_is(request.query, "version"@, version)
                    &&& parameter_is(request.query, "architecture"@, architecture)
                    &&& parameter_is(request.query, "seen_only"@, "true"@)
                    &&& parameter_is(request.query, "limit"@, "1"@)
                },
            }
        }),
{
    slashes_come_off(url, n);
    names_differ();
    match package_request(url + run_of('/', n), name, version, architecture) {
        PackageRequestView::V0(request) => {
            assert(request.query[0] == ("name"@, name));
            assert(request.query[1] == ("architecture"@, architecture));
        },
        PackageRequestView::V1(request) => {
            assert(request.query[0] == ("name"@, name));
            assert(request.query[1] == ("version"@, version));
            assert(request.query[2] == ("architecture"@, architecture));
            assert(request.query[3] == ("seen_only"@, "true"@));
            assert(request.query[4] == ("limit"@, "1"@));
        },
    }
}

/// A peer that has said nothing of a package is shown by its URL alone.
pub proof fn silent_peers_are_shown_by_url(
    url: Seq<char>,
    releases: Seq<V0PkgReleaseView>,
    version: Seq<char>,
)
    requires
        forall|i: int| 0 <= i < releases.len() ==> (#[trigger] releases[i]).version != version,
    ensures
        unknown_entry(url).url == url,
        unknown_entry(url).status is None,
        unknown_entry(url).build_id is None,
        unknown_entry(url).log_url is None,
        unknown_entry(url).diffoscope_url is None,
        v1_entry_of(url, Seq::empty()) == unknown_entry(url),
        v0_entry_of(url, releases, version) == unknown_entry(url),
{
    no_release_with(releases, version);
}

proof fn no_release_with(releases: Seq<V0PkgReleaseView>, version: Seq<char>)
    requires
        forall|i: int| 0 <= i < releases.len() ==> (#[trigger] releases[i]).version != version,
    ensures
        with_version(releases, version) is None,
    decreases releases.len(),
{
    if releases.len() > 0 {
        let rest = releases.drop_first();
        assert(releases[0].version != version);
        assert forall|i: int| 0 <= i < rest.len() implies (#[trigger] rest[i]).version
            != version by {
            assert(rest[i] == releases[i + 1]);
        }
        no_release_with(rest, version);
    }
}

proof fn first_release_with(releases: Seq<V0PkgReleaseView>, version: Seq<char>, i: int)
    requires
        0 <= i < releases.len(),
        releases[i].version == version,
        forall|j: int| 0 <= j < i ==> (#[trigger] releases[j]).version != version,
    ensures
        with_version(releases, version) == Some(releases[i]),
    decreases releases.len(),
{
    if i > 0 {
        let rest = releases.drop_first();
        assert(releases[0].version != version);
        assert forall|j: int| 0 <= j < i - 1 implies (#[trigger] rest[j]).version != version by {
            assert(rest[j] == releases[j + 1]);
        }
        first_release_with(rest, version, i - 1);
    }
}

/// An answer of version 1 of the API is shown by its first record: the status of the artifact,
/// whatever that of the rebuild, or else the status of the rebuild; the build and its log; and,
/// for a bad package whose artifact has diffoscope output, that output.
pub proof fn version_1_answers_are_shown(url: Seq<char>, records: Seq<PeerBinaryPackageView>)
    requires
        records.len() > 0,
    ensures
        ({
            let entry = v1_entry_of(url, records);
            let record = records[0];
            &&& entry.url == url
            &&& record.status is Some ==> entry.status == record.status
            &&& record.status is None ==> entry.status == record.rebuild_status
            &&& entry.build_id == record.build_id
            &&& record.build_id matches Some(build_id) ==> {
                &&& entry.log_url == Some(log_url(url, build_id))
                &&& entry.diffoscope_url is Some <==> entry.status == Some(BuildStatus::Bad)
                    && record.artifact_id is Some && record.diffoscope_log_id is Some
                &&& entry.diffoscope_url matches Some(at) ==> at == artifact_diffoscope_url(
                    url,
                    build_id,
                    record.artifact_id->0,
                )
            }
            &&& record.build_id is None ==> entry.log_url is None && entry.diffoscope_url is None
        }),
{
}

/// An answer of version 0 of the API is shown by the first package that has the version in
/// question: its status, the build and its log, and, for a bad package that has diffoscope
/// output, that output.
pub proof fn version_0_answers_are_shown(
    url: Seq<char>,
    releases: Seq<V0PkgReleaseView>,
    version: Seq<char>,
    i: int,
)
    requires
        0 <= i < releases.len(),
        releases[i].version == version,
        forall|j: int| 0 <= j < i ==> (#[trigger] releases[j]).version != version,
    ensures
        ({
            let entry = v0_entry_of(url, releases, version);
            let release = releases[i];
            &&& entry.url == url
            &&& release.status == V0Status::Good ==> entry.status == Some(BuildStatus::Good)
            &&& release.status == V0Status::Bad ==> entry.status == Some(BuildStatus::Bad)
            &&& release.status == V0Status::Unknown ==> entry.status == Some(
                BuildStatus::Unknown,
            )
            &&& entry.build_id == release.build_id
            &&& release.build_id matches Some(build_id) ==> {
                &&& entry.log_url == Some(log_url(url, build_id))
                &&& entry.diffoscope_url is Some <==> release.status == V0Status::Bad
                    && release.has_diffoscope
                &&& entry.diffoscope_url matches Some(at) ==> at == diffoscope_url(url, build_id)
            }
            &&& release.build_id is None ==> entry.log_url is None && entry.diffoscope_url is None
        }),
{
    first_release_with(releases, version, i);
}

} // verus!
