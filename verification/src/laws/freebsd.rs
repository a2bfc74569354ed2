//! What holds of the sync of FreeBSD packages.

use crate::freebsd::commits::{
    approximated, built_from, commit_request, commit_time, commits_to_ask, earliest_time_counts,
    each_commit_once, time_of_commit, CommitResponseView,
};
use crate::freebsd::packagesite::{
    all_text, archive_data, archive_path, line_length, package_texts, packagesite_from,
    packagesite_name, packagesite_of, raw_lines, walk_at, SiteError, Walk,
};
use crate::freebsd::pkg::{
    build_time, source_report, FreeBSDPkgView, PackageInfoView, SiteView,
};
use crate::freebsd::sync::{
    all_told, infos_of, site_report, source_reports, targets_of, told, Answers, ParsedLineView,
    SyncRunView, SyncStepView,
};
use crate::text::white_space;
use crate::time::{at_or_before, date_time_parsed, point, rfc3339_parsed};
use vstd::prelude::*;
use vstd::utf8::{decode_utf8, valid_utf8};

verus! {

// ---------------------------------------------------------------------------
// The package list
// ---------------------------------------------------------------------------

/// The file with the packages is called `packagesite.yaml`.
pub proof fn packagesite_has_this_name()
    ensures
        packagesite_name().len() == "packagesite.yaml"@.len(),
        forall|i: int|
            0 <= i < packagesite_name().len() ==> (#[trigger] packagesite_name()[i]) as int
                == "packagesite.yaml"@[i] as int,
{
    reveal_strlit("packagesite.yaml");
    assert(packagesite_name().len() == 16);
    assert forall|i: int| 0 <= i < packagesite_name().len() implies (
    #[trigger] packagesite_name()[i]) as int == "packagesite.yaml"@[i] as int by {
        if i == 0 {
        } else if i == 1 {
        } else if i == 2 {
        } else if i == 3 {
        } else if i == 4 {
        } else if i == 5 {
        } else if i == 6 {
        } else if i == 7 {
        } else if i == 8 {
        } else if i == 9 {
        } else if i == 10 {
        } else if i == 11 {
        } else if i == 12 {
        } else if i == 13 {
        } else if i == 14 {
        } else {
        }
    }
}

/// The entry at a position has another name than the packagesite.
pub open spec fn other_entry(bytes: Seq<u8>, position: int) -> bool {
    archive_path(bytes, position) matches Ok(Some(path)) && path != packagesite_name()
}

/// Behind any number of other entries, what comes next decides: the packagesite is what can be
/// read of the entry of that name, and it is an error where that cannot be read; at the end of
/// the archive there is none; and damage is an error.
pub proof fn first_decisive_entry_counts(bytes: Seq<u8>, position: int)
    requires
        0 <= position < usize::MAX,
        forall|i: int| 0 <= i < position ==> #[trigger] other_entry(bytes, i),
    ensures
        archive_path(bytes, position) == Ok::<Option<Seq<u8>>, ()>(Some(packagesite_name()))
            && archive_data(bytes, position) is Some ==> packagesite_of(bytes) == Ok::<
            Option<Seq<u8>>,
            SiteError,
        >(archive_data(bytes, position)),
        archive_path(bytes, position) == Ok::<Option<Seq<u8>>, ()>(Some(packagesite_name()))
            && archive_data(bytes, position) is None ==> packagesite_of(bytes) == Err::<
            Option<Seq<u8>>,
            SiteError,
        >(SiteError::Archive),
        archive_path(bytes, position) == Ok::<Option<Seq<u8>>, ()>(None) ==> packagesite_of(bytes)
            == Ok::<Option<Seq<u8>>, SiteError>(None),
        archive_path(bytes, position) is Err ==> packagesite_of(bytes) == Err::<
            Option<Seq<u8>>,
            SiteError,
        >(SiteError::Archive),
{
    walk_passes(bytes, 0, position);
    assert(archive_path(bytes, position) is Err ==> walk_at(archive_path(bytes, position))
        == Walk::Damage);
}

proof fn walk_passes(bytes: Seq<u8>, from: int, to: int)
    requires
        0 <= from <= to < usize::MAX,
        forall|i: int| 0 <= i < to ==> #[trigger] other_entry(bytes, i),
    ensures
        packagesite_from(bytes, from) == packagesite_from(bytes, to),
    decreases to - from,
{
    if from < to {
        assert(other_entry(bytes, from));
        walk_passes(bytes, from + 1, to);
    }
}

/// Bytes without a line feed.
pub open spec fn one_line(line: Seq<u8>) -> bool {
    forall|i: int| 0 <= i < line.len() ==> #[trigger] line[i] != 0x0a
}

/// The first line feed stands behind bytes without one.
proof fn line_is_this_long(line: Seq<u8>, rest: Seq<u8>)
    requires
        one_line(line),
    ensures
        line_length(line + seq![0x0au8] + rest) == line.len(),
        line_length(line) == line.len(),
    decreases line.len(),
{
    let all = line + seq![0x0au8] + rest;
    if line.len() == 0 {
        assert(all.first() == 0x0a);
    } else {
        let shorter = line.drop_first();
        assert forall|i: int| 0 <= i < shorter.len() implies #[trigger] shorter[i] != 0x0a by {
            assert(shorter[i] == line[i + 1]);
        }
        line_is_this_long(shorter, rest);
        assert(line[0] != 0x0a);
        assert(all.drop_first() =~= shorter + seq![0x0au8] + rest);
    }
}

/// What stands before a line feed is a line, and so is what stands before a carriage return with
/// a line feed; what follows is more lines. What has no line feed behind it is a line too, as it
/// is, unless it is empty.
pub proof fn line_feeds_end_lines(line: Seq<u8>, rest: Seq<u8>)
    requires
        one_line(line),
    ensures
        !(line.len() > 0 && line.last() == 0x0d) ==> raw_lines(line + seq![0x0au8] + rest)
            == seq![line] + raw_lines(rest),
        raw_lines(line + seq![0x0du8, 0x0au8] + rest) == seq![line] + raw_lines(rest),
        line.len() > 0 ==> raw_lines(line) == seq![line],
        raw_lines(Seq::empty()).len() == 0,
{
    line_is_this_long(line, rest);
    let n = line.len() as int;
    let all = line + seq![0x0au8] + rest;
    assert(all.take(n) =~= line);
    assert(all.skip(n + 1) =~= rest);
    let returned = line.push(0x0du8);
    assert forall|i: int| 0 <= i < returned.len() implies #[trigger] returned[i] != 0x0a by {
        if i < n {
            assert(returned[i] == line[i]);
        }
    }
    line_is_this_long(returned, rest);
    let whole = line + seq![0x0du8, 0x0au8] + rest;
    assert(whole =~= returned + seq![0x0au8] + rest);
    assert(whole.take(n + 1) =~= returned);
    assert(whole.skip(n + 2) =~= rest);
    assert(returned.drop_last() =~= line);
}

/// The texts of two lists of lines are those of both.
proof fn texts_of_both(a: Seq<Seq<u8>>, b: Seq<Seq<u8>>)
    ensures
        package_texts(a + b) == package_texts(a) + package_texts(b),
    decreases b.len(),
{
    if b.len() == 0 {
        assert(a + b =~= a);
        assert(package_texts(a) + package_texts(b) =~= package_texts(a));
    } else {
        assert((a + b).drop_last() =~= a + b.drop_last());
        texts_of_both(a, b.drop_last());
        assert(package_texts(a + b) =~= package_texts(a) + package_texts(b));
    }
}

/// Each line is judged by itself, in its place: it counts, as the text that it is in UTF-8,
/// unless that is nothing but white space.
pub proof fn lines_are_judged_one_by_one(
    before: Seq<Seq<u8>>,
    line: Seq<u8>,
    after: Seq<Seq<u8>>,
)
    ensures
        package_texts(before + seq![line] + after) == package_texts(before) + (if forall|i: int|
            0 <= i < decode_utf8(line).len() ==> white_space(#[trigger] decode_utf8(line)[i]) {
            Seq::<Seq<char>>::empty()
        } else {
            seq![decode_utf8(line)]
        }) + package_texts(after),
        package_texts(Seq::empty()).len() == 0,
        all_text(before + seq![line] + after) <==> all_text(before) && valid_utf8(line)
            && all_text(after),
{
    let one = seq![line];
    let all = before + one + after;
    texts_of_both(before + one, after);
    texts_of_both(before, one);
    reveal_with_fuel(package_texts, 2);
    assert(one.drop_last() =~= Seq::<Seq<u8>>::empty());
    assert(Seq::<Seq<char>>::empty().push(decode_utf8(line)) =~= seq![decode_utf8(line)]);
    if all_text(all) {
        assert forall|i: int| 0 <= i < before.len() implies valid_utf8(#[trigger] before[i]) by {
            assert(all[i] == before[i]);
        }
        assert(all[before.len() as int] == line);
        assert forall|i: int| 0 <= i < after.len() implies valid_utf8(#[trigger] after[i]) by {
            assert(all[before.len() + 1 + i] == after[i]);
        }
    }
    if all_text(before) && valid_utf8(line) && all_text(after) {
        assert forall|i: int| 0 <= i < all.len() implies valid_utf8(#[trigger] all[i]) by {
            if i < before.len() {
                assert(all[i] == before[i]);
            } else if i > before.len() {
                assert(all[i] == after[i - before.len() - 1]);
            }
        }
    }
}

// ---------------------------------------------------------------------------
// Packages and reports
// ---------------------------------------------------------------------------

/// Where a package of a release and architecture is.
pub open spec fn place_of(
    source: Seq<char>,
    release: Seq<char>,
    architecture: Seq<char>,
    name: Seq<char>,
    version: Seq<char>,
) -> Seq<char> {
    source + "/FreeBSD:"@ + release + ":"@ + architecture + "/latest/All/"@ + name + "-"@ + version
        + ".pkg"@
}

/// The list of a release and architecture is in its directory, and so are its packages.
pub proof fn sites_have_these_urls(site: SiteView, name: Seq<char>, version: Seq<char>)
    ensures
        site.packagesite_url() == site.source + "/FreeBSD:"@ + site.release + ":"@
            + site.architecture + "/latest/packagesite.pkg"@,
        site.pkg_url(name, version) == place_of(
            site.source,
            site.release,
            site.architecture,
            name,
            version,
        ),
{
    reveal_strlit("/latest/packagesite.pkg");
    reveal_strlit("packagesite.pkg");
    reveal_strlit("/latest/All/");
    reveal_strlit("/latest/");
    reveal_strlit("All/");
    assert("/latest/"@ + "packagesite.pkg"@ =~= "/latest/packagesite.pkg"@);
    assert("/latest/"@ + "All/"@ =~= "/latest/All/"@);
    let start = site.source + "/FreeBSD:"@ + site.release + ":"@ + site.architecture;
    assert(start + "/latest/"@ + "packagesite.pkg"@ =~= start + ("/latest/"@
        + "packagesite.pkg"@));
    assert(start + "/latest/"@ + "All/"@ =~= start + ("/latest/"@ + "All/"@));
}

/// A package was built when its annotation says, read in the notation of years, months, days,
/// hours, minutes, seconds and time zone; without an annotation that is not known.
pub proof fn build_times_are_read_like_this(pkg: FreeBSDPkgView)
    ensures
        pkg.build_timestamp matches Some(text) ==> build_time(pkg) == point(
            date_time_parsed(text, "%Y-%m-%dT%H:%M:%S%z"@),
        ),
        pkg.build_timestamp is None ==> build_time(pkg) is None,
{
}

/// What is known of two lists of lines is what is known of both.
proof fn infos_of_both(site: SiteView, a: Seq<ParsedLineView>, b: Seq<ParsedLineView>)
    ensures
        infos_of(site, a + b) == infos_of(site, a) + infos_of(site, b),
    decreases b.len(),
{
    if b.len() == 0 {
        assert(a + b =~= a);
        assert(infos_of(site, a) + infos_of(site, b) =~= infos_of(site, a));
    } else {
        assert((a + b).drop_last() =~= a + b.drop_last());
        infos_of_both(site, a, b.drop_last());
        assert(infos_of(site, a + b) =~= infos_of(site, a) + infos_of(site, b));
    }
}

/// Each line is taken by itself, in its place: a package that is asked for is known by all that
/// its line says, by where it is at the very site, by when it was built, and by its commit; a
/// package that is not asked for and a line that cannot be read are left out.
pub proof fn packages_are_taken_one_by_one(
    site: SiteView,
    before: Seq<ParsedLineView>,
    line: ParsedLineView,
    after: Seq<ParsedLineView>,
)
    ensures
        ({
            let infos = infos_of(site, before + seq![line] + after);
            let first = infos_of(site, before);
            let rest = infos_of(site, after);
            match line {
                ParsedLineView::Package { pkg, selected } => if selected {
                    let info = infos[first.len() as int];
                    &&& infos == first + seq![info] + rest
                    &&& info.pkg == pkg
                    &&& info.pkg_url == place_of(
                        site.source,
                        site.release,
                        site.architecture,
                        pkg.name,
                        pkg.version,
                    )
                    &&& info.build_timestamp == build_time(pkg)
                    &&& info.git_hash == pkg.git_hash
                } else {
                    infos == first + rest
                },
                ParsedLineView::Unreadable => infos == first + rest,
            }
        }),
        infos_of(site, Seq::empty()).len() == 0,
{
    let one = seq![line];
    infos_of_both(site, before + one, after);
    infos_of_both(site, before, one);
    reveal_with_fuel(infos_of, 2);
    assert(one.drop_last() =~= Seq::<ParsedLineView>::empty());
    let infos = infos_of(site, before + one + after);
    let first = infos_of(site, before);
    let own = infos_of(site, one);
    if own.len() > 0 {
        assert(own =~= seq![own[0]]);
        assert(infos[first.len() as int] == own[0]);
        sites_have_these_urls(site, own[0].pkg.name, own[0].pkg.version);
    } else {
        assert(own =~= Seq::<PackageInfoView>::empty());
        assert(first + own =~= first);
    }
}

/// Whatever the lines, each package that is known of a site is at that site, under its own name
/// and version, and has the commit and the build time of its line.
proof fn infos_are_of_the_site(site: SiteView, lines: Seq<ParsedLineView>)
    ensures
        forall|i: int|
            0 <= i < infos_of(site, lines).len() ==> {
                let info = #[trigger] infos_of(site, lines)[i];
                &&& info.pkg_url == place_of(
                    site.source,
                    site.release,
                    site.architecture,
                    info.pkg.name,
                    info.pkg.version,
                )
                &&& info.git_hash == info.pkg.git_hash
                &&& info.build_timestamp == build_time(info.pkg)
            },
    decreases lines.len(),
{
    if lines.len() > 0 {
        let rest = lines.drop_last();
        infos_are_of_the_site(site, rest);
        packages_are_taken_one_by_one(site, rest, lines.last(), Seq::empty());
        assert(lines =~= rest + seq![lines.last()] + Seq::<ParsedLineView>::empty());
        let infos = infos_of(site, lines);
        let first = infos_of(site, rest);
        assert forall|i: int| 0 <= i < infos.len() implies {
            let info = #[trigger] infos[i];
            &&& info.pkg_url == place_of(
                site.source,
                site.release,
                site.architecture,
                info.pkg.name,
                info.pkg.version,
            )
            &&& info.git_hash == info.pkg.git_hash
            &&& info.build_timestamp == build_time(info.pkg)
        } by {
            if i < first.len() {
                assert(infos[i] == first[i]);
            }
        }
    }
}

/// The report of a site is of its release and architecture. It has the packages of the site that
/// were asked for, in their order. Each lies at the site it was listed at, with the release and
/// architecture of the very report, and so does its one artifact; it goes by its origin, and the
/// artifact by its name, in the same version; and it has its commit and its build time.
pub proof fn reports_show_the_packages_of_their_site(
    site: SiteView,
    lines: Seq<ParsedLineView>,
    times: Map<Seq<char>, (int, int)>,
    i: int,
)
    requires
        0 <= i < infos_of(site, lines).len(),
    ensures
        ({
            let report = site_report(site, infos_of(site, lines), times);
            let pkg = infos_of(site, lines)[i].pkg;
            let package = report.packages[i];
            &&& report.distribution == "freebsd"@
            &&& report.release == Some(site.release)
            &&& report.component is None
            &&& report.architecture == site.architecture
            &&& report.packages.len() == infos_of(site, lines).len()
            &&& package.url == place_of(
                site.source,
                report.release->0,
                report.architecture,
                pkg.name,
                pkg.version,
            )
            &&& package.name == pkg.origin
            &&& package.version == pkg.version
            &&& package.artifacts.len() == 1
            &&& package.artifacts[0].url == package.url
            &&& package.artifacts[0].name == pkg.name
            &&& package.artifacts[0].version == pkg.version
            &&& package.artifacts[0].architecture == pkg.arch
            &&& package.fbsd_ports_top_git_hash == pkg.git_hash
            &&& package.fbsd_build_timestamp == build_time(pkg)
        }),
{
    infos_are_of_the_site(site, lines);
    let infos = infos_of(site, lines);
    assert(infos[i].git_hash == infos[i].pkg.git_hash);
    assert(site_report(site, infos, times).packages[i] == source_reports(
        infos,
        approximated(times, infos),
    )[i]);
}

/// Whatever is known of packages is what their report shows, one by one in their order, each with
/// one artifact at the same place; a report without packages is a report too.
pub proof fn reports_show_what_is_known(
    site: SiteView,
    infos: Seq<PackageInfoView>,
    times: Map<Seq<char>, (int, int)>,
)
    ensures
        ({
            let report = site_report(site, infos, times);
            &&& report.distribution == "freebsd"@
            &&& report.release == Some(site.release)
            &&& report.component is None
            &&& report.architecture == site.architecture
            &&& report.packages.len() == infos.len()
            &&& forall|i: int|
                0 <= i < infos.len() ==> {
                    let package = #[trigger] report.packages[i];
                    &&& package.name == infos[i].pkg.origin
                    &&& package.version == infos[i].pkg.version
                    &&& package.url == infos[i].pkg_url
                    &&& package.fbsd_ports_top_git_hash == infos[i].git_hash
                    &&& package.fbsd_build_timestamp == infos[i].build_timestamp
                    &&& package.artifacts.len() == 1
                    &&& package.artifacts[0].name == infos[i].pkg.name
                    &&& package.artifacts[0].version == infos[i].pkg.version
                    &&& package.artifacts[0].architecture == infos[i].pkg.arch
                    &&& package.artifacts[0].url == infos[i].pkg_url
                }
        }),
{
}

/// A package is reported with the commit time that it is given.
pub proof fn packages_are_reported_with_their_commit(
    info: PackageInfoView,
    commit: Option<(int, int)>,
)
    ensures
        source_report(info, commit).fbsd_ports_top_git_timestamp == commit,
        source_report(info, commit).fbsd_build_timestamp == info.build_timestamp,
        source_report(info, commit).fbsd_ports_top_git_hash == info.git_hash,
{
}

/// The report of a target in a run, if there is one, is of the release and architecture of that
/// target, and each of its packages lies at the mirror of the run, under that very release and
/// architecture, by the name and version of its one artifact.
pub proof fn runs_report_packages_where_they_lie(
    start: SyncRunView,
    answers: Answers,
    n: int,
    i: int,
)
    requires
        0 <= n < start.targets.len(),
        start.outcome_at(answers, n) matches Ok(Some(report)) && 0 <= i < report.packages.len(),
    ensures
        start.outcome_at(answers, n) matches Ok(Some(report)) && {
            let package = report.packages[i];
            let artifact = package.artifacts[0];
            &&& report.release == Some(start.targets[n].0)
            &&& report.architecture == start.targets[n].1
            &&& package.artifacts.len() == 1
            &&& package.version == artifact.version
            &&& package.url == place_of(
                start.source,
                start.targets[n].0,
                start.targets[n].1,
                artifact.name,
                artifact.version,
            )
            &&& artifact.url == place_of(
                start.source,
                report.release->0,
                report.architecture,
                artifact.name,
                artifact.version,
            )
        },
{
    let site = start.site_at(n);
    if let Some(bytes) = (answers.site)(n) {
        if let Ok(Some(data)) = packagesite_of(bytes) {
            let lines = (answers.packages)(n, package_texts(raw_lines(data)));
            let infos = infos_of(site, lines);
            let times = all_told(
                Map::empty(),
                commits_to_ask(start.github_token, infos),
                |hash: Seq<char>| (answers.commit)(n, hash),
            );
            reports_show_what_is_known(site, infos, times);
            reports_show_the_packages_of_their_site(site, lines, times, i);
        }
    }
}

/// The commit of a package is reported with the earliest of what GitHub has told of it and of
/// the builds from it; without either, and without a commit, with no time.
pub proof fn commits_are_reported_with_the_earliest_time(
    site: SiteView,
    infos: Seq<PackageInfoView>,
    times: Map<Seq<char>, (int, int)>,
    i: int,
)
    requires
        0 <= i < infos.len(),
    ensures
        ({
            let time = site_report(
                site,
                infos,
                times,
            ).packages[i].fbsd_ports_top_git_timestamp;
            &&& infos[i].git_hash is None ==> time is None
            &&& infos[i].git_hash matches Some(hash) ==> {
                &&& time is Some <==> times.contains_key(hash) || exists|j: int|
                    0 <= j < infos.len() && (#[trigger] infos[j]).git_hash == Some(hash)
                        && infos[j].build_timestamp is Some
                &&& time is Some && times.contains_key(hash) ==> at_or_before(
                    time->0,
                    times[hash],
                )
                &&& forall|j: int|
                    time is Some && 0 <= j < infos.len() && (#[trigger] infos[j]).git_hash
                        == Some(hash) && infos[j].build_timestamp is Some ==> at_or_before(
                        time->0,
                        infos[j].build_timestamp->0,
                    )
                &&& time is Some ==> {
                    ||| times.contains_key(hash) && time->0 == times[hash]
                    ||| exists|j: int|
                        0 <= j < infos.len() && (#[trigger] infos[j]).git_hash == Some(hash)
                            && infos[j].build_timestamp == time
                }
            }
        }),
{
    if let Some(hash) = infos[i].git_hash {
        earliest_time_counts(times, infos, hash);
        let after = approximated(times, infos);
        assert(site_report(site, infos, times).packages[i].fbsd_ports_top_git_timestamp
            == time_of_commit(after, Some(hash)));
        if exists|j: int| 0 <= j < infos.len() && built_from(#[trigger] infos[j], hash) {
            let j = choose|j: int| 0 <= j < infos.len() && built_from(#[trigger] infos[j], hash);
            assert(infos[j].git_hash == Some(hash));
        }
        if exists|j: int|
            0 <= j < infos.len() && (#[trigger] infos[j]).git_hash == Some(hash)
                && infos[j].build_timestamp is Some {
            let j = choose|j: int|
                0 <= j < infos.len() && (#[trigger] infos[j]).git_hash == Some(hash)
                    && infos[j].build_timestamp is Some;
            assert(built_from(infos[j], hash));
        }
        assert forall|j: int|
            after.contains_key(hash) && 0 <= j < infos.len() && (#[trigger] infos[j]).git_hash
                == Some(hash) && infos[j].build_timestamp is Some implies at_or_before(
            after[hash],
            infos[j].build_timestamp->0,
        ) by {
            assert(built_from(infos[j], hash));
        }
        if after.contains_key(hash) && !(times.contains_key(hash) && after[hash] == times[hash]) {
            let j = choose|j: int|
                0 <= j < infos.len() && built_from(#[trigger] infos[j], hash) && after[hash]
                    == infos[j].build_timestamp->0;
            assert(infos[j].git_hash == Some(hash));
        }
    }
}

// ---------------------------------------------------------------------------
// GitHub
// ---------------------------------------------------------------------------

/// With a token, GitHub is asked for every commit that a package was built from, once, and for
/// nothing else; without one it is not asked.
pub proof fn commits_of_packages_are_asked_for(
    token: Option<Seq<char>>,
    infos: Seq<PackageInfoView>,
    hash: Seq<char>,
)
    ensures
        token is None ==> commits_to_ask(token, infos).len() == 0,
        token is Some ==> (commits_to_ask(token, infos).contains(hash) <==> exists|i: int|
            0 <= i < infos.len() && (#[trigger] infos[i]).git_hash == Some(hash)),
        forall|i: int, j: int|
            0 <= i < j < commits_to_ask(token, infos).len() ==> commits_to_ask(token, infos)[i]
                != commits_to_ask(token, infos)[j],
{
    each_commit_once(infos);
}

/// A commit of the ports tree is asked for by its hash, with the token, and in these terms.
pub proof fn commits_are_asked_for_like_this(hash: Seq<char>, token: Seq<char>)
    ensures
        ({
            let request = commit_request(hash, token);
            &&& request.url == "https://api.github.com/repos/freebsd/freebsd-ports/commits/"@
                + hash
            &&& request.query.len() == 0
            &&& request.headers.len() == 4
            &&& request.headers[0] == ("Authorization"@, "Bearer "@ + token)
            &&& request.headers[1] == ("User-Agent"@, "rebuilderd"@)
            &&& request.headers[2] == ("Accept"@, "application/vnd.github+json"@)
            &&& request.headers[3] == ("X-GitHub-Api-Version"@, "2022-11-28"@)
        }),
{
}

/// Only the date of an answer that reports success tells when a commit was made.
pub proof fn successful_answers_tell_the_time(date: Seq<char>, missing: Option<Seq<char>>)
    ensures
        commit_time(CommitResponseView::Answered { success: true, date: Some(date) }) == point(
            rfc3339_parsed(date),
        ),
        commit_time(CommitResponseView::Answered { success: true, date: None }) is None,
        commit_time(CommitResponseView::Answered { success: false, date: missing }) is None,
        commit_time(CommitResponseView::Unreachable) is None,
{
}

/// What GitHub tells of a commit is noted for that commit alone; where it tells nothing, nothing
/// changes.
pub proof fn answers_are_noted(
    times: Map<Seq<char>, (int, int)>,
    hash: Seq<char>,
    time: (int, int),
    other: Seq<char>,
)
    ensures
        told(times, hash, Some(time)).contains_key(hash),
        told(times, hash, Some(time))[hash] == time,
        other != hash ==> (told(times, hash, Some(time)).contains_key(other)
            <==> times.contains_key(other)) && (times.contains_key(other) ==> told(
            times,
            hash,
            Some(time),
        )[other] == times[other]),
        told(times, hash, None) == times,
{
}

/// In the end, what is noted of a commit that was asked for is the time that its answer gives,
/// if it gives one, and of any other commit what was noted before.
pub proof fn all_answers_are_noted(
    times: Map<Seq<char>, (int, int)>,
    commits: Seq<Seq<char>>,
    responses: spec_fn(Seq<char>) -> CommitResponseView,
    hash: Seq<char>,
)
    ensures
        ({
            let after = all_told(times, commits, responses);
            let time = commit_time(responses(hash));
            if commits.contains(hash) && time is Some {
                after.contains_key(hash) && after[hash] == time->0
            } else {
                &&& after.contains_key(hash) <==> times.contains_key(hash)
                &&& times.contains_key(hash) ==> after[hash] == times[hash]
            }
        }),
    decreases commits.len(),
{
    if commits.len() > 0 {
        let first = commits.first();
        let rest = commits.drop_first();
        let noted = told(times, first, commit_time(responses(first)));
        all_answers_are_noted(noted, rest, responses, hash);
        if rest.contains(hash) {
            let i = choose|i: int| 0 <= i < rest.len() && rest[i] == hash;
            assert(commits[i + 1] == hash);
        }
        if first == hash {
            assert(commits[0] == hash);
        }
        if commits.contains(hash) && first != hash {
            let i = choose|i: int| 0 <= i < commits.len() && commits[i] == hash;
            assert(rest[i - 1] == hash);
        }
    }
}

// ---------------------------------------------------------------------------
// The run
// ---------------------------------------------------------------------------

/// The targets of two lists of releases are those of both.
proof fn targets_of_both(
    a: Seq<Seq<char>>,
    b: Seq<Seq<char>>,
    architectures: Seq<Seq<char>>,
)
    ensures
        targets_of(a + b, architectures) == targets_of(a, architectures) + targets_of(
            b,
            architectures,
        ),
    decreases b.len(),
{
    let left = targets_of(a, architectures);
    let right = targets_of(b, architectures);
    if b.len() == 0 {
        assert(a + b =~= a);
        assert(left + right =~= left);
    } else {
        assert((a + b).drop_last() =~= a + b.drop_last());
        targets_of_both(a, b.drop_last(), architectures);
        assert(targets_of(a + b, architectures) =~= left + right);
    }
}

/// Each release is read on every architecture, in their order, before the next release.
pub proof fn releases_are_read_one_by_one(
    before: Seq<Seq<char>>,
    release: Seq<char>,
    after: Seq<Seq<char>>,
    architectures: Seq<Seq<char>>,
    i: int,
)
    requires
        0 <= i < architectures.len(),
    ensures
        ({
            let targets = targets_of(before + seq![release] + after, architectures);
            let first = targets_of(before, architectures);
            let rest = targets_of(after, architectures);
            &&& targets.len() == first.len() + architectures.len() + rest.len()
            &&& targets.take(first.len() as int) == first
            &&& targets[first.len() + i] == (release, architectures[i])
            &&& targets.skip((first.len() + architectures.len()) as int) == rest
        }),
        targets_of(Seq::empty(), architectures).len() == 0,
{
    let one = seq![release];
    targets_of_both(before + one, after, architectures);
    targets_of_both(before, one, architectures);
    reveal_with_fuel(targets_of, 2);
    assert(one.drop_last() =~= Seq::<Seq<char>>::empty());
    let targets = targets_of(before + one + after, architectures);
    let first = targets_of(before, architectures);
    let own = targets_of(one, architectures);
    let rest = targets_of(after, architectures);
    assert(own.len() == architectures.len());
    assert(own[i] == (release, architectures[i]));
    assert(targets =~= first + own + rest);
    assert(targets.take(first.len() as int) =~= first);
    assert(targets.skip((first.len() + architectures.len()) as int) =~= rest);
}

/// A run asks next for the package list of its next target, at its place on the mirror, and has
/// that target behind it then; after the last target it is done, with the reports that it has.
pub proof fn targets_are_fetched_in_turn(run: SyncRunView)
    requires
        0 <= run.next,
    ensures
        run.next >= run.targets.len() ==> run.advance() == (SyncStepView::Done {
            reports: run.reports,
        }),
        run.next < run.targets.len() ==> {
            let (release, architecture) = run.targets[run.next];
            match run.advance() {
                SyncStepView::FetchSite { run: after, site, url } => {
                    &&& url == run.source + "/FreeBSD:"@ + release + ":"@ + architecture
                        + "/latest/packagesite.pkg"@
                    &&& site.source == run.source
                    &&& site.release == release
                    &&& site.architecture == architecture
                    &&& after.next == run.next + 1
                    &&& after.targets == run.targets
                    &&& after.source == run.source
                    &&& after.github_token == run.github_token
                    &&& after.reports == run.reports
                },
                _ => false,
            }
        },
{
    if run.next < run.targets.len() {
        let site = SiteView {
            source: run.source,
            release: run.targets[run.next].0,
            architecture: run.targets[run.next].1,
        };
        sites_have_these_urls(site, Seq::empty(), Seq::empty());
    }
}

/// A site that was not fetched, or has no packagesite, is passed over. A list that cannot be
/// read, or has a line that is not UTF-8, ends the run with that error. Any other packagesite is
/// read: the lines that are not blank are to be parsed, for this site.
pub proof fn lists_are_read_like_this(run: SyncRunView, site: SiteView, bytes: Seq<u8>)
    ensures
        run.with_site(site, None) == run.advance(),
        match packagesite_of(bytes) {
            Err(error) => run.with_site(site, Some(bytes)) == (SyncStepView::Failed { error }),
            Ok(None) => run.with_site(site, Some(bytes)) == run.advance(),
            Ok(Some(data)) => {
                &&& (exists|i: int|
                    0 <= i < raw_lines(data).len() && !valid_utf8(#[trigger] raw_lines(data)[i]))
                    ==> run.with_site(site, Some(bytes)) == (SyncStepView::Failed {
                    error: SiteError::NotText,
                })
                &&& (forall|i: int|
                    0 <= i < raw_lines(data).len() ==> valid_utf8(#[trigger] raw_lines(data)[i]))
                    ==> run.with_site(site, Some(bytes)) == (SyncStepView::ReadPackages {
                    run,
                    site,
                    lines: package_texts(raw_lines(data)),
                })
            },
        },
        run.with_site(site, Some(bytes)) == run.with_packagesite(site, packagesite_of(bytes)),
{
}

/// With a token and a commit to ask for, the run asks GitHub for the first one; without either,
/// it has the report of the site behind those that it had, and goes on.
pub proof fn packages_are_reported_after_their_commits(
    run: SyncRunView,
    site: SiteView,
    infos: Seq<PackageInfoView>,
    commits: Seq<Seq<char>>,
    times: Map<Seq<char>, (int, int)>,
)
    ensures
        run.github_token is Some && commits.len() > 0 ==> run.with_packages(
            site,
            infos,
            commits,
            times,
        ) == (SyncStepView::AskCommit {
            run,
            site,
            infos,
            commits,
            times,
            request: commit_request(commits[0], run.github_token->0),
        }),
        run.github_token is None || commits.len() == 0 ==> run.with_packages(
            site,
            infos,
            commits,
            times,
        ) == (SyncRunView {
            reports: run.reports.push(site_report(site, infos, times)),
            ..run
        }).advance(),
{
}

} // verus!
