//! Reads the package lists of a mirror, site by site, and reports their packages.
//!
//! A run stops wherever it needs something from outside: a package list, the packages that
//! the lines of a list describe, a commit. Each [`SyncStep`] says what that is and takes it.

use super::commits::{
    approximated, commit_request, commit_time, commit_timestamp, commits_to_ask, request_commit,
    time_of_commit, unique_commits, CommitResponse, CommitResponseView, CommitTimes,
};
use super::packagesite::{
    all_text, bytes_of, contents_of, package_lines, package_texts, packagesite, packagesite_of,
    raw_lines, SiteError,
};
use super::pkg::{
    build_time, build_timestamp, info_of, package_info, report_package, source_report,
    FreeBSDPkg, FreeBSDPkgView, PackageInfo, PackageInfoView, PackageReport, PackageReportView,
    Site, SiteView, SourcePackageReport, SourcePackageReportView,
};
use crate::http::{HttpRequest, HttpRequestView};
use crate::text::text_of;
use crate::time::{time_of, Timestamp};
use crate::views;
use vstd::prelude::*;

verus! {

/// What to read: the releases and architectures of a mirror.
#[derive(Debug)]
pub struct SyncRequest {
    pub source: String,
    pub releases: Vec<String>,
    pub architectures: Vec<String>,
    /// With a token, GitHub is asked when commits were made.
    pub github_token: Option<String>,
}

/// Every release with every architecture, release by release.
pub open spec fn targets_of(releases: Seq<Seq<char>>, architectures: Seq<Seq<char>>) -> Seq<
    (Seq<char>, Seq<char>),
>
    decreases releases.len(),
{
    if releases.len() == 0 {
        Seq::empty()
    } else {
        targets_of(releases.drop_last(), architectures) + architectures.map_values(
            |architecture: Seq<char>| (releases.last(), architecture),
        )
    }
}

/// A release and an architecture.
#[derive(Debug)]
pub struct Target {
    pub release: String,
    pub architecture: String,
}

impl View for Target {
    type V = (Seq<char>, Seq<char>);

    open spec fn view(&self) -> (Seq<char>, Seq<char>) {
        (self.release@, self.architecture@)
    }
}

/// A run, between its steps.
pub struct SyncRun {
    pub source: String,
    pub github_token: Option<String>,
    pub targets: Vec<Target>,
    /// The next target.
    pub next: usize,
    pub reports: Vec<PackageReport>,
}

#[verifier::ext_equal]
pub struct SyncRunView {
    pub source: Seq<char>,
    pub github_token: Option<Seq<char>>,
    pub targets: Seq<(Seq<char>, Seq<char>)>,
    pub next: int,
    pub reports: Seq<PackageReportView>,
}

impl View for SyncRun {
    type V = SyncRunView;

    open spec fn view(&self) -> SyncRunView {
        SyncRunView {
            source: self.source@,
            github_token: text_of(self.github_token),
            targets: views(self.targets@),
            next: self.next as int,
            reports: views(self.reports@),
        }
    }
}

/// What a run needs next.
pub enum SyncStep {
    /// The package list of a site.
    FetchSite(SiteFetch),
    /// The packages that lines describe.
    ReadPackages(PackageReading),
    /// A commit, from GitHub.
    AskCommit(CommitQuery),
    /// Nothing: these are the reports.
    Done(Vec<PackageReport>),
    /// Nothing: a package list cannot be read.
    Failed(SiteError),
}

/// A run that needs the package list at a URL.
pub struct SiteFetch {
    pub run: SyncRun,
    pub site: Site,
    pub url: String,
}

/// A run that needs the packages that lines describe.
pub struct PackageReading {
    pub run: SyncRun,
    pub site: Site,
    pub lines: Vec<String>,
}

/// A run that needs the answer to a request for a commit.
pub struct CommitQuery {
    pub run: SyncRun,
    pub site: Site,
    pub infos: Vec<PackageInfo>,
    /// The commit in question.
    pub commit: String,
    /// The commits to ask for after that.
    pub later: Vec<String>,
    pub times: CommitTimes,
    pub request: HttpRequest,
}

#[verifier::ext_equal]
pub enum SyncStepView {
    FetchSite { run: SyncRunView, site: SiteView, url: Seq<char> },
    ReadPackages { run: SyncRunView, site: SiteView, lines: Seq<Seq<char>> },
    AskCommit {
        run: SyncRunView,
        site: SiteView,
        infos: Seq<PackageInfoView>,
        commits: Seq<Seq<char>>,
        times: Map<Seq<char>, (int, int)>,
        request: HttpRequestView,
    },
    Done { reports: Seq<PackageReportView> },
    Failed { error: SiteError },
}

impl CommitQuery {
    /// The commits that are still to be asked for, the one in question first.
    pub open spec fn pending(self) -> Seq<Seq<char>> {
        seq![self.commit@] + views(self.later@)
    }
}

impl View for SyncStep {
    type V = SyncStepView;

    open spec fn view(&self) -> SyncStepView {
        match self {
            SyncStep::FetchSite(fetch) => SyncStepView::FetchSite {
                run: fetch.run@,
                site: fetch.site@,
                url: fetch.url@,
            },
            SyncStep::ReadPackages(reading) => SyncStepView::ReadPackages {
                run: reading.run@,
                site: reading.site@,
                lines: views(reading.lines@),
            },
            SyncStep::AskCommit(query) => SyncStepView::AskCommit {
                run: query.run@,
                site: query.site@,
                infos: views(query.infos@),
                commits: query.pending(),
                times: query.times@,
                request: query.request@,
            },
            SyncStep::Done(reports) => SyncStepView::Done { reports: views(reports@) },
            SyncStep::Failed(error) => SyncStepView::Failed { error: *error },
        }
    }
}

// ---------------------------------------------------------------------------
// The steps
// ---------------------------------------------------------------------------

impl SyncRunView {
    /// The run goes on to its next target, or is done.
    pub open spec fn advance(self) -> SyncStepView {
        if 0 <= self.next < self.targets.len() {
            let target = self.targets[self.next];
            let site = SiteView {
                source: self.source,
                release: target.0,
                architecture: target.1,
            };
            SyncStepView::FetchSite {
                run: SyncRunView { next: self.next + 1, ..self },
                site,
                url: site.packagesite_url(),
            }
        } else {
            SyncStepView::Done { reports: self.reports }
        }
    }

    /// How the run goes on with the packagesite of a site: a list that cannot be read ends
    /// it, a site without a packagesite is passed over.
    pub open spec fn with_packagesite(
        self,
        site: SiteView,
        packagesite: Result<Option<Seq<u8>>, SiteError>,
    ) -> SyncStepView {
        match packagesite {
            Err(error) => SyncStepView::Failed { error },
            Ok(None) => self.advance(),
            Ok(Some(data)) => if all_text(raw_lines(data)) {
                SyncStepView::ReadPackages {
                    run: self,
                    site,
                    lines: package_texts(raw_lines(data)),
                }
            } else {
                SyncStepView::Failed { error: SiteError::NotText }
            },
        }
    }

    /// How the run goes on with the package list of a site: a site that cannot be reached is
    /// passed over.
    pub open spec fn with_site(self, site: SiteView, fetched: Option<Seq<u8>>) -> SyncStepView {
        match fetched {
            Some(bytes) => self.with_packagesite(site, packagesite_of(bytes)),
            None => self.advance(),
        }
    }

    /// How the run goes on once the packages of a site are known, with what is known of their
    /// commits: GitHub is asked for the pending ones, then the packages are reported.
    pub open spec fn with_packages(
        self,
        site: SiteView,
        infos: Seq<PackageInfoView>,
        commits: Seq<Seq<char>>,
        times: Map<Seq<char>, (int, int)>,
    ) -> SyncStepView {
        match self.github_token {
            Some(token) if commits.len() > 0 => SyncStepView::AskCommit {
                run: self,
                site,
                infos,
                commits,
                times,
                request: commit_request(commits.first(), token),
            },
            _ => self.with_report(site_report(site, infos, times)),
        }
    }

    /// The run goes on with one more report.
    pub open spec fn with_report(self, report: PackageReportView) -> SyncStepView {
        SyncRunView { reports: self.reports.push(report), ..self }.advance()
    }
}

/// The times with what GitHub has told of a commit.
pub open spec fn told(
    times: Map<Seq<char>, (int, int)>,
    hash: Seq<char>,
    time: Option<(int, int)>,
) -> Map<Seq<char>, (int, int)> {
    match time {
        Some(time) => times.insert(hash, time),
        None => times,
    }
}

/// The reports of packages whose commits were made at the given times.
pub open spec fn source_reports(
    infos: Seq<PackageInfoView>,
    times: Map<Seq<char>, (int, int)>,
) -> Seq<SourcePackageReportView> {
    infos.map_values(
        |info: PackageInfoView| source_report(info, time_of_commit(times, info.git_hash)),
    )
}

/// The report of the packages of a site, with what GitHub has told of their commits.
pub open spec fn site_report(
    site: SiteView,
    infos: Seq<PackageInfoView>,
    times: Map<Seq<char>, (int, int)>,
) -> PackageReportView {
    PackageReportView {
        distribution: "freebsd"@,
        release: Some(site.release),
        component: None,
        architecture: site.architecture,
        packages: source_reports(infos, approximated(times, infos)),
    }
}

/// What a line describes.
#[derive(Debug)]
pub enum ParsedLine {
    /// Nothing that can be read.
    Unreadable,
    /// A package, and whether it is one of those that are asked for.
    Package { pkg: FreeBSDPkg, selected: bool },
}

#[verifier::ext_equal]
pub enum ParsedLineView {
    Unreadable,
    Package { pkg: FreeBSDPkgView, selected: bool },
}

impl View for ParsedLine {
    type V = ParsedLineView;

    open spec fn view(&self) -> ParsedLineView {
        match self {
            ParsedLine::Unreadable => ParsedLineView::Unreadable,
            ParsedLine::Package { pkg, selected } => ParsedLineView::Package {
                pkg: pkg@,
                selected: *selected,
            },
        }
    }
}

/// What is known of the packages that are asked for, in the order of their lines.
pub open spec fn infos_of(site: SiteView, lines: Seq<ParsedLineView>) -> Seq<PackageInfoView>
    decreases lines.len(),
{
    if lines.len() == 0 {
        Seq::empty()
    } else {
        let before = infos_of(site, lines.drop_last());
        match lines.last() {
            ParsedLineView::Package { pkg, selected: true } => before.push(
                info_of(site, pkg, build_time(pkg)),
            ),
            _ => before,
        }
    }
}

/// The targets of a request.
fn list_targets(request: &SyncRequest) -> (r: Vec<Target>)
    ensures
        views(r@) == targets_of(views(request.releases@), views(request.architectures@)),
{
    let ghost releases = views(request.releases@);
    let ghost architectures = views(request.architectures@);
    let mut targets: Vec<Target> = Vec::new();
    let mut i: usize = 0;
    proof {
        assert(releases.take(0) =~= Seq::<Seq<char>>::empty());
        assert(views(targets@) =~= Seq::<(Seq<char>, Seq<char>)>::empty());
    }
    while i < request.releases.len()
        invariant
            i <= request.releases@.len(),
            releases == views(request.releases@),
            architectures == views(request.architectures@),
            views(targets@) == targets_of(releases.take(i as int), architectures),
        decreases request.releases@.len() - i,
    {
        let ghost before = views(targets@);
        let ghost pairs = architectures.map_values(
            |architecture: Seq<char>| (releases[i as int], architecture),
        );
        let mut j: usize = 0;
        proof {
            assert(before + pairs.take(0) =~= before);
        }
        while j < request.architectures.len()
            invariant
                i < request.releases@.len(),
                j <= request.architectures@.len(),
                releases == views(request.releases@),
                architectures == views(request.architectures@),
                pairs == architectures.map_values(
                    |architecture: Seq<char>| (releases[i as int], architecture),
                ),
                views(targets@) == before + pairs.take(j as int),
            decreases request.architectures@.len() - j,
        {
            let ghost was = targets@;
            targets.push(
                Target {
                    release: request.releases[i].clone(),
                    architecture: request.architectures[j].clone(),
                },
            );
            proof {
                assert(views(targets@) =~= views(was).push(pairs[j as int]));
                assert(views(targets@) =~= before + pairs.take(j + 1));
            }
            j += 1;
        }
        proof {
            assert(pairs.take(j as int) =~= pairs);
            assert(releases.take(i + 1).drop_last() =~= releases.take(i as int));
            assert(releases.take(i + 1).last() == releases[i as int]);
        }
        i += 1;
    }
    proof {
        assert(releases.take(i as int) =~= releases);
    }
    targets
}

/// Starts a run.
pub fn sync(request: SyncRequest) -> (r: SyncStep)
    ensures
        r@ == (SyncRunView {
            source: request.source@,
            github_token: text_of(request.github_token),
            targets: targets_of(views(request.releases@), views(request.architectures@)),
            next: 0,
            reports: Seq::empty(),
        }).advance(),
{
    let targets = list_targets(&request);
    let run = SyncRun {
        source: request.source,
        github_token: request.github_token,
        targets,
        next: 0,
        reports: Vec::new(),
    };
    proof {
        assert(views(run.reports@) =~= Seq::<PackageReportView>::empty());
    }
    run.advance()
}

impl SyncRun {
    /// Goes on to the next target, or is done.
    fn advance(self) -> (r: SyncStep)
        ensures
            r@ == self@.advance(),
    {
        if self.next < self.targets.len() {
            let site = Site {
                source: self.source.clone(),
                release: self.targets[self.next].release.clone(),
                architecture: self.targets[self.next].architecture.clone(),
            };
            let url = site.packagesite_url();
            let mut run = self;
            run.next = run.next + 1;
            SyncStep::FetchSite(SiteFetch { run, site, url })
        } else {
            SyncStep::Done(self.reports)
        }
    }

    /// Goes on once the packages of a site are known: with the next commit to ask for, or
    /// with the report.
    fn with_packages(
        self,
        site: Site,
        infos: Vec<PackageInfo>,
        commits: Vec<String>,
        times: CommitTimes,
    ) -> (r: SyncStep)
        ensures
            r@ == self@.with_packages(
                site@,
                views(infos@),
                views(commits@),
                times@,
            ),
    {
        if commits.len() > 0 {
            if let Some(token) = &self.github_token {
                let mut later = commits;
                let commit = later.remove(0);
                let request = request_commit(commit.as_str(), token.as_str());
                proof {
                    assert(seq![commit@] + views(later@) =~= views(commits@));
                }
                return SyncStep::AskCommit(
                    CommitQuery { run: self, site, infos, commit, later, times, request },
                );
            }
        }
        let report = report_site(&site, &infos, times);
        let mut run = self;
        let ghost was = run.reports@;
        run.reports.push(report);
        proof {
            assert(views(run.reports@) =~= views(was).push(report@));
        }
        run.advance()
    }
}

/// The report of the packages of a site, with what GitHub has told of their commits.
pub fn report_site(site: &Site, infos: &Vec<PackageInfo>, told: CommitTimes) -> (r: PackageReport)
    ensures
        r@ == site_report(site@, views(infos@), told@),
{
    let mut times = told;
    times.approximate(infos);
    let ghost wanted = source_reports(views(infos@), times@);
    let mut packages: Vec<SourcePackageReport> = Vec::new();
    let mut i: usize = 0;
    while i < infos.len()
        invariant
            i <= infos@.len(),
            wanted == source_reports(views(infos@), times@),
            views(packages@) == wanted.take(i as int),
        decreases infos@.len() - i,
    {
        let info = &infos[i];
        let commit = times.get(&info.git_hash);
        let report = report_package(info, commit);
        let ghost was = packages@;
        packages.push(report);
        proof {
            assert(views(packages@) =~= views(was).push(report@));
            assert(report@ == wanted[i as int]);
            assert(wanted.take(i + 1) =~= wanted.take(i as int).push(wanted[i as int]));
        }
        i += 1;
    }
    proof {
        assert(wanted.take(i as int) =~= wanted);
    }
    PackageReport {
        distribution: "freebsd".to_owned(),
        release: Some(site.release.clone()),
        component: None,
        architecture: site.architecture.clone(),
        packages,
    }
}

impl SiteFetch {
    /// Takes the package list, or that it cannot be fetched.
    pub fn fetched(self, bytes: Option<Vec<u8>>) -> (r: SyncStep)
        ensures
            r@ == self.run@.with_site(self.site@, bytes_of(bytes)),
    {
        match bytes {
            Some(bytes) => {
                let contents = packagesite(bytes.as_slice());
                self.unpacked(contents)
            },
            None => self.run.advance(),
        }
    }

    /// Takes the packagesite of the package list.
    pub fn unpacked(self, contents: Result<Option<Vec<u8>>, SiteError>) -> (r: SyncStep)
        ensures
            r@ == self.run@.with_packagesite(self.site@, contents_of(contents)),
    {
        match contents {
            Err(error) => SyncStep::Failed(error),
            Ok(None) => self.run.advance(),
            Ok(Some(data)) => match package_lines(&data) {
                Ok(lines) => SyncStep::ReadPackages(
                    PackageReading { run: self.run, site: self.site, lines },
                ),
                Err(error) => SyncStep::Failed(error),
            },
        }
    }
}

impl PackageReading {
    /// Takes what the lines describe.
    pub fn parsed(self, lines: &Vec<ParsedLine>) -> (r: SyncStep)
        ensures
            r@ == self.run@.with_packages(
                self.site@,
                infos_of(self.site@, views(lines@)),
                commits_to_ask(
                    self.run@.github_token,
                    infos_of(self.site@, views(lines@)),
                ),
                Map::empty(),
            ),
    {
        let infos = selected_infos(&self.site, lines);
        let commits = unique_commits(&self.run.github_token, &infos);
        self.run.with_packages(self.site, infos, commits, CommitTimes::new())
    }
}

/// What is known of the packages that are asked for.
pub fn selected_infos(site: &Site, lines: &Vec<ParsedLine>) -> (r: Vec<PackageInfo>)
    ensures
        views(r@) == infos_of(site@, views(lines@)),
{
    let mut infos: Vec<PackageInfo> = Vec::new();
    let mut i: usize = 0;
    proof {
        assert(views(lines@).take(0) =~= Seq::<ParsedLineView>::empty());
        assert(views(infos@) =~= Seq::<PackageInfoView>::empty());
    }
    while i < lines.len()
        invariant
            i <= lines@.len(),
            views(infos@) == infos_of(site@, views(lines@).take(i as int)),
        decreases lines@.len() - i,
    {
        proof {
            assert(views(lines@).take(i + 1).drop_last() =~= views(lines@).take(i as int));
            assert(views(lines@).take(i + 1).last() == lines@[i as int]@);
        }
        if let ParsedLine::Package { pkg, selected } = &lines[i] {
            if *selected {
                let built = build_timestamp(pkg);
                let info = package_info(site, pkg.clone(), built);
                let ghost was = infos@;
                infos.push(info);
                proof {
                    assert(views(infos@) =~= views(was).push(info@));
                }
            }
        }
        i += 1;
    }
    proof {
        assert(views(lines@).take(i as int) =~= views(lines@));
    }
    infos
}

impl CommitQuery {
    /// Takes the answer to the request.
    pub fn answered(self, response: &CommitResponse) -> (r: SyncStep)
        ensures
            r@ == self.run@.with_packages(
                self.site@,
                views(self.infos@),
                self.pending().drop_first(),
                told(self.times@, self.pending().first(), commit_time(response@)),
            ),
    {
        let time = commit_timestamp(response);
        self.dated(time)
    }

    /// Takes when the commit was made, if that is known.
    pub fn dated(self, time: Option<Timestamp>) -> (r: SyncStep)
        ensures
            r@ == self.run@.with_packages(
                self.site@,
                views(self.infos@),
                self.pending().drop_first(),
                told(self.times@, self.pending().first(), time_of(time)),
            ),
    {
        let mut times = self.times;
        if let Some(time) = time {
            times.put(self.commit, time);
        }
        proof {
            assert(self.pending().drop_first() =~= views(self.later@));
        }
        self.run.with_packages(self.site, self.infos, self.later, times)
    }
}

// ---------------------------------------------------------------------------
// What holds of every run
// ---------------------------------------------------------------------------

/// The reports that a step has.
pub open spec fn reports_of(step: SyncStepView) -> Seq<PackageReportView> {
    match step {
        SyncStepView::FetchSite { run, .. } => run.reports,
        SyncStepView::ReadPackages { run, .. } => run.reports,
        SyncStepView::AskCommit { run, .. } => run.reports,
        SyncStepView::Done { reports } => reports,
        SyncStepView::Failed { .. } => Seq::empty(),
    }
}

/// A site that cannot be reached, and one without a packagesite, do not end a run: it goes on
/// to the next target with the reports that it has.
pub proof fn missing_site_is_passed_over(run: SyncRunView, site: SiteView)
    ensures
        run.with_site(site, None) == run.advance(),
        run.with_packagesite(site, Ok(None)) == run.advance(),
        !(run.advance() is Failed),
        reports_of(run.advance()) == run.reports,
{
}

/// A run is done when it has been through all of its targets, and not before.
pub proof fn done_after_last_target(run: SyncRunView)
    requires
        run.next >= 0,
    ensures
        run.advance() is Done <==> run.next >= run.targets.len(),
{
}

/// Once the packages of a site are known, the run either asks for a commit and is otherwise
/// as it was, or has one more report: that of the site.
pub proof fn one_report_per_site(
    run: SyncRunView,
    site: SiteView,
    infos: Seq<PackageInfoView>,
    commits: Seq<Seq<char>>,
    times: Map<Seq<char>, (int, int)>,
)
    ensures
        ({
            let step = run.with_packages(site, infos, commits, times);
            &&& step is AskCommit <==> run.github_token is Some && commits.len() > 0
            &&& step is AskCommit ==> step->AskCommit_run == run
            &&& !(step is AskCommit) ==> reports_of(step) == run.reports.push(
                site_report(site, infos, times),
            )
            &&& site_report(site, infos, times).release == Some(site.release)
            &&& site_report(site, infos, times).architecture == site.architecture
            &&& site_report(site, infos, times).packages.len() == infos.len()
        }),
{
}

/// Without a token GitHub is never asked.
pub proof fn no_token_no_question(
    run: SyncRunView,
    site: SiteView,
    infos: Seq<PackageInfoView>,
    times: Map<Seq<char>, (int, int)>,
)
    requires
        run.github_token is None,
    ensures
        commits_to_ask(run.github_token, infos).len() == 0,
        forall|commits: Seq<Seq<char>>|
            !(#[trigger] run.with_packages(site, infos, commits, times) is AskCommit),
{
}

/// How far a step is from the end of its run: the targets that are left, the stages that are
/// left of the current one, and the commits that are left to ask for.
pub open spec fn distance(step: SyncStepView) -> (int, int, int) {
    match step {
        SyncStepView::FetchSite { run, .. } => (run.targets.len() - run.next + 1, 2, 0),
        SyncStepView::ReadPackages { run, .. } => (run.targets.len() - run.next + 1, 1, 0),
        SyncStepView::AskCommit { run, commits, .. } => (
            run.targets.len() - run.next + 1,
            0,
            commits.len() as int,
        ),
        _ => (0, 0, 0),
    }
}

/// One distance is shorter than another.
pub open spec fn shorter(a: (int, int, int), b: (int, int, int)) -> bool {
    a.0 < b.0 || (a.0 == b.0 && (a.1 < b.1 || (a.1 == b.1 && a.2 < b.2)))
}

/// Every answer brings a run closer to its end: to a package list, to the packages of a list,
/// and to a question for a commit.
pub proof fn every_answer_brings_closer(
    run: SyncRunView,
    site: SiteView,
    fetched: Option<Seq<u8>>,
    lines: Seq<Seq<char>>,
    infos: Seq<PackageInfoView>,
    commits: Seq<Seq<char>>,
    times: Map<Seq<char>, (int, int)>,
    later_times: Map<Seq<char>, (int, int)>,
    url: Seq<char>,
    request: HttpRequestView,
)
    requires
        0 <= run.next <= run.targets.len(),
    ensures
        shorter(
            distance(run.with_site(site, fetched)),
            distance(SyncStepView::FetchSite { run, site, url }),
        ),
        shorter(
            distance(run.with_packages(site, infos, commits, times)),
            distance(SyncStepView::ReadPackages { run, site, lines }),
        ),
        commits.len() > 0 ==> shorter(
            distance(run.with_packages(site, infos, commits.drop_first(), later_times)),
            distance(SyncStepView::AskCommit { run, site, infos, commits, times, request }),
        ),
{
}

/// `part` is `all` with some of its elements left out.
pub open spec fn drawn_from<T>(part: Seq<T>, all: Seq<T>) -> bool
    decreases all.len(),
{
    if part.len() == 0 {
        true
    } else if all.len() == 0 {
        false
    } else {
        ||| part.last() == all.last() && drawn_from(part.drop_last(), all.drop_last())
        ||| drawn_from(part, all.drop_last())
    }
}

/// The targets that have been reported.
pub open spec fn reported(reports: Seq<PackageReportView>) -> Seq<(Seq<char>, Seq<char>)> {
    reports.map_values(|report: PackageReportView| (report.release->0, report.architecture))
}

/// A step that waits for something is about the target before the next one, and has reports of
/// targets before that, in their order. A run that is done has reports of its targets, in their
/// order.
pub open spec fn orderly(step: SyncStepView, targets: Seq<(Seq<char>, Seq<char>)>) -> bool {
    match step {
        SyncStepView::FetchSite { run, site, .. } => at_target(run, site, targets),
        SyncStepView::ReadPackages { run, site, .. } => at_target(run, site, targets),
        SyncStepView::AskCommit { run, site, .. } => at_target(run, site, targets),
        SyncStepView::Done { reports } => drawn_from(reported(reports), targets),
        SyncStepView::Failed { .. } => true,
    }
}

/// The run is at a site.
pub open spec fn at_target(
    run: SyncRunView,
    site: SiteView,
    targets: Seq<(Seq<char>, Seq<char>)>,
) -> bool {
    &&& run.targets == targets
    &&& 0 < run.next <= targets.len()
    &&& targets[run.next - 1] == (site.release, site.architecture)
    &&& drawn_from(reported(run.reports), targets.take(run.next - 1))
}

/// A run between two targets goes on in order.
proof fn advance_is_orderly(run: SyncRunView)
    requires
        0 <= run.next <= run.targets.len(),
        drawn_from(reported(run.reports), run.targets.take(run.next)),
    ensures
        orderly(run.advance(), run.targets),
{
    if run.next == run.targets.len() {
        assert(run.targets.take(run.next) =~= run.targets);
    }
}

/// A run that passes its target over goes on in order.
proof fn passing_over_is_orderly(run: SyncRunView, site: SiteView)
    requires
        at_target(run, site, run.targets),
    ensures
        orderly(run.advance(), run.targets),
{
    let before = run.targets.take(run.next - 1);
    let through = run.targets.take(run.next);
    assert(through.drop_last() =~= before);
    advance_is_orderly(run);
}

/// A run that reports its target goes on in order.
proof fn reporting_is_orderly(run: SyncRunView, site: SiteView, report: PackageReportView)
    requires
        at_target(run, site, run.targets),
        report.release == Some(site.release),
        report.architecture == site.architecture,
    ensures
        orderly(run.with_report(report), run.targets),
{
    let before = run.targets.take(run.next - 1);
    let through = run.targets.take(run.next);
    let after = SyncRunView { reports: run.reports.push(report), ..run };
    assert(through.drop_last() =~= before);
    assert(through.last() == (site.release, site.architecture));
    assert(reported(after.reports).drop_last() =~= reported(run.reports));
    assert(reported(after.reports).last() == (site.release, site.architecture));
    advance_is_orderly(after);
}

/// A run starts in order, and stays in order whatever it is told: its reports are of its
/// targets, each at most once, in the order in which they were asked for.
pub proof fn reports_follow_the_targets(
    run: SyncRunView,
    site: SiteView,
    fetched: Option<Seq<u8>>,
    packagesite: Result<Option<Seq<u8>>, SiteError>,
    infos: Seq<PackageInfoView>,
    commits: Seq<Seq<char>>,
    times: Map<Seq<char>, (int, int)>,
)
    ensures
        run.next == 0 && run.reports.len() == 0 ==> orderly(run.advance(), run.targets),
        at_target(run, site, run.targets) ==> {
            &&& orderly(run.with_site(site, fetched), run.targets)
            &&& orderly(run.with_packagesite(site, packagesite), run.targets)
            &&& orderly(run.with_packages(site, infos, commits, times), run.targets)
        },
{
    if run.next == 0 && run.reports.len() == 0 {
        advance_is_orderly(run);
    }
    if at_target(run, site, run.targets) {
        passing_over_is_orderly(run, site);
        reporting_is_orderly(run, site, site_report(site, infos, times));
    }
}

// ---------------------------------------------------------------------------
// A whole run
// ---------------------------------------------------------------------------

/// What a run is told from outside, for each of its targets by position: the package list,
/// what its lines describe, and the answer on each commit.
pub struct Answers {
    pub site: spec_fn(int) -> Option<Seq<u8>>,
    pub packages: spec_fn(int, Seq<Seq<char>>) -> Seq<ParsedLineView>,
    pub commit: spec_fn(int, Seq<char>) -> CommitResponseView,
}

/// The step that follows once a step has got its answer. A run that has ended stays as it is.
pub open spec fn next_step(step: SyncStepView, answers: Answers) -> SyncStepView {
    match step {
        SyncStepView::FetchSite { run, site, .. } => run.with_site(
            site,
            (answers.site)(run.next - 1),
        ),
        SyncStepView::ReadPackages { run, site, lines } => {
            let infos = infos_of(site, (answers.packages)(run.next - 1, lines));
            run.with_packages(site, infos, commits_to_ask(run.github_token, infos), Map::empty())
        },
        SyncStepView::AskCommit { run, site, infos, commits, times, .. } => {
            let response = (answers.commit)(run.next - 1, commits.first());
            run.with_packages(
                site,
                infos,
                commits.drop_first(),
                told(times, commits.first(), commit_time(response)),
            )
        },
        _ => step,
    }
}

/// The step that a number of answers lead to.
pub open spec fn after_answers(step: SyncStepView, answers: Answers, count: nat) -> SyncStepView
    decreases count,
{
    if count == 0 {
        step
    } else {
        after_answers(next_step(step, answers), answers, (count - 1) as nat)
    }
}

/// The answers lead from one step to another.
pub open spec fn leads_to(from: SyncStepView, answers: Answers, to: SyncStepView) -> bool {
    exists|count: nat| #[trigger] after_answers(from, answers, count) == to
}

/// The times with what GitHub has told of commits.
pub open spec fn all_told(
    times: Map<Seq<char>, (int, int)>,
    commits: Seq<Seq<char>>,
    responses: spec_fn(Seq<char>) -> CommitResponseView,
) -> Map<Seq<char>, (int, int)>
    decreases commits.len(),
{
    if commits.len() == 0 {
        times
    } else {
        all_told(
            told(times, commits.first(), commit_time(responses(commits.first()))),
            commits.drop_first(),
            responses,
        )
    }
}

impl SyncRunView {
    /// The site of the target at a position.
    pub open spec fn site_at(self, n: int) -> SiteView {
        SiteView {
            source: self.source,
            release: self.targets[n].0,
            architecture: self.targets[n].1,
        }
    }

    /// The report of the target at a position, if there is one: the target has to be fetched
    /// and to have a packagesite. A package list that cannot be read is an error.
    pub open spec fn outcome_at(self, answers: Answers, n: int) -> Result<
        Option<PackageReportView>,
        SiteError,
    > {
        match (answers.site)(n) {
            None => Ok(None),
            Some(bytes) => match packagesite_of(bytes) {
                Err(error) => Err(error),
                Ok(None) => Ok(None),
                Ok(Some(data)) => if all_text(raw_lines(data)) {
                    let site = self.site_at(n);
                    let lines = package_texts(raw_lines(data));
                    let infos = infos_of(site, (answers.packages)(n, lines));
                    let times = all_told(
                        Map::empty(),
                        commits_to_ask(self.github_token, infos),
                        |hash: Seq<char>| (answers.commit)(n, hash),
                    );
                    Ok(Some(site_report(site, infos, times)))
                } else {
                    Err(SiteError::NotText)
                },
            },
        }
    }

    /// The reports of the first `n` targets, in their order.
    pub open spec fn reports_through(self, answers: Answers, n: int) -> Seq<PackageReportView>
        decreases n,
    {
        if n <= 0 {
            Seq::empty()
        } else {
            let before = self.reports_through(answers, n - 1);
            match self.outcome_at(answers, n - 1) {
                Ok(Some(report)) => before.push(report),
                _ => before,
            }
        }
    }

    /// This run, with the first `n` of its targets behind it.
    pub open spec fn through(self, answers: Answers, n: int) -> SyncRunView {
        SyncRunView { next: n, reports: self.reports_through(answers, n), ..self }
    }
}

/// Answers add up.
proof fn answers_add_up(step: SyncStepView, answers: Answers, first: nat, second: nat)
    ensures
        after_answers(after_answers(step, answers, first), answers, second) == after_answers(
            step,
            answers,
            first + second,
        ),
    decreases first,
{
    if first > 0 {
        answers_add_up(next_step(step, answers), answers, (first - 1) as nat, second);
    }
}

/// One way after another is a way.
proof fn ways_join(a: SyncStepView, b: SyncStepView, c: SyncStepView, answers: Answers)
    requires
        leads_to(a, answers, b),
        leads_to(b, answers, c),
    ensures
        leads_to(a, answers, c),
{
    let first = choose|count: nat| #[trigger] after_answers(a, answers, count) == b;
    let second = choose|count: nat| #[trigger] after_answers(b, answers, count) == c;
    answers_add_up(a, answers, first, second);
}

/// One answer is a way.
proof fn one_answer(step: SyncStepView, answers: Answers)
    ensures
        leads_to(step, answers, step),
        leads_to(step, answers, next_step(step, answers)),
{
    assert(after_answers(step, answers, 0) == step);
    let next = next_step(step, answers);
    assert(after_answers(next, answers, 0) == next);
    assert(after_answers(step, answers, 1) == next);
}

/// The commits of a site are asked for one by one, and then the site is reported.
proof fn commits_lead_to_report(
    run: SyncRunView,
    site: SiteView,
    infos: Seq<PackageInfoView>,
    commits: Seq<Seq<char>>,
    times: Map<Seq<char>, (int, int)>,
    answers: Answers,
)
    requires
        run.github_token is Some || commits.len() == 0,
    ensures
        leads_to(
            run.with_packages(site, infos, commits, times),
            answers,
            run.with_report(
                site_report(
                    site,
                    infos,
                    all_told(
                        times,
                        commits,
                        |hash: Seq<char>| (answers.commit)(run.next - 1, hash),
                    ),
                ),
            ),
        ),
    decreases commits.len(),
{
    let step = run.with_packages(site, infos, commits, times);
    one_answer(step, answers);
    if commits.len() > 0 {
        let responses = |hash: Seq<char>| (answers.commit)(run.next - 1, hash);
        let now_told = told(times, commits.first(), commit_time(responses(commits.first())));
        let next = run.with_packages(site, infos, commits.drop_first(), now_told);
        assert(next_step(step, answers) == next);
        commits_lead_to_report(run, site, infos, commits.drop_first(), now_told, answers);
        ways_join(
            step,
            next,
            run.with_report(site_report(site, infos, all_told(times, commits, responses))),
            answers,
        );
    }
}

/// From one target a run comes to the next, with the report of the target if there is one, or
/// fails where its package list cannot be read.
proof fn target_leads_on(run: SyncRunView, answers: Answers, n: int)
    requires
        0 <= n < run.targets.len(),
    ensures
        leads_to(
            run.through(answers, n).advance(),
            answers,
            match run.outcome_at(answers, n) {
                Ok(_) => run.through(answers, n + 1).advance(),
                Err(error) => SyncStepView::Failed { error },
            },
        ),
{
    let here = run.through(answers, n);
    let site = run.site_at(n);
    let step = here.advance();
    let going = SyncRunView { next: n + 1, ..here };
    let next = next_step(step, answers);
    assert(step == SyncStepView::FetchSite { run: going, site, url: site.packagesite_url() });
    assert(next == going.with_site(site, (answers.site)(n)));
    one_answer(step, answers);
    one_answer(next, answers);
    if let Ok(Some(report)) = run.outcome_at(answers, n) {
        let data = packagesite_of((answers.site)(n)->0)->Ok_0->0;
        let lines = package_texts(raw_lines(data));
        let infos = infos_of(site, (answers.packages)(n, lines));
        let commits = commits_to_ask(run.github_token, infos);
        assert(next == SyncStepView::ReadPackages { run: going, site, lines });
        let asking = going.with_packages(site, infos, commits, Map::empty());
        assert(next_step(next, answers) == asking);
        commits_lead_to_report(going, site, infos, commits, Map::empty(), answers);
        assert(going.with_report(report) == run.through(answers, n + 1).advance());
        ways_join(step, next, asking, answers);
        ways_join(step, asking, going.with_report(report), answers);
    } else if let Ok(None) = run.outcome_at(answers, n) {
        assert(going == run.through(answers, n + 1));
        assert(next == going.advance());
    }
}

/// From one target a run comes to a later one, if it does not fail in between.
proof fn targets_lead_on(run: SyncRunView, answers: Answers, n: int)
    requires
        0 <= n <= run.targets.len(),
        forall|i: int| 0 <= i < n ==> (#[trigger] run.outcome_at(answers, i)) is Ok,
    ensures
        leads_to(
            run.through(answers, 0).advance(),
            answers,
            run.through(answers, n).advance(),
        ),
    decreases n,
{
    if n == 0 {
        one_answer(run.through(answers, 0).advance(), answers);
    } else {
        targets_lead_on(run, answers, n - 1);
        target_leads_on(run, answers, n - 1);
        assert(run.outcome_at(answers, n - 1) is Ok);
        ways_join(
            run.through(answers, 0).advance(),
            run.through(answers, n - 1).advance(),
            run.through(answers, n).advance(),
            answers,
        );
    }
}

/// A run whose package lists can be read, as far as it gets them, is done in the end. It has the
/// reports of exactly those targets that were fetched and have a packagesite, one for each, in
/// the order of the targets.
pub proof fn run_ends_with_all_reports(start: SyncRunView, answers: Answers)
    requires
        start.next == 0,
        start.reports.len() == 0,
        forall|i: int|
            0 <= i < start.targets.len() ==> (#[trigger] start.outcome_at(answers, i)) is Ok,
    ensures
        leads_to(
            start.advance(),
            answers,
            SyncStepView::Done {
                reports: start.reports_through(answers, start.targets.len() as int),
            },
        ),
{
    let n = start.targets.len() as int;
    assert(start.through(answers, 0) =~= start);
    targets_lead_on(start, answers, n);
    assert(start.through(answers, n).advance() == SyncStepView::Done {
        reports: start.reports_through(answers, n),
    });
}

/// A run fails with the error of the first target whose package list cannot be read.
pub proof fn run_fails_at_first_error(start: SyncRunView, answers: Answers, n: int)
    requires
        start.next == 0,
        start.reports.len() == 0,
        0 <= n < start.targets.len(),
        start.outcome_at(answers, n) is Err,
        forall|i: int| 0 <= i < n ==> (#[trigger] start.outcome_at(answers, i)) is Ok,
    ensures
        leads_to(
            start.advance(),
            answers,
            SyncStepView::Failed { error: start.outcome_at(answers, n)->Err_0 },
        ),
{
    assert(start.through(answers, 0) =~= start);
    targets_lead_on(start, answers, n);
    target_leads_on(start, answers, n);
    ways_join(
        start.advance(),
        start.through(answers, n).advance(),
        SyncStepView::Failed { error: start.outcome_at(answers, n)->Err_0 },
        answers,
    );
}

} // verus!
