//! When the commits that packages were built from were made: as GitHub has it, or else by the
//! earliest build.

use super::pkg::{source_report, PackageInfo, PackageInfoView};
use crate::http::{HttpRequest, HttpRequestView};
use crate::text::text_of;
use crate::time::{at_or_before, point, rfc3339_parsed, time_of, Timestamp};
use crate::views;
use vstd::hash_map::StringHashMap;
use vstd::prelude::*;

verus! {

// ---------------------------------------------------------------------------
// Which commits to ask for
// ---------------------------------------------------------------------------

/// The commits that packages were built from, each once, in the order of their first
/// packages.
pub open spec fn commits_of(infos: Seq<PackageInfoView>) -> Seq<Seq<char>>
    decreases infos.len(),
{
    if infos.len() == 0 {
        Seq::empty()
    } else {
        let before = commits_of(infos.drop_last());
        match infos.last().git_hash {
            Some(hash) => if before.contains(hash) {
                before
            } else {
                before.push(hash)
            },
            None => before,
        }
    }
}

/// The commits to ask GitHub for. Without a token it is not asked.
pub open spec fn commits_to_ask(
    token: Option<Seq<char>>,
    infos: Seq<PackageInfoView>,
) -> Seq<Seq<char>> {
    if token is Some {
        commits_of(infos)
    } else {
        Seq::empty()
    }
}

/// The commits to ask for are those of the packages, each once.
pub proof fn each_commit_once(infos: Seq<PackageInfoView>)
    ensures
        commits_of(infos).no_duplicates(),
        forall|hash: Seq<char>| #[trigger]
            commits_of(infos).contains(hash) <==> exists|i: int|
                0 <= i < infos.len() && (#[trigger] infos[i]).git_hash == Some(hash),
    decreases infos.len(),
{
    if infos.len() > 0 {
        let rest = infos.drop_last();
        let before = commits_of(rest);
        let all = commits_of(infos);
        each_commit_once(rest);
        assert forall|hash: Seq<char>| #[trigger] all.contains(hash) <==> exists|i: int|
            0 <= i < infos.len() && (#[trigger] infos[i]).git_hash == Some(hash) by {
            if all.contains(hash) {
                let k = choose|k: int| 0 <= k < all.len() && all[k] == hash;
                if k < before.len() {
                    assert(before[k] == hash);
                    assert(before.contains(hash));
                    let i = choose|i: int|
                        0 <= i < rest.len() && (#[trigger] rest[i]).git_hash == Some(hash);
                    assert(infos[i] == rest[i]);
                } else {
                    assert(infos[infos.len() - 1].git_hash == Some(hash));
                }
            }
            if exists|i: int| 0 <= i < infos.len() && (#[trigger] infos[i]).git_hash == Some(hash) {
                let i = choose|i: int|
                    0 <= i < infos.len() && (#[trigger] infos[i]).git_hash == Some(hash);
                if i < rest.len() {
                    assert(rest[i] == infos[i]);
                    assert(before.contains(hash));
                }
                if before.contains(hash) {
                    let k = choose|k: int| 0 <= k < before.len() && before[k] == hash;
                    assert(all[k] == hash);
                } else {
                    assert(all[all.len() - 1] == hash);
                }
            }
        }
    }
}

/// The commits to ask GitHub for, given the token.
pub fn unique_commits(token: &Option<String>, infos: &Vec<PackageInfo>) -> (r: Vec<String>)
    ensures
        views(r@) == commits_to_ask(text_of(*token), views(infos@)),
{
    let mut commits: Vec<String> = Vec::new();
    proof {
        assert(views(commits@) =~= Seq::<Seq<char>>::empty());
    }
    if token.is_none() {
        return commits;
    }
    let mut seen: StringHashMap<bool> = StringHashMap::new();
    let mut i: usize = 0;
    proof {
        assert(views(infos@).take(0) =~= Seq::<PackageInfoView>::empty());
    }
    while i < infos.len()
        invariant
            i <= infos@.len(),
            views(commits@) == commits_of(views(infos@).take(i as int)),
            forall|hash: Seq<char>| #[trigger]
                seen@.contains_key(hash) <==> views(commits@).contains(hash),
        decreases infos@.len() - i,
    {
        proof {
            assert(views(infos@).take(i + 1).drop_last() =~= views(infos@).take(i as int));
            assert(views(infos@).take(i + 1).last() == infos@[i as int]@);
        }
        if let Some(hash) = &infos[i].git_hash {
            if !seen.contains_key(hash.as_str()) {
                let ghost was = commits@;
                let ghost known = seen@;
                commits.push(hash.clone());
                seen.insert(hash.clone(), true);
                proof {
                    let before = views(was);
                    let after = views(commits@);
                    assert(after =~= before.push(hash@));
                    assert forall|other: Seq<char>| #[trigger]
                        seen@.contains_key(other) <==> after.contains(other) by {
                        assert(known.contains_key(other) <==> before.contains(other));
                        if before.contains(other) {
                            let k = choose|k: int| 0 <= k < before.len() && before[k] == other;
                            assert(after[k] == other);
                        }
                        if other == hash@ {
                            assert(after[before.len() as int] == other);
                        }
                        if after.contains(other) && other != hash@ {
                            let k = choose|k: int| 0 <= k < after.len() && after[k] == other;
                            assert(before[k] == other);
                        }
                    }
                }
            }
        }
        i += 1;
    }
    proof {
        assert(views(infos@).take(i as int) =~= views(infos@));
    }
    commits
}

// ---------------------------------------------------------------------------
// GitHub
// ---------------------------------------------------------------------------

/// The request for a commit of the ports tree.
pub open spec fn commit_request(hash: Seq<char>, token: Seq<char>) -> HttpRequestView {
    HttpRequestView {
        url: "https://api.github.com/repos/freebsd/freebsd-ports/commits/"@ + hash,
        query: Seq::empty(),
        headers: seq![
            ("Authorization"@, "Bearer "@ + token),
            ("User-Agent"@, "rebuilderd"@),
            ("Accept"@, "application/vnd.github+json"@),
            ("X-GitHub-Api-Version"@, "2022-11-28"@),
        ],
    }
}

/// The request for a commit of the ports tree.
pub fn request_commit(hash: &str, token: &str) -> (r: HttpRequest)
    ensures
        r@ == commit_request(hash@, token@),
{
    let mut url = "https://api.github.com/repos/freebsd/freebsd-ports/commits/".to_owned();
    url.append(hash);
    let mut bearer = "Bearer ".to_owned();
    bearer.append(token);
    HttpRequest::get(url).with_header("Authorization", bearer.as_str()).with_header(
        "User-Agent",
        "rebuilderd",
    ).with_header("Accept", "application/vnd.github+json").with_header(
        "X-GitHub-Api-Version",
        "2022-11-28",
    )
}

/// What came of asking for a commit.
#[derive(Debug)]
pub enum CommitResponse {
    /// There was no answer.
    Unreachable,
    /// There was an answer: whether its status says that the request succeeded, and the date
    /// of the commit, if it can be read from the answer.
    Answered { success: bool, date: Option<String> },
}

#[verifier::ext_equal]
pub enum CommitResponseView {
    Unreachable,
    Answered { success: bool, date: Option<Seq<char>> },
}

impl View for CommitResponse {
    type V = CommitResponseView;

    open spec fn view(&self) -> CommitResponseView {
        match self {
            CommitResponse::Unreachable => CommitResponseView::Unreachable,
            CommitResponse::Answered { success, date } => CommitResponseView::Answered {
                success: *success,
                date: text_of(*date),
            },
        }
    }
}

/// The date of the commit that an answer gives.
pub open spec fn commit_date(response: CommitResponseView) -> Option<Seq<char>> {
    match response {
        CommitResponseView::Answered { success: true, date } => date,
        _ => None,
    }
}

/// When a commit was made, by the answer of GitHub: if there is one, it reports success, and
/// its date can be read.
pub open spec fn commit_time(response: CommitResponseView) -> Option<(int, int)> {
    match commit_date(response) {
        Some(date) => point(rfc3339_parsed(date)),
        None => None,
    }
}

/// When a commit was made, by the answer of GitHub.
pub fn commit_timestamp(response: &CommitResponse) -> (r: Option<Timestamp>)
    ensures
        time_of(r) == commit_time(response@),
{
    match response {
        CommitResponse::Unreachable => None,
        CommitResponse::Answered { success, date } => {
            if !*success {
                return None;
            }
            match date {
                Some(date) => Timestamp::parse_rfc3339(date.as_str()),
                None => None,
            }
        },
    }
}

// ---------------------------------------------------------------------------
// Commit times
// ---------------------------------------------------------------------------

/// When commits were made.
pub struct CommitTimes {
    times: StringHashMap<Timestamp>,
}

impl View for CommitTimes {
    type V = Map<Seq<char>, (int, int)>;

    closed spec fn view(&self) -> Map<Seq<char>, (int, int)> {
        self.times@.map_values(|t: Timestamp| t@)
    }
}

/// The times with a commit's lowered to a given time, unless it is known to be as early.
pub open spec fn lowered(
    times: Map<Seq<char>, (int, int)>,
    hash: Seq<char>,
    time: (int, int),
) -> Map<Seq<char>, (int, int)> {
    if times.contains_key(hash) && at_or_before(times[hash], time) {
        times
    } else {
        times.insert(hash, time)
    }
}

/// The times with each commit's lowered to the builds of its packages.
pub open spec fn approximated(
    times: Map<Seq<char>, (int, int)>,
    infos: Seq<PackageInfoView>,
) -> Map<Seq<char>, (int, int)>
    decreases infos.len(),
{
    if infos.len() == 0 {
        times
    } else {
        let before = approximated(times, infos.drop_last());
        match (infos.last().git_hash, infos.last().build_timestamp) {
            (Some(hash), Some(time)) => lowered(before, hash, time),
            _ => before,
        }
    }
}

/// When a package's commit was made.
pub open spec fn time_of_commit(
    times: Map<Seq<char>, (int, int)>,
    git_hash: Option<Seq<char>>,
) -> Option<(int, int)> {
    match git_hash {
        Some(hash) => if times.contains_key(hash) {
            Some(times[hash])
        } else {
            None
        },
        None => None,
    }
}

impl CommitTimes {
    /// No commit.
    pub fn new() -> (r: CommitTimes)
        ensures
            r@ == Map::<Seq<char>, (int, int)>::empty(),
    {
        let times = CommitTimes { times: StringHashMap::new() };
        proof {
            assert(times@ =~= Map::<Seq<char>, (int, int)>::empty());
        }
        times
    }

    /// Notes when a commit was made.
    pub fn put(&mut self, hash: String, time: Timestamp)
        ensures
            final(self)@ == old(self)@.insert(hash@, time@),
    {
        self.times.insert(hash, time);
        proof {
            assert(self@ =~= old(self)@.insert(hash@, time@));
        }
    }

    /// When a package's commit was made.
    pub fn get(&self, git_hash: &Option<String>) -> (r: Option<Timestamp>)
        ensures
            time_of(r) == time_of_commit(self@, text_of(*git_hash)),
    {
        match git_hash {
            Some(hash) => match self.times.get(hash.as_str()) {
                Some(time) => Some(*time),
                None => None,
            },
            None => None,
        }
    }

    /// Lowers the time of each commit to the builds of its packages: where GitHub has not
    /// told, the earliest build stands for the commit.
    pub fn approximate(&mut self, infos: &Vec<PackageInfo>)
        ensures
            final(self)@ == approximated(old(self)@, views(infos@)),
    {
        let ghost known = self@;
        let mut i: usize = 0;
        proof {
            assert(views(infos@).take(0) =~= Seq::<PackageInfoView>::empty());
        }
        while i < infos.len()
            invariant
                i <= infos@.len(),
                self@ == approximated(known, views(infos@).take(i as int)),
            decreases infos@.len() - i,
        {
            let info = &infos[i];
            proof {
                assert(views(infos@).take(i + 1).drop_last() =~= views(infos@).take(i as int));
                assert(views(infos@).take(i + 1).last() == info@);
            }
            if let Some(hash) = &info.git_hash {
                if let Some(time) = info.build_timestamp {
                    let early = match self.times.get(hash.as_str()) {
                        Some(known) => known.at_or_before(&time),
                        None => false,
                    };
                    if !early {
                        self.put(hash.clone(), time);
                    }
                }
            }
            i += 1;
        }
        proof {
            assert(views(infos@).take(i as int) =~= views(infos@));
        }
    }
}

/// A package whose build and commit are known.
pub open spec fn built_from(info: PackageInfoView, hash: Seq<char>) -> bool {
    info.git_hash == Some(hash) && info.build_timestamp is Some
}

/// The approximated time of a commit is the earliest of what GitHub has told and of the
/// builds of its packages; where there is neither, there is none.
pub proof fn earliest_time_counts(
    times: Map<Seq<char>, (int, int)>,
    infos: Seq<PackageInfoView>,
    hash: Seq<char>,
)
    ensures
        ({
            let after = approximated(times, infos);
            &&& after.contains_key(hash) <==> times.contains_key(hash) || exists|i: int|
                0 <= i < infos.len() && built_from(#[trigger] infos[i], hash)
            &&& times.contains_key(hash) ==> at_or_before(after[hash], times[hash])
            &&& forall|i: int|
                0 <= i < infos.len() && built_from(#[trigger] infos[i], hash) ==> at_or_before(
                    after[hash],
                    infos[i].build_timestamp->0,
                )
            &&& after.contains_key(hash) ==> {
                ||| times.contains_key(hash) && after[hash] == times[hash]
                ||| exists|i: int|
                    0 <= i < infos.len() && built_from(#[trigger] infos[i], hash) && after[hash]
                        == infos[i].build_timestamp->0
            }
        }),
    decreases infos.len(),
{
    if infos.len() > 0 {
        let rest = infos.drop_last();
        let n = infos.len() - 1;
        earliest_time_counts(times, rest, hash);
        let before = approximated(times, rest);
        let after = approximated(times, infos);
        assert(forall|i: int| 0 <= i < rest.len() ==> #[trigger] rest[i] == infos[i]);
        assert(built_from(infos[n], hash) == built_from(infos.last(), hash));
        if exists|i: int| 0 <= i < rest.len() && built_from(#[trigger] rest[i], hash) {
            let i = choose|i: int| 0 <= i < rest.len() && built_from(#[trigger] rest[i], hash);
            assert(built_from(infos[i], hash));
        }
        if exists|i: int|
            0 <= i < rest.len() && built_from(#[trigger] rest[i], hash) && before[hash]
                == rest[i].build_timestamp->0 {
            let i = choose|i: int|
                0 <= i < rest.len() && built_from(#[trigger] rest[i], hash) && before[hash]
                    == rest[i].build_timestamp->0;
            assert(built_from(infos[i], hash));
        }
        if exists|i: int| 0 <= i < infos.len() && built_from(#[trigger] infos[i], hash) {
            let i = choose|i: int| 0 <= i < infos.len() && built_from(#[trigger] infos[i], hash);
            if i < n {
                assert(built_from(rest[i], hash));
            }
        }
        assert forall|i: int| 0 <= i < infos.len() && built_from(
            #[trigger] infos[i],
            hash,
        ) implies at_or_before(after[hash], infos[i].build_timestamp->0) by {
            if i < n {
                assert(built_from(rest[i], hash));
            }
        }
    }
}

/// A package that was built from a commit at a known time is reported with a time of the
/// commit that is not after its build.
pub proof fn commit_not_after_build(
    times: Map<Seq<char>, (int, int)>,
    infos: Seq<PackageInfoView>,
    i: int,
)
    requires
        0 <= i < infos.len(),
        infos[i].git_hash is Some,
        infos[i].build_timestamp is Some,
    ensures
        ({
            let report = source_report(
                infos[i],
                time_of_commit(approximated(times, infos), infos[i].git_hash),
            );
            &&& report.fbsd_ports_top_git_timestamp is Some
            &&& at_or_before(
                report.fbsd_ports_top_git_timestamp->0,
                report.fbsd_build_timestamp->0,
            )
        }),
{
    let hash = infos[i].git_hash->0;
    assert(built_from(infos[i], hash));
    earliest_time_counts(times, infos, hash);
}

/// The order of packages makes no difference to the time of a commit.
pub proof fn package_order_is_irrelevant(
    times: Map<Seq<char>, (int, int)>,
    infos: Seq<PackageInfoView>,
    other: Seq<PackageInfoView>,
    hash: Seq<char>,
)
    requires
        infos.to_multiset() == other.to_multiset(),
    ensures
        time_of_commit(approximated(times, infos), Some(hash)) == time_of_commit(
            approximated(times, other),
            Some(hash),
        ),
{
    earliest_time_counts(times, infos, hash);
    earliest_time_counts(times, other, hash);
    infos.to_multiset_ensures();
    other.to_multiset_ensures();
    assert forall|i: int| 0 <= i < infos.len() && built_from(
        #[trigger] infos[i],
        hash,
    ) implies exists|j: int| 0 <= j < other.len() && #[trigger] other[j] == infos[i] by {
        assert(infos.contains(infos[i]));
        assert(infos.to_multiset().count(infos[i]) > 0);
        assert(other.contains(infos[i]));
    }
    assert forall|i: int| 0 <= i < other.len() && built_from(
        #[trigger] other[i],
        hash,
    ) implies exists|j: int| 0 <= j < infos.len() && #[trigger] infos[j] == other[i] by {
        assert(other.contains(other[i]));
        assert(other.to_multiset().count(other[i]) > 0);
        assert(infos.contains(other[i]));
    }
    if approximated(times, infos).contains_key(hash) && approximated(times, other).contains_key(
        hash,
    ) {
        let a = approximated(times, infos)[hash];
        let b = approximated(times, other)[hash];
        assert(at_or_before(a, b));
        assert(at_or_before(b, a));
    }
}

} // verus!
