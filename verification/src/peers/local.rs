//! What is known locally of the packages that peers report on: the outcome of the latest
//! rebuild of each.

use super::api::{effective_status, status_or_unknown};
use crate::packages::{as_map, PackageKey, PackageMap};
use crate::status::BuildStatus;
use crate::text::same_text;
use crate::time::{at_or_before, Timestamp};
use crate::views;
use std::collections::HashMap;
use vstd::prelude::*;

verus! {

broadcast use vstd::std_specs::hash::group_hash_axioms;

/// A binary package, where it belongs, and what it is built from.
#[derive(Debug)]
pub struct LocalBinaryPackage {
    pub name: String,
    pub version: String,
    pub distribution: String,
    pub architecture: String,
    pub build_input_id: i32,
    pub seen_in_last_sync: bool,
}

#[verifier::ext_equal]
pub struct LocalBinaryPackageView {
    pub name: Seq<char>,
    pub version: Seq<char>,
    pub distribution: Seq<char>,
    pub architecture: Seq<char>,
    pub build_input_id: i32,
    pub seen_in_last_sync: bool,
}

impl View for LocalBinaryPackage {
    type V = LocalBinaryPackageView;

    open spec fn view(&self) -> LocalBinaryPackageView {
        LocalBinaryPackageView {
            name: self.name@,
            version: self.version@,
            distribution: self.distribution@,
            architecture: self.architecture@,
            build_input_id: self.build_input_id,
            seen_in_last_sync: self.seen_in_last_sync,
        }
    }
}

/// A rebuild.
#[derive(Debug, Clone, Copy)]
pub struct Rebuild {
    pub id: i32,
    pub build_input_id: i32,
    pub status: Option<BuildStatus>,
    pub built_at: Timestamp,
}

/// What a rebuild made of an artifact.
#[derive(Debug)]
pub struct RebuildArtifact {
    pub rebuild_id: i32,
    pub name: String,
    pub status: BuildStatus,
}

#[verifier::ext_equal]
pub struct RebuildArtifactView {
    pub rebuild_id: i32,
    pub name: Seq<char>,
    pub status: BuildStatus,
}

impl View for RebuildArtifact {
    type V = RebuildArtifactView;

    open spec fn view(&self) -> RebuildArtifactView {
        RebuildArtifactView {
            rebuild_id: self.rebuild_id,
            name: self.name@,
            status: self.status,
        }
    }
}

/// A local binary package with the status of its artifact in the latest rebuild, and the
/// status of that rebuild, where there is one.
#[derive(Debug)]
pub struct LocalPackageRow {
    pub name: String,
    pub version: String,
    pub artifact_status: Option<BuildStatus>,
    pub rebuild_status: Option<BuildStatus>,
}

#[verifier::ext_equal]
pub struct LocalPackageRowView {
    pub name: Seq<char>,
    pub version: Seq<char>,
    pub artifact_status: Option<BuildStatus>,
    pub rebuild_status: Option<BuildStatus>,
}

impl View for LocalPackageRow {
    type V = LocalPackageRowView;

    open spec fn view(&self) -> LocalPackageRowView {
        LocalPackageRowView {
            name: self.name@,
            version: self.version@,
            artifact_status: self.artifact_status,
            rebuild_status: self.rebuild_status,
        }
    }
}

// ---------------------------------------------------------------------------
// The latest rebuild
// ---------------------------------------------------------------------------

/// One rebuild is later than another: it was built later or, at the same time, under a higher
/// id.
pub open spec fn later(a: Rebuild, b: Rebuild) -> bool {
    if a.built_at@ == b.built_at@ {
        a.id > b.id
    } else {
        at_or_before(b.built_at@, a.built_at@)
    }
}

/// The latest rebuild from a build input.
pub open spec fn latest_rebuild(rebuilds: Seq<Rebuild>, build_input_id: i32) -> Option<Rebuild>
    decreases rebuilds.len(),
{
    if rebuilds.len() == 0 {
        None
    } else {
        let before = latest_rebuild(rebuilds.drop_last(), build_input_id);
        let rebuild = rebuilds.last();
        if rebuild.build_input_id == build_input_id && (before matches Some(other) ==> later(
            rebuild,
            other,
        )) {
            Some(rebuild)
        } else {
            before
        }
    }
}

/// The latest rebuild from a build input is one of them that no other is later than; there is
/// none where there is no rebuild from it.
pub proof fn latest_rebuild_is_latest(rebuilds: Seq<Rebuild>, build_input_id: i32)
    ensures
        match latest_rebuild(rebuilds, build_input_id) {
            Some(latest) => {
                &&& latest.build_input_id == build_input_id
                &&& rebuilds.contains(latest)
                &&& forall|i: int|
                    0 <= i < rebuilds.len() && (#[trigger] rebuilds[i]).build_input_id
                        == build_input_id ==> !later(rebuilds[i], latest)
            },
            None => forall|i: int|
                0 <= i < rebuilds.len() ==> (#[trigger] rebuilds[i]).build_input_id
                    != build_input_id,
        },
    decreases rebuilds.len(),
{
    if rebuilds.len() > 0 {
        let rest = rebuilds.drop_last();
        let n = rebuilds.len() - 1;
        latest_rebuild_is_latest(rest, build_input_id);
        assert(forall|i: int| 0 <= i < rest.len() ==> #[trigger] rest[i] == rebuilds[i]);
        match latest_rebuild(rest, build_input_id) {
            Some(other) => {
                let k = choose|k: int| 0 <= k < rest.len() && rest[k] == other;
                assert(rebuilds[k] == other);
                assert(rebuilds[n] == rebuilds.last());
                assert forall|i: int|
                    0 <= i < rebuilds.len() && (#[trigger] rebuilds[i]).build_input_id
                        == build_input_id implies !later(
                    rebuilds[i],
                    latest_rebuild(rebuilds, build_input_id)->0,
                ) by {
                    if i < n {
                        assert(!later(rest[i], other));
                    }
                }
            },
            None => {
                assert(rebuilds[n] == rebuilds.last());
                assert forall|i: int| 0 <= i < n implies (#[trigger] rebuilds[i]).build_input_id
                    != build_input_id by {
                    assert(rest[i].build_input_id != build_input_id);
                }
            },
        }
    }
}

/// Whether one rebuild is later than another.
fn is_later(a: &Rebuild, b: &Rebuild) -> (r: bool)
    ensures
        r == later(*a, *b),
{
    let not_before = b.built_at.at_or_before(&a.built_at);
    let not_after = a.built_at.at_or_before(&b.built_at);
    if not_before && not_after {
        a.id > b.id
    } else {
        not_before
    }
}

/// The index knows the position of the latest rebuild from a build input among the first `n`.
spec fn knows_latest(rebuilds: Seq<Rebuild>, n: int, index: Map<i32, usize>, id: i32) -> bool {
    match latest_rebuild(rebuilds.take(n), id) {
        Some(latest) => index.contains_key(id) && index[id] < n && rebuilds[index[id] as int]
            == latest,
        None => !index.contains_key(id),
    }
}

/// The position of the latest rebuild, by build input.
fn index_rebuilds(rebuilds: &Vec<Rebuild>) -> (r: HashMap<i32, usize>)
    ensures
        forall|id: i32| knows_latest(rebuilds@, rebuilds@.len() as int, r@, id),
{
    let mut index: HashMap<i32, usize> = HashMap::new();
    let mut i: usize = 0;
    while i < rebuilds.len()
        invariant
            i <= rebuilds@.len(),
            forall|id: i32| knows_latest(rebuilds@, i as int, index@, id),
        decreases rebuilds@.len() - i,
    {
        let rebuild = &rebuilds[i];
        let id: i32 = rebuild.build_input_id;
        let ghost before = index@;
        proof {
            assert(rebuilds@.take(i + 1).drop_last() =~= rebuilds@.take(i as int));
            assert(rebuilds@.take(i + 1).last() == *rebuild);
            assert(knows_latest(rebuilds@, i as int, before, id));
        }
        let newest = match index.get(&id) {
            Some(other) => {
                let other: usize = *other;
                is_later(rebuild, &rebuilds[other])
            },
            None => true,
        };
        if newest {
            index.insert(id, i);
        }
        proof {
            let n: int = i + 1;
            assert forall|other: i32| knows_latest(rebuilds@, n, index@, other) by {
                assert(knows_latest(rebuilds@, i as int, before, other));
            }
        }
        i += 1;
    }
    index
}

// ---------------------------------------------------------------------------
// Artifacts
// ---------------------------------------------------------------------------

/// The artifacts of a rebuild.
pub open spec fn artifacts_of(artifacts: Seq<RebuildArtifactView>, rebuild_id: i32) -> Seq<
    RebuildArtifactView,
>
    decreases artifacts.len(),
{
    if artifacts.len() == 0 {
        Seq::empty()
    } else {
        let before = artifacts_of(artifacts.drop_last(), rebuild_id);
        if artifacts.last().rebuild_id == rebuild_id {
            before.push(artifacts.last())
        } else {
            before
        }
    }
}

/// The statuses of the artifacts with a given name.
pub open spec fn statuses_named(artifacts: Seq<RebuildArtifactView>, name: Seq<char>) -> Seq<
    BuildStatus,
>
    decreases artifacts.len(),
{
    if artifacts.len() == 0 {
        Seq::empty()
    } else {
        let before = statuses_named(artifacts.drop_last(), name);
        if artifacts.last().name == name {
            before.push(artifacts.last().status)
        } else {
            before
        }
    }
}

/// The artifacts at the given positions.
spec fn at_positions(artifacts: Seq<RebuildArtifact>, positions: Seq<usize>) -> Seq<
    RebuildArtifactView,
> {
    positions.map_values(|p: usize| artifacts[p as int]@)
}

/// Positions of artifacts.
spec fn positions_valid(artifacts: Seq<RebuildArtifact>, positions: Seq<usize>) -> bool {
    forall|k: int| 0 <= k < positions.len() ==> #[trigger] positions[k] < artifacts.len()
}

/// The index knows the positions of the artifacts of each rebuild among the first `n`.
spec fn artifacts_indexed(
    artifacts: Seq<RebuildArtifact>,
    n: int,
    index: Map<i32, Vec<usize>>,
) -> bool {
    forall|id: i32|
        if #[trigger] index.contains_key(id) {
            &&& positions_valid(artifacts, index[id]@)
            &&& at_positions(artifacts, index[id]@) == artifacts_of(views(artifacts).take(n), id)
        } else {
            artifacts_of(views(artifacts).take(n), id).len() == 0
        }
}

/// The positions of the artifacts of each rebuild.
fn index_artifacts(artifacts: &Vec<RebuildArtifact>) -> (r: HashMap<i32, Vec<usize>>)
    ensures
        artifacts_indexed(artifacts@, artifacts@.len() as int, r@),
{
    let mut index: HashMap<i32, Vec<usize>> = HashMap::new();
    let mut i: usize = 0;
    let ghost all = views(artifacts@);
    proof {
        assert(all.take(0) =~= Seq::<RebuildArtifactView>::empty());
    }
    while i < artifacts.len()
        invariant
            i <= artifacts@.len(),
            all == views(artifacts@),
            artifacts_indexed(artifacts@, i as int, index@),
        decreases artifacts@.len() - i,
    {
        let id: i32 = artifacts[i].rebuild_id;
        let ghost old_index = index@;
        let mut positions: Vec<usize> = match index.remove(&id) {
            Some(positions) => positions,
            None => Vec::new(),
        };
        let ghost earlier = positions@;
        proof {
            assert(old_index.contains_key(id) ==> earlier == old_index[id]@);
            assert(at_positions(artifacts@, earlier) =~= artifacts_of(all.take(i as int), id));
        }
        positions.push(i);
        index.insert(id, positions);
        proof {
            assert(all.take(i + 1).drop_last() =~= all.take(i as int));
            assert(all.take(i + 1).last() == artifacts@[i as int]@);
            assert(at_positions(artifacts@, positions@) =~= at_positions(
                artifacts@,
                earlier,
            ).push(artifacts@[i as int]@));
            assert forall|other: i32|
                if #[trigger] index@.contains_key(other) {
                    &&& positions_valid(artifacts@, index@[other]@)
                    &&& at_positions(artifacts@, index@[other]@) == artifacts_of(
                        all.take(i + 1),
                        other,
                    )
                } else {
                    artifacts_of(all.take(i + 1), other).len() == 0
                } by {
                if other != id {
                    assert(index@.contains_key(other) == old_index.contains_key(other));
                }
            }
        }
        i += 1;
    }
    index
}

// ---------------------------------------------------------------------------
// Local packages
// ---------------------------------------------------------------------------

/// The rows of a package: one for each artifact of its name in its latest rebuild or, where
/// there is no such artifact, one without the status of an artifact.
pub open spec fn rows_of(
    package: LocalBinaryPackageView,
    rebuilds: Seq<Rebuild>,
    artifacts: Seq<RebuildArtifactView>,
) -> Seq<LocalPackageRowView> {
    let row = LocalPackageRowView {
        name: package.name,
        version: package.version,
        artifact_status: None,
        rebuild_status: None,
    };
    match latest_rebuild(rebuilds, package.build_input_id) {
        None => seq![row],
        Some(rebuild) => {
            let row = LocalPackageRowView { rebuild_status: rebuild.status, ..row };
            let statuses = statuses_named(artifacts_of(artifacts, rebuild.id), package.name);
            if statuses.len() == 0 {
                seq![row]
            } else {
                statuses.map_values(
                    |status: BuildStatus|
                        LocalPackageRowView { artifact_status: Some(status), ..row },
                )
            }
        },
    }
}

/// The rows of the packages that are currently seen in a distribution and architecture.
pub open spec fn local_rows(
    packages: Seq<LocalBinaryPackageView>,
    rebuilds: Seq<Rebuild>,
    artifacts: Seq<RebuildArtifactView>,
    distribution: Seq<char>,
    architecture: Seq<char>,
) -> Seq<LocalPackageRowView>
    decreases packages.len(),
{
    if packages.len() == 0 {
        Seq::empty()
    } else {
        let before = local_rows(
            packages.drop_last(),
            rebuilds,
            artifacts,
            distribution,
            architecture,
        );
        let package = packages.last();
        if package.distribution == distribution && package.architecture == architecture
            && package.seen_in_last_sync {
            before + rows_of(package, rebuilds, artifacts)
        } else {
            before
        }
    }
}

/// Adds the rows of a package, given its latest rebuild and the artifacts of that.
fn push_rows(
    package: &LocalBinaryPackage,
    rebuild: &Rebuild,
    artifacts: &Vec<RebuildArtifact>,
    positions: &Vec<usize>,
    rows: &mut Vec<LocalPackageRow>,
)
    requires
        positions_valid(artifacts@, positions@),
    ensures
        ({
            let row = LocalPackageRowView {
                name: package@.name,
                version: package@.version,
                artifact_status: None,
                rebuild_status: rebuild.status,
            };
            let statuses = statuses_named(at_positions(artifacts@, positions@), package@.name);
            views(final(rows)@) == views(old(rows)@) + if statuses.len() == 0 {
                seq![row]
            } else {
                statuses.map_values(
                    |status: BuildStatus|
                        LocalPackageRowView { artifact_status: Some(status), ..row },
                )
            }
        }),
{
    let ghost row = LocalPackageRowView {
        name: package@.name,
        version: package@.version,
        artifact_status: None,
        rebuild_status: rebuild.status,
    };
    let ghost with_status = |status: BuildStatus|
        LocalPackageRowView { artifact_status: Some(status), ..row };
    let ghost all = at_positions(artifacts@, positions@);
    let ghost before = views(rows@);
    let mut found = false;
    let mut i: usize = 0;
    proof {
        assert(all.take(0) =~= Seq::<RebuildArtifactView>::empty());
        assert(before + Seq::<BuildStatus>::empty().map_values(with_status) =~= before);
    }
    while i < positions.len()
        invariant
            i <= positions@.len(),
            positions_valid(artifacts@, positions@),
            all == at_positions(artifacts@, positions@),
            row.name == package@.name,
            row.version == package@.version,
            row.rebuild_status == rebuild.status,
            with_status == (|status: BuildStatus|
                LocalPackageRowView { artifact_status: Some(status), ..row }),
            found == (statuses_named(all.take(i as int), package@.name).len() > 0),
            views(rows@) == before + statuses_named(
                all.take(i as int),
                package@.name,
            ).map_values(with_status),
        decreases positions@.len() - i,
    {
        let artifact = &artifacts[positions[i]];
        let ghost earlier = statuses_named(all.take(i as int), package@.name);
        proof {
            assert(all.take(i + 1).drop_last() =~= all.take(i as int));
            assert(all.take(i + 1).last() == artifact@);
        }
        if same_text(artifact.name.as_str(), package.name.as_str()) {
            let ghost was = rows@;
            rows.push(
                LocalPackageRow {
                    name: package.name.clone(),
                    version: package.version.clone(),
                    artifact_status: Some(artifact.status),
                    rebuild_status: rebuild.status,
                },
            );
            found = true;
            proof {
                assert(views(rows@) =~= views(was).push(with_status(artifact.status)));
                assert(earlier.push(artifact.status).map_values(with_status)
                    =~= earlier.map_values(with_status).push(with_status(artifact.status)));
                assert(views(rows@) =~= before + earlier.push(artifact.status).map_values(
                    with_status,
                ));
            }
        }
        i += 1;
    }
    proof {
        assert(all.take(i as int) =~= all);
    }
    if !found {
        let ghost was = rows@;
        rows.push(
            LocalPackageRow {
                name: package.name.clone(),
                version: package.version.clone(),
                artifact_status: None,
                rebuild_status: rebuild.status,
            },
        );
        proof {
            assert(views(rows@) =~= views(was).push(row));
            assert(views(was) =~= before);
            assert(views(rows@) =~= before + seq![row]);
        }
    }
}

/// The binary packages that are currently seen in a distribution and architecture, each with
/// the outcome of its latest rebuild.
pub fn fetch_local_packages(
    packages: &Vec<LocalBinaryPackage>,
    rebuilds: &Vec<Rebuild>,
    artifacts: &Vec<RebuildArtifact>,
    distribution: &str,
    architecture: &str,
) -> (r: Vec<LocalPackageRow>)
    ensures
        views(r@) == local_rows(
            views(packages@),
            rebuilds@,
            views(artifacts@),
            distribution@,
            architecture@,
        ),
{
    let latest = index_rebuilds(rebuilds);
    let by_rebuild = index_artifacts(artifacts);
    let none: Vec<usize> = Vec::new();
    let ghost all = views(packages@);
    let ghost arts = views(artifacts@);
    let mut rows: Vec<LocalPackageRow> = Vec::new();
    let mut i: usize = 0;
    proof {
        assert(arts.take(artifacts@.len() as int) =~= arts);
        assert(rebuilds@.take(rebuilds@.len() as int) =~= rebuilds@);
        assert(all.take(0) =~= Seq::<LocalBinaryPackageView>::empty());
        assert(views(rows@) =~= Seq::<LocalPackageRowView>::empty());
    }
    while i < packages.len()
        invariant
            i <= packages@.len(),
            all == views(packages@),
            arts == views(artifacts@),
            arts.take(artifacts@.len() as int) == arts,
            none@.len() == 0,
            rebuilds@.take(rebuilds@.len() as int) == rebuilds@,
            forall|id: i32| knows_latest(rebuilds@, rebuilds@.len() as int, latest@, id),
            artifacts_indexed(artifacts@, artifacts@.len() as int, by_rebuild@),
            views(rows@) == local_rows(
                all.take(i as int),
                rebuilds@,
                arts,
                distribution@,
                architecture@,
            ),
        decreases packages@.len() - i,
    {
        let package = &packages[i];
        proof {
            assert(all.take(i + 1).drop_last() =~= all.take(i as int));
            assert(all.take(i + 1).last() == package@);
        }
        if package.seen_in_last_sync && same_text(package.distribution.as_str(), distribution)
            && same_text(package.architecture.as_str(), architecture) {
            let ghost was = rows@;
            proof {
                assert(knows_latest(
                    rebuilds@,
                    rebuilds@.len() as int,
                    latest@,
                    package.build_input_id,
                ));
            }
            match latest.get(&package.build_input_id) {
                Some(position) => {
                    let position: usize = *position;
                    let rebuild = &rebuilds[position];
                    let positions = match by_rebuild.get(&rebuild.id) {
                        Some(positions) => positions,
                        None => &none,
                    };
                    proof {
                        assert(at_positions(artifacts@, positions@) =~= artifacts_of(
                            arts,
                            rebuild.id,
                        ));
                    }
                    push_rows(package, rebuild, artifacts, positions, &mut rows);
                    proof {
                        assert(views(rows@) =~= views(was) + rows_of(package@, rebuilds@, arts));
                    }
                },
                None => {
                    rows.push(
                        LocalPackageRow {
                            name: package.name.clone(),
                            version: package.version.clone(),
                            artifact_status: None,
                            rebuild_status: None,
                        },
                    );
                    proof {
                        assert(views(rows@) =~= views(was) + rows_of(package@, rebuilds@, arts));
                    }
                },
            }
        }
        i += 1;
    }
    proof {
        assert(all.take(i as int) =~= all);
    }
    rows
}

// ---------------------------------------------------------------------------
// What is known of each package
// ---------------------------------------------------------------------------

/// What is known locally of a package.
#[derive(Debug, Clone, Copy)]
pub struct LocalPkgInfo {
    pub status: BuildStatus,
}

/// What a row says of its package: the status of the artifact counts first, then that of the
/// rebuild.
pub open spec fn local_package(row: LocalPackageRowView) -> (PackageKey, LocalPkgInfo) {
    (
        (row.name, row.version),
        LocalPkgInfo { status: effective_status(row.artifact_status, row.rebuild_status) },
    )
}

/// What rows say of their packages.
pub open spec fn local_list(rows: Seq<LocalPackageRowView>) -> Seq<(PackageKey, LocalPkgInfo)> {
    rows.map_values(|row: LocalPackageRowView| local_package(row))
}

/// What is known locally of each package.
pub fn local_packages(rows: &Vec<LocalPackageRow>) -> (r: PackageMap<LocalPkgInfo>)
    ensures
        r@ == as_map(local_list(views(rows@))),
{
    let ghost entries = local_list(views(rows@));
    let mut packages: PackageMap<LocalPkgInfo> = PackageMap::new();
    let mut i: usize = 0;
    proof {
        assert(entries.take(0) =~= Seq::<(PackageKey, LocalPkgInfo)>::empty());
    }
    while i < rows.len()
        invariant
            i <= rows@.len(),
            entries == local_list(views(rows@)),
            packages@ == as_map(entries.take(i as int)),
        decreases rows@.len() - i,
    {
        let row = &rows[i];
        proof {
            assert(entries.take(i + 1).drop_last() =~= entries.take(i as int));
            assert(entries.take(i + 1).last() == local_package(row@));
        }
        packages = packages.insert(
            row.name.clone(),
            row.version.clone(),
            LocalPkgInfo { status: status_or_unknown(row.artifact_status, row.rebuild_status) },
        );
        i += 1;
    }
    proof {
        assert(entries.take(i as int) =~= entries);
    }
    packages
}

} // verus!
