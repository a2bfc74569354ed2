//! What holds of the local outcome of packages.

use super::api::counts_as;
use super::tables::{last_entry_counts, nothing_else_is_known};
use crate::packages::as_map;
use crate::peers::api::{effective_status, known_status};
use crate::peers::local::{
    artifacts_of, latest_rebuild, latest_rebuild_is_latest, local_list, local_rows, rows_of,
    statuses_named, LocalBinaryPackageView, LocalPackageRowView, Rebuild, RebuildArtifactView,
};
use crate::status::BuildStatus;
use crate::time::at_or_before;
use vstd::prelude::*;

verus! {

/// Where an artifact has a status, that is what counts, whatever the status of the rebuild;
/// where it has none, the status of the rebuild counts.
pub proof fn artifact_counts_before_rebuild(s: BuildStatus, rebuild: Option<BuildStatus>)
    ensures
        known_status(Some(s), rebuild) == Some(s),
        known_status(None, rebuild) == rebuild,
        effective_status(Some(s), rebuild) == s,
        effective_status(None, Some(s)) == s,
        effective_status(None, None) == BuildStatus::Unknown,
{
}

/// The rebuild that counts for a build input has the greatest time, and at the same time the
/// greatest id, of all rebuilds from that input, whatever came of them. There is one exactly
/// where there are rebuilds from the input.
pub proof fn last_built_rebuild_counts(rebuilds: Seq<Rebuild>, build_input_id: i32)
    ensures
        latest_rebuild(rebuilds, build_input_id) is Some <==> exists|i: int|
            0 <= i < rebuilds.len() && (#[trigger] rebuilds[i]).build_input_id == build_input_id,
        latest_rebuild(rebuilds, build_input_id) matches Some(latest) ==> {
            &&& exists|i: int| 0 <= i < rebuilds.len() && #[trigger] rebuilds[i] == latest
            &&& latest.build_input_id == build_input_id
            &&& forall|i: int|
                0 <= i < rebuilds.len() && (#[trigger] rebuilds[i]).build_input_id
                    == build_input_id ==> {
                    &&& at_or_before(rebuilds[i].built_at@, latest.built_at@)
                    &&& rebuilds[i].built_at@ == latest.built_at@ ==> rebuilds[i].id <= latest.id
                }
        },
{
    latest_rebuild_is_latest(rebuilds, build_input_id);
    match latest_rebuild(rebuilds, build_input_id) {
        Some(latest) => {
            let k = choose|k: int| 0 <= k < rebuilds.len() && rebuilds[k] == latest;
            assert(rebuilds[k].build_input_id == build_input_id);
        },
        None => {},
    }
}

/// The artifacts of two lists are those of both.
proof fn artifacts_of_both(
    a: Seq<RebuildArtifactView>,
    b: Seq<RebuildArtifactView>,
    rebuild_id: i32,
    name: Seq<char>,
)
    ensures
        artifacts_of(a + b, rebuild_id) == artifacts_of(a, rebuild_id) + artifacts_of(
            b,
            rebuild_id,
        ),
        statuses_named(a + b, name) == statuses_named(a, name) + statuses_named(b, name),
    decreases b.len(),
{
    if b.len() == 0 {
        assert(a + b =~= a);
        assert(artifacts_of(a, rebuild_id) + artifacts_of(b, rebuild_id) =~= artifacts_of(
            a,
            rebuild_id,
        ));
        assert(statuses_named(a, name) + statuses_named(b, name) =~= statuses_named(a, name));
    } else {
        assert((a + b).drop_last() =~= a + b.drop_last());
        artifacts_of_both(a, b.drop_last(), rebuild_id, name);
        assert(artifacts_of(a + b, rebuild_id) =~= artifacts_of(a, rebuild_id) + artifacts_of(
            b,
            rebuild_id,
        ));
        assert(statuses_named(a + b, name) =~= statuses_named(a, name) + statuses_named(b, name));
    }
}

/// The statuses of a package's artifacts in a rebuild.
pub open spec fn artifact_statuses(
    artifacts: Seq<RebuildArtifactView>,
    rebuild_id: i32,
    name: Seq<char>,
) -> Seq<BuildStatus> {
    statuses_named(artifacts_of(artifacts, rebuild_id), name)
}

/// Each artifact is judged by itself, in its place: it counts for a package where it is of the
/// rebuild in question and has the name of the package.
pub proof fn artifacts_are_judged_one_by_one(
    before: Seq<RebuildArtifactView>,
    artifact: RebuildArtifactView,
    after: Seq<RebuildArtifactView>,
    rebuild_id: i32,
    name: Seq<char>,
)
    ensures
        artifact_statuses(before + seq![artifact] + after, rebuild_id, name)
            == artifact_statuses(before, rebuild_id, name) + (if artifact.rebuild_id == rebuild_id
            && artifact.name == name {
            seq![artifact.status]
        } else {
            Seq::<BuildStatus>::empty()
        }) + artifact_statuses(after, rebuild_id, name),
        artifact_statuses(Seq::empty(), rebuild_id, name).len() == 0,
{
    let one = seq![artifact];
    artifacts_of_both(before + one, after, rebuild_id, name);
    artifacts_of_both(before, one, rebuild_id, name);
    artifacts_of_both(
        artifacts_of(before, rebuild_id) + artifacts_of(one, rebuild_id),
        artifacts_of(after, rebuild_id),
        rebuild_id,
        name,
    );
    artifacts_of_both(
        artifacts_of(before, rebuild_id),
        artifacts_of(one, rebuild_id),
        rebuild_id,
        name,
    );
    reveal_with_fuel(artifacts_of, 2);
    reveal_with_fuel(statuses_named, 2);
    assert(one.drop_last() =~= Seq::<RebuildArtifactView>::empty());
    if artifact.rebuild_id == rebuild_id {
        assert(artifacts_of(one, rebuild_id) =~= one);
        if artifact.name == name {
            assert(statuses_named(one, name) =~= seq![artifact.status]);
        } else {
            assert(statuses_named(one, name) =~= Seq::<BuildStatus>::empty());
        }
    } else {
        assert(artifacts_of(one, rebuild_id) =~= Seq::<RebuildArtifactView>::empty());
    }
}

/// A package has a row for each artifact of its name in the rebuild that counts, with the status
/// of the artifact and that of the rebuild; without such an artifact, one row with the status of
/// the rebuild alone; and without a rebuild, one row without a status.
pub proof fn packages_have_these_rows(
    package: LocalBinaryPackageView,
    rebuilds: Seq<Rebuild>,
    artifacts: Seq<RebuildArtifactView>,
)
    ensures
        ({
            let rows = rows_of(package, rebuilds, artifacts);
            &&& rows.len() > 0
            &&& forall|i: int|
                0 <= i < rows.len() ==> (#[trigger] rows[i]).name == package.name
                    && rows[i].version == package.version
            &&& latest_rebuild(rebuilds, package.build_input_id) is None ==> rows.len() == 1
                && rows[0].artifact_status is None && rows[0].rebuild_status is None
            &&& latest_rebuild(rebuilds, package.build_input_id) matches Some(rebuild) ==> {
                let statuses = artifact_statuses(artifacts, rebuild.id, package.name);
                &&& forall|i: int|
                    0 <= i < rows.len() ==> (#[trigger] rows[i]).rebuild_status == rebuild.status
                &&& statuses.len() == 0 ==> rows.len() == 1 && rows[0].artifact_status is None
                &&& statuses.len() > 0 ==> rows.len() == statuses.len()
                &&& forall|i: int|
                    0 <= i < statuses.len() ==> (#[trigger] rows[i]).artifact_status == Some(
                        statuses[i],
                    )
            }
        }),
{
}

/// The rows of two lists are those of both.
proof fn rows_of_both(
    a: Seq<LocalBinaryPackageView>,
    b: Seq<LocalBinaryPackageView>,
    rebuilds: Seq<Rebuild>,
    artifacts: Seq<RebuildArtifactView>,
    distribution: Seq<char>,
    architecture: Seq<char>,
)
    ensures
        local_rows(a + b, rebuilds, artifacts, distribution, architecture) == local_rows(
            a,
            rebuilds,
            artifacts,
            distribution,
            architecture,
        ) + local_rows(b, rebuilds, artifacts, distribution, architecture),
    decreases b.len(),
{
    let left = local_rows(a, rebuilds, artifacts, distribution, architecture);
    let right = local_rows(b, rebuilds, artifacts, distribution, architecture);
    let both = local_rows(a + b, rebuilds, artifacts, distribution, architecture);
    if b.len() == 0 {
        assert(a + b =~= a);
        assert(left + right =~= left);
    } else {
        assert((a + b).drop_last() =~= a + b.drop_last());
        rows_of_both(a, b.drop_last(), rebuilds, artifacts, distribution, architecture);
        assert(both =~= left + right);
    }
}

/// Each package is judged by itself, in its place: it counts where it is of the distribution
/// and architecture in question and was seen in the last sync.
pub proof fn packages_are_judged_one_by_one(
    before: Seq<LocalBinaryPackageView>,
    package: LocalBinaryPackageView,
    after: Seq<LocalBinaryPackageView>,
    rebuilds: Seq<Rebuild>,
    artifacts: Seq<RebuildArtifactView>,
    distribution: Seq<char>,
    architecture: Seq<char>,
)
    ensures
        local_rows(
            before + seq![package] + after,
            rebuilds,
            artifacts,
            distribution,
            architecture,
        ) == local_rows(before, rebuilds, artifacts, distribution, architecture) + (if
        package.distribution == distribution && package.architecture == architecture
            && package.seen_in_last_sync {
            rows_of(package, rebuilds, artifacts)
        } else {
            Seq::<LocalPackageRowView>::empty()
        }) + local_rows(after, rebuilds, artifacts, distribution, architecture),
        local_rows(Seq::empty(), rebuilds, artifacts, distribution, architecture).len() == 0,
{
    let one = seq![package];
    rows_of_both(before + one, after, rebuilds, artifacts, distribution, architecture);
    rows_of_both(before, one, rebuilds, artifacts, distribution, architecture);
    reveal_with_fuel(local_rows, 2);
    assert(one.drop_last() =~= Seq::<LocalBinaryPackageView>::empty());
    let rows = rows_of(package, rebuilds, artifacts);
    assert(Seq::<LocalPackageRowView>::empty() + rows =~= rows);
}

/// What is known locally of a package is what its last row says: the status of its artifact,
/// whatever that of the rebuild; without one, the status of the rebuild; without either, that it
/// is unknown.
pub proof fn last_row_counts(rows: Seq<LocalPackageRowView>, i: int)
    requires
        0 <= i < rows.len(),
        forall|j: int|
            i < j < rows.len() ==> (#[trigger] rows[j]).name != rows[i].name || rows[j].version
                != rows[i].version,
    ensures
        ({
            let known = as_map(local_list(rows));
            let key = (rows[i].name, rows[i].version);
            &&& known.contains_key(key)
            &&& counts_as(known[key].status, rows[i].artifact_status, rows[i].rebuild_status)
        }),
{
    let entries = local_list(rows);
    assert(entries[i].0 == (rows[i].name, rows[i].version));
    assert forall|j: int| i < j < entries.len() implies (#[trigger] entries[j]).0
        != entries[i].0 by {
        assert(entries[j].0 == (rows[j].name, rows[j].version));
    }
    last_entry_counts(entries, i);
}

/// A package without a row is not known locally.
pub proof fn packages_without_rows_are_not_known(
    rows: Seq<LocalPackageRowView>,
    name: Seq<char>,
    version: Seq<char>,
)
    requires
        forall|i: int|
            0 <= i < rows.len() ==> (#[trigger] rows[i]).name != name || rows[i].version
                != version,
    ensures
        !as_map(local_list(rows)).contains_key((name, version)),
{
    let entries = local_list(rows);
    assert forall|i: int| 0 <= i < entries.len() implies (#[trigger] entries[i]).0 != (
        name,
        version,
    ) by {
        assert(entries[i].0 == (rows[i].name, rows[i].version));
    }
    nothing_else_is_known(entries, (name, version));
}

} // verus!
