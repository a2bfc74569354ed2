//! What holds of packages by name and version, and of the table of binary packages.

use crate::binary_package::{BinaryPackageView, NewBinaryPackageView};
use crate::packages::{as_map, put_in, with_entries, PackageKey};
use vstd::prelude::*;

verus! {

/// What is known of a package is what was put in last of it.
pub proof fn last_entry_counts<V>(entries: Seq<(PackageKey, V)>, i: int)
    requires
        0 <= i < entries.len(),
        forall|j: int| i < j < entries.len() ==> (#[trigger] entries[j]).0 != entries[i].0,
    ensures
        as_map(entries).contains_key(entries[i].0),
        as_map(entries)[entries[i].0] == entries[i].1,
    decreases entries.len(),
{
    let n = entries.len() - 1;
    if i < n {
        let rest = entries.drop_last();
        assert(entries[n].0 != entries[i].0);
        assert forall|j: int| i < j < rest.len() implies (#[trigger] rest[j]).0 != rest[i].0 by {
            assert(rest[j] == entries[j]);
        }
        last_entry_counts(rest, i);
    }
}

/// A package of which nothing was put in is not known.
pub proof fn nothing_else_is_known<V>(entries: Seq<(PackageKey, V)>, key: PackageKey)
    requires
        forall|i: int| 0 <= i < entries.len() ==> (#[trigger] entries[i]).0 != key,
    ensures
        !as_map(entries).contains_key(key),
    decreases entries.len(),
{
    if entries.len() > 0 {
        let rest = entries.drop_last();
        assert forall|i: int| 0 <= i < rest.len() implies (#[trigger] rest[i]).0 != key by {
            assert(rest[i] == entries[i]);
        }
        assert(entries[entries.len() - 1].0 != key);
        nothing_else_is_known(rest, key);
    }
}

/// Entries that are put in a map replace what it knows of their packages, and leave the others.
pub proof fn entries_replace_what_is_known<V>(
    packages: Map<PackageKey, V>,
    entries: Seq<(PackageKey, V)>,
    key: PackageKey,
)
    ensures
        as_map(entries).contains_key(key) ==> with_entries(packages, entries).contains_key(key)
            && with_entries(packages, entries)[key] == as_map(entries)[key],
        !as_map(entries).contains_key(key) ==> (with_entries(packages, entries).contains_key(key)
            <==> packages.contains_key(key)) && (packages.contains_key(key) ==> with_entries(
            packages,
            entries,
        )[key] == packages[key]),
    decreases entries.len(),
{
    if entries.len() > 0 {
        entries_replace_what_is_known(packages, entries.drop_last(), key);
    }
}

/// A package that is put in keeps its place, or comes last where it is new; nothing else moves.
pub proof fn packages_keep_their_places<V>(
    before: Seq<(PackageKey, V)>,
    key: PackageKey,
    info: V,
    after: Seq<(PackageKey, V)>,
    i: int,
)
    requires
        put_in(before, key, info, after),
        0 <= i < before.len(),
    ensures
        after.len() == before.len() || (after.len() == before.len() + 1 && after.last() == (
            key,
            info,
        )),
        after[i].0 == before[i].0,
        before[i].0 != key ==> after[i] == before[i],
        exists|j: int| 0 <= j < after.len() && #[trigger] after[j] == (key, info),
{
    if exists|k: int|
        0 <= k < before.len() && (#[trigger] before[k]).0 == key && after == before.update(
            k,
            (key, info),
        ) {
        let k = choose|k: int|
            0 <= k < before.len() && (#[trigger] before[k]).0 == key && after == before.update(
                k,
                (key, info),
            );
        assert(after[k] == (key, info));
    } else {
        assert(after[before.len() as int] == (key, info));
    }
}

/// A package that is known already makes for no further entry; a new one comes behind the
/// entries as they were.
pub proof fn new_packages_come_last<V>(
    before: Seq<(PackageKey, V)>,
    key: PackageKey,
    info: V,
    after: Seq<(PackageKey, V)>,
)
    requires
        put_in(before, key, info, after),
    ensures
        (exists|i: int| 0 <= i < before.len() && (#[trigger] before[i]).0 == key) ==> after.len()
            == before.len(),
        !(exists|i: int| 0 <= i < before.len() && (#[trigger] before[i]).0 == key) ==> after
            == before + seq![(key, info)],
{
    if !(exists|i: int| 0 <= i < before.len() && (#[trigger] before[i]).0 == key) {
        assert(after =~= before + seq![(key, info)]);
    }
}

/// The row is that of a package with the same source, build input, name, version and
/// architecture.
pub open spec fn same_package(package: NewBinaryPackageView, row: BinaryPackageView) -> bool {
    (
        row.source_package_id,
        row.build_input_id,
        row.name,
        row.version,
        row.architecture,
    ) == (
        package.source_package_id,
        package.build_input_id,
        package.name,
        package.version,
        package.architecture,
    )
}

/// Where the table has a row of the same package, that row gets the artifact URL and whether the
/// package was seen, and stays otherwise as it is, id included; no other row changes.
pub proof fn upsert_updates_the_known_row(
    package: NewBinaryPackageView,
    rows: Seq<BinaryPackageView>,
    id: i32,
    i: int,
)
    requires
        0 <= i < rows.len(),
        same_package(package, rows[i]),
        forall|j: int| 0 <= j < i ==> !same_package(package, #[trigger] rows[j]),
    ensures
        ({
            let after = package.upserted_into(rows, id);
            &&& after.len() == rows.len()
            &&& after[i].id == rows[i].id
            &&& same_package(package, after[i])
            &&& after[i].artifact_url == package.artifact_url
            &&& after[i].seen_in_last_sync == package.seen_in_last_sync
            &&& forall|j: int| 0 <= j < rows.len() && j != i ==> #[trigger] after[j] == rows[j]
        }),
{
    assert forall|j: int| 0 <= j < rows.len() implies package.conflicts_with(#[trigger] rows[j])
        == same_package(package, rows[j]) by {}
    assert(package.conflict_in(rows, i));
    let k = choose|k: int| package.conflict_in(rows, k);
    assert(k == i);
}

/// Where the table has no row of the same package, the package gets one of its own behind the
/// others, with everything that it has, and no other row changes.
pub proof fn upsert_adds_a_row(
    package: NewBinaryPackageView,
    rows: Seq<BinaryPackageView>,
    id: i32,
)
    requires
        forall|j: int| 0 <= j < rows.len() ==> !same_package(package, #[trigger] rows[j]),
    ensures
        ({
            let after = package.upserted_into(rows, id);
            let row = after.last();
            &&& after.len() == rows.len() + 1
            &&& forall|j: int| 0 <= j < rows.len() ==> #[trigger] after[j] == rows[j]
            &&& row.id == id
            &&& same_package(package, row)
            &&& row.artifact_url == package.artifact_url
            &&& row.seen_in_last_sync == package.seen_in_last_sync
        }),
{
    assert forall|j: int| 0 <= j < rows.len() implies !package.conflicts_with(
        #[trigger] rows[j],
    ) by {
        assert(!same_package(package, rows[j]));
    }
}

} // verus!
