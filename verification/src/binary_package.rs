//! The table of binary packages.

use crate::views;
use vstd::prelude::*;

verus! {

/// A binary package in the table.
#[derive(Debug, Clone, PartialEq, Eq)]
pub struct BinaryPackage {
    pub id: i32,
    pub source_package_id: i32,
    pub build_input_id: i32,
    pub name: String,
    pub version: String,
    pub architecture: String,
    pub artifact_url: String,
    pub seen_in_last_sync: bool,
}

#[verifier::ext_equal]
pub struct BinaryPackageView {
    pub id: i32,
    pub source_package_id: i32,
    pub build_input_id: i32,
    pub name: Seq<char>,
    pub version: Seq<char>,
    pub architecture: Seq<char>,
    pub artifact_url: Seq<char>,
    pub seen_in_last_sync: bool,
}

impl View for BinaryPackage {
    type V = BinaryPackageView;

    open spec fn view(&self) -> BinaryPackageView {
        BinaryPackageView {
            id: self.id,
            source_package_id: self.source_package_id,
            build_input_id: self.build_input_id,
            name: self.name@,
            version: self.version@,
            architecture: self.architecture@,
            artifact_url: self.artifact_url@,
            seen_in_last_sync: self.seen_in_last_sync,
        }
    }
}

/// A binary package to be put in the table.
#[derive(Debug, Clone, PartialEq, Eq)]
pub struct NewBinaryPackage {
    pub source_package_id: i32,
    pub build_input_id: i32,
    pub name: String,
    pub version: String,
    pub architecture: String,
    pub artifact_url: String,
    pub seen_in_last_sync: bool,
}

#[verifier::ext_equal]
pub struct NewBinaryPackageView {
    pub source_package_id: i32,
    pub build_input_id: i32,
    pub name: Seq<char>,
    pub version: Seq<char>,
    pub architecture: Seq<char>,
    pub artifact_url: Seq<char>,
    pub seen_in_last_sync: bool,
}

impl View for NewBinaryPackage {
    type V = NewBinaryPackageView;

    open spec fn view(&self) -> NewBinaryPackageView {
        NewBinaryPackageView {
            source_package_id: self.source_package_id,
            build_input_id: self.build_input_id,
            name: self.name@,
            version: self.version@,
            architecture: self.architecture@,
            artifact_url: self.artifact_url@,
            seen_in_last_sync: self.seen_in_last_sync,
        }
    }
}

impl NewBinaryPackageView {
    /// The row is that of the same package.
    pub open spec fn conflicts_with(self, row: BinaryPackageView) -> bool {
        &&& row.source_package_id == self.source_package_id
        &&& row.build_input_id == self.build_input_id
        &&& row.name == self.name
        &&& row.version == self.version
        &&& row.architecture == self.architecture
    }

    /// The first row of the same package.
    pub open spec fn conflict_in(self, rows: Seq<BinaryPackageView>, i: int) -> bool {
        &&& 0 <= i < rows.len()
        &&& self.conflicts_with(rows[i])
        &&& forall|j: int| 0 <= j < i ==> !self.conflicts_with(#[trigger] rows[j])
    }

    /// The row of the same package, brought up to date.
    pub open spec fn updated(self, row: BinaryPackageView) -> BinaryPackageView {
        BinaryPackageView {
            artifact_url: self.artifact_url,
            seen_in_last_sync: self.seen_in_last_sync,
            ..row
        }
    }

    /// A row of its own, with the given id.
    pub open spec fn inserted(self, id: i32) -> BinaryPackageView {
        BinaryPackageView {
            id,
            source_package_id: self.source_package_id,
            build_input_id: self.build_input_id,
            name: self.name,
            version: self.version,
            architecture: self.architecture,
            artifact_url: self.artifact_url,
            seen_in_last_sync: self.seen_in_last_sync,
        }
    }

    /// The table with the package in it. A row of its own gets the given id.
    pub open spec fn upserted_into(self, rows: Seq<BinaryPackageView>, id: i32) -> Seq<
        BinaryPackageView,
    > {
        if exists|i: int| self.conflict_in(rows, i) {
            let i = choose|i: int| self.conflict_in(rows, i);
            rows.update(i, self.updated(rows[i]))
        } else {
            rows.push(self.inserted(id))
        }
    }
}

/// How a binary package gets into the table.
pub enum BinaryPackageUpsert {
    /// As a row of its own.
    Insert,
    /// By bringing the row of the same package up to date: this is what it becomes.
    Update(BinaryPackage),
}

impl NewBinaryPackage {
    /// Whether the row is that of the same package.
    fn conflicts(&self, row: &BinaryPackage) -> (r: bool)
        ensures
            r == self@.conflicts_with(row@),
    {
        row.source_package_id == self.source_package_id && row.build_input_id
            == self.build_input_id && row.name == self.name && row.version == self.version
            && row.architecture == self.architecture
    }

    /// Decides how the package gets into the table: the row of the same package gets its
    /// artifact URL, and whether it was seen; without such a row it gets its own.
    pub fn upsert(&self, rows: &Vec<BinaryPackage>) -> (r: BinaryPackageUpsert)
        ensures
            match r {
                BinaryPackageUpsert::Insert => {
                    &&& forall|i: int|
                        0 <= i < rows@.len() ==> !self@.conflicts_with(#[trigger] views(rows@)[i])
                    &&& forall|id: i32| #[trigger]
                        self@.upserted_into(views(rows@), id) == views(rows@).push(
                            self@.inserted(id),
                        )
                },
                BinaryPackageUpsert::Update(row) => exists|i: int|
                    {
                        &&& #[trigger] self@.conflict_in(views(rows@), i)
                        &&& row@ == self@.updated(views(rows@)[i])
                        &&& forall|id: i32| #[trigger]
                            self@.upserted_into(views(rows@), id) == views(rows@).update(i, row@)
                    },
            },
    {
        let mut i: usize = 0;
        while i < rows.len()
            invariant
                i <= rows@.len(),
                forall|j: int| 0 <= j < i ==> !self@.conflicts_with(#[trigger] views(rows@)[j]),
            decreases rows@.len() - i,
        {
            let row = &rows[i];
            if self.conflicts(row) {
                let updated = BinaryPackage {
                    id: row.id,
                    source_package_id: row.source_package_id,
                    build_input_id: row.build_input_id,
                    name: row.name.clone(),
                    version: row.version.clone(),
                    architecture: row.architecture.clone(),
                    artifact_url: self.artifact_url.clone(),
                    seen_in_last_sync: self.seen_in_last_sync,
                };
                proof {
                    assert(views(rows@)[i as int] == row@);
                    assert(self@.conflict_in(views(rows@), i as int));
                    assert forall|id: i32| #[trigger]
                        self@.upserted_into(views(rows@), id) == views(rows@).update(
                            i as int,
                            updated@,
                        ) by {
                        let k = choose|k: int| self@.conflict_in(views(rows@), k);
                        assert(k == i);
                    }
                }
                return BinaryPackageUpsert::Update(updated);
            }
            i += 1;
        }
        BinaryPackageUpsert::Insert
    }
}

/// No package has two rows.
pub open spec fn one_row_each(rows: Seq<BinaryPackageView>) -> bool {
    forall|package: NewBinaryPackageView, i: int, j: int|
        #![trigger package.conflicts_with(rows[i]), package.conflicts_with(rows[j])]
        0 <= i < rows.len() && 0 <= j < rows.len() && package.conflicts_with(rows[i])
            && package.conflicts_with(rows[j]) ==> i == j
}

/// A row of the table is either the one row of the package, which shows the artifact URL and
/// whether it was seen as the package has them, or a row as it was.
pub proof fn upsert_touches_one_row(
    package: NewBinaryPackageView,
    rows: Seq<BinaryPackageView>,
    id: i32,
)
    requires
        one_row_each(rows),
    ensures
        one_row_each(package.upserted_into(rows, id)),
        exists|i: int|
            0 <= i < package.upserted_into(rows, id).len() && package.conflicts_with(
                #[trigger] package.upserted_into(rows, id)[i],
            ),
        forall|i: int|
            0 <= i < package.upserted_into(rows, id).len() ==> {
                let row = #[trigger] package.upserted_into(rows, id)[i];
                if package.conflicts_with(row) {
                    &&& row.artifact_url == package.artifact_url
                    &&& row.seen_in_last_sync == package.seen_in_last_sync
                    &&& i < rows.len() ==> row.id == rows[i].id
                } else {
                    i < rows.len() && row == rows[i]
                }
            },
        forall|i: int|
            0 <= i < rows.len() && !package.conflicts_with(#[trigger] rows[i])
                ==> package.upserted_into(rows, id)[i] == rows[i],
{
    let after = package.upserted_into(rows, id);
    if exists|i: int| package.conflict_in(rows, i) {
        let i = choose|i: int| package.conflict_in(rows, i);
        assert(package.conflicts_with(after[i]));
        assert forall|other: NewBinaryPackageView, a: int, b: int|
            #![trigger other.conflicts_with(after[a]), other.conflicts_with(after[b])]
            0 <= a < after.len() && 0 <= b < after.len() && other.conflicts_with(after[a])
                && other.conflicts_with(after[b]) implies a == b by {
            assert(other.conflicts_with(rows[a]) && other.conflicts_with(rows[b]));
        }
        assert forall|a: int| 0 <= a < after.len() && package.conflicts_with(
            #[trigger] after[a],
        ) implies a == i by {
            assert(package.conflicts_with(rows[a]) && package.conflicts_with(rows[i]));
        }
    } else {
        no_conflict(package, rows);
        let n = rows.len() as int;
        assert(package.conflicts_with(after[n]));
        assert forall|other: NewBinaryPackageView, a: int, b: int|
            #![trigger other.conflicts_with(after[a]), other.conflicts_with(after[b])]
            0 <= a < after.len() && 0 <= b < after.len() && other.conflicts_with(after[a])
                && other.conflicts_with(after[b]) implies a == b by {
            if a < n && b < n {
                assert(other.conflicts_with(rows[a]) && other.conflicts_with(rows[b]));
            } else if a < n {
                assert(package.conflicts_with(rows[a]));
            } else if b < n {
                assert(package.conflicts_with(rows[b]));
            }
        }
    }
}

/// Without a first row of the package there is none.
proof fn no_conflict(package: NewBinaryPackageView, rows: Seq<BinaryPackageView>)
    requires
        !exists|i: int| package.conflict_in(rows, i),
    ensures
        forall|i: int| 0 <= i < rows.len() ==> !package.conflicts_with(#[trigger] rows[i]),
{
    assert forall|i: int| 0 <= i < rows.len() implies !package.conflicts_with(
        #[trigger] rows[i],
    ) by {
        no_conflict_before(package, rows, i + 1);
    }
}

proof fn no_conflict_before(package: NewBinaryPackageView, rows: Seq<BinaryPackageView>, n: int)
    requires
        !exists|i: int| package.conflict_in(rows, i),
        0 <= n <= rows.len(),
    ensures
        forall|i: int| 0 <= i < n ==> !package.conflicts_with(#[trigger] rows[i]),
    decreases n,
{
    if n > 0 {
        no_conflict_before(package, rows, n - 1);
        assert(!package.conflict_in(rows, n - 1));
    }
}

/// To put a package in again changes nothing.
pub proof fn upsert_is_idempotent(
    package: NewBinaryPackageView,
    rows: Seq<BinaryPackageView>,
    id: i32,
    again: i32,
)
    requires
        one_row_each(rows),
    ensures
        package.upserted_into(package.upserted_into(rows, id), again) == package.upserted_into(
            rows,
            id,
        ),
{
    upsert_touches_one_row(package, rows, id);
    let after = package.upserted_into(rows, id);
    if !exists|i: int| package.conflict_in(after, i) {
        no_conflict(package, after);
    }
    let i = choose|i: int| package.conflict_in(after, i);
    assert(package.updated(after[i]) =~= after[i]);
    assert(package.upserted_into(after, again) =~= after);
}

} // verus!
