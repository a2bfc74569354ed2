//! What is known of each binary package, by name and version.

use vstd::hash_map::StringHashMap;
use vstd::prelude::*;

verus! {

/// A binary package's name and version.
pub type PackageKey = (Seq<char>, Seq<char>);

/// A map with entries put in one by one, where a later entry replaces an earlier one.
pub open spec fn with_entries<V>(
    packages: Map<PackageKey, V>,
    entries: Seq<(PackageKey, V)>,
) -> Map<PackageKey, V>
    decreases entries.len(),
{
    if entries.len() == 0 {
        packages
    } else {
        with_entries(packages, entries.drop_last()).insert(entries.last().0, entries.last().1)
    }
}

/// The map that a list of entries makes.
pub open spec fn as_map<V>(entries: Seq<(PackageKey, V)>) -> Map<PackageKey, V> {
    with_entries(Map::empty(), entries)
}

/// Two lists put in one after the other are one list put in, so that it makes no difference
/// how a list falls on pages.
pub proof fn pages_add_up<V>(
    packages: Map<PackageKey, V>,
    first: Seq<(PackageKey, V)>,
    second: Seq<(PackageKey, V)>,
)
    ensures
        with_entries(with_entries(packages, first), second) == with_entries(
            packages,
            first + second,
        ),
    decreases second.len(),
{
    if second.len() == 0 {
        assert(first + second =~= first);
    } else {
        assert((first + second).drop_last() =~= first + second.drop_last());
        pages_add_up(packages, first, second.drop_last());
    }
}

/// No package occurs twice.
pub open spec fn distinct_keys<V>(entries: Seq<(PackageKey, V)>) -> bool {
    forall|i: int, j: int|
        0 <= i < j < entries.len() ==> (#[trigger] entries[i]).0 != (#[trigger] entries[j]).0
}

/// The map of distinct entries holds each of them, and nothing else.
pub proof fn map_holds_entries<V>(entries: Seq<(PackageKey, V)>)
    requires
        distinct_keys(entries),
    ensures
        forall|i: int|
            0 <= i < entries.len() ==> as_map(entries).contains_key((#[trigger] entries[i]).0)
                && as_map(entries)[entries[i].0] == entries[i].1,
        forall|key: PackageKey| #[trigger]
            as_map(entries).contains_key(key) ==> exists|i: int|
                0 <= i < entries.len() && (#[trigger] entries[i]).0 == key,
    decreases entries.len(),
{
    if entries.len() > 0 {
        let rest = entries.drop_last();
        assert(distinct_keys(rest));
        map_holds_entries(rest);
        assert forall|i: int| 0 <= i < entries.len() implies as_map(entries).contains_key(
            (#[trigger] entries[i]).0,
        ) && as_map(entries)[entries[i].0] == entries[i].1 by {
            if i < rest.len() {
                assert(rest[i] == entries[i]);
            }
        }
        assert forall|key: PackageKey| #[trigger] as_map(entries).contains_key(
            key,
        ) implies exists|i: int| 0 <= i < entries.len() && (#[trigger] entries[i]).0 == key by {
            if key == entries.last().0 {
                assert(entries[entries.len() - 1].0 == key);
            } else {
                assert(as_map(rest).contains_key(key));
                let i = choose|i: int| 0 <= i < rest.len() && (#[trigger] rest[i]).0 == key;
                assert(entries[i].0 == key);
            }
        }
    }
}

/// What entries become with a package put in: one that is there already keeps its place, and a
/// new one comes last.
pub open spec fn put_in<V>(
    before: Seq<(PackageKey, V)>,
    key: PackageKey,
    info: V,
    after: Seq<(PackageKey, V)>,
) -> bool {
    ||| exists|i: int|
        0 <= i < before.len() && (#[trigger] before[i]).0 == key && after == before.update(
            i,
            (key, info),
        )
    ||| (forall|i: int| 0 <= i < before.len() ==> (#[trigger] before[i]).0 != key) && after
        == before.push((key, info))
}

/// A new entry for a known package replaces what the map holds of it.
proof fn known_package_replaced<V>(entries: Seq<(PackageKey, V)>, i: int, info: V)
    requires
        distinct_keys(entries),
        0 <= i < entries.len(),
    ensures
        distinct_keys(entries.update(i, (entries[i].0, info))),
        as_map(entries.update(i, (entries[i].0, info))) == as_map(entries).insert(
            entries[i].0,
            info,
        ),
{
    let key = entries[i].0;
    let after = entries.update(i, (key, info));
    assert forall|a: int, b: int| 0 <= a < b < after.len() implies (#[trigger] after[a]).0 != (
    #[trigger] after[b]).0 by {
        assert(entries[a].0 != entries[b].0);
    }
    map_holds_entries(entries);
    map_holds_entries(after);
    let expected = as_map(entries).insert(key, info);
    assert forall|k: PackageKey| as_map(after).contains_key(k) <==> expected.contains_key(k) by {
        if as_map(after).contains_key(k) {
            let j = choose|j: int| 0 <= j < after.len() && (#[trigger] after[j]).0 == k;
            assert(entries[j].0 == k);
        }
        if as_map(entries).contains_key(k) {
            let j = choose|j: int| 0 <= j < entries.len() && (#[trigger] entries[j]).0 == k;
            assert(after[j].0 == k);
        }
    }
    assert forall|k: PackageKey| #[trigger] as_map(after).contains_key(k) implies as_map(after)[k]
        == expected[k] by {
        let j = choose|j: int| 0 <= j < after.len() && (#[trigger] after[j]).0 == k;
        assert(entries[j].0 == k);
    }
    assert(as_map(after) =~= expected);
}

/// One package and what is known of it.
struct PackageRow<V> {
    name: String,
    version: String,
    info: V,
}

/// What is known of each binary package. Its view is a map from name and version.
#[verifier::reject_recursive_types(V)]
pub struct PackageMap<V> {
    rows: Vec<PackageRow<V>>,
    by_name: StringHashMap<Vec<usize>>,
}

spec fn row_key<V>(row: PackageRow<V>) -> PackageKey {
    (row.name@, row.version@)
}

spec fn row_entries<V>(rows: Seq<PackageRow<V>>) -> Seq<(PackageKey, V)> {
    rows.map_values(|row: PackageRow<V>| (row_key(row), row.info))
}

/// The index knows the rows of each name.
spec fn indexed<V>(rows: Seq<PackageRow<V>>, by_name: Map<Seq<char>, Vec<usize>>) -> bool {
    &&& forall|i: int|
        0 <= i < rows.len() ==> by_name.contains_key((#[trigger] rows[i]).name@)
            && by_name[rows[i].name@]@.contains(i as usize)
    &&& forall|name: Seq<char>, k: int|
        #![trigger by_name[name]@[k]]
        by_name.contains_key(name) && 0 <= k < by_name[name]@.len() ==> by_name[name]@[k]
            < rows.len() && rows[by_name[name]@[k] as int].name@ == name
}

impl<V> View for PackageMap<V> {
    type V = Map<PackageKey, V>;

    open spec fn view(&self) -> Map<PackageKey, V> {
        as_map(self.entries())
    }
}

impl<V> PackageMap<V> {
    #[verifier::type_invariant]
    spec fn inv(self) -> bool {
        &&& distinct_keys(row_entries(self.rows@))
        &&& indexed(self.rows@, self.by_name@)
    }

    /// The packages in the order in which they were first put in.
    pub closed spec fn entries(self) -> Seq<(PackageKey, V)> {
        row_entries(self.rows@)
    }

    /// No package.
    pub fn new() -> (r: PackageMap<V>)
        ensures
            r@ == Map::<PackageKey, V>::empty(),
            r.entries().len() == 0,
    {
        PackageMap { rows: Vec::new(), by_name: StringHashMap::new() }
    }

    /// How many packages there are. None of them occurs twice.
    pub fn len(&self) -> (r: usize)
        ensures
            r == self.entries().len(),
            distinct_keys(self.entries()),
    {
        proof {
            use_type_invariant(self);
        }
        self.rows.len()
    }
}

impl<V: Copy> PackageMap<V> {
    /// The position of a package.
    fn position(&self, name: &str, version: &String) -> (r: Option<usize>)
        ensures
            r matches Some(i) ==> i < self.rows@.len() && row_key(self.rows@[i as int]) == (
                name@,
                version@,
            ),
            r is None ==> forall|i: int|
                0 <= i < self.rows@.len() ==> row_key(#[trigger] self.rows@[i]) != (
                    name@,
                    version@,
                ),
    {
        proof {
            use_type_invariant(self);
        }
        match self.by_name.get(name) {
            None => None,
            Some(candidates) => {
                let mut k: usize = 0;
                while k < candidates.len()
                    invariant
                        k <= candidates@.len(),
                        self.by_name@.contains_key(name@),
                        *candidates == self.by_name@[name@],
                        indexed(self.rows@, self.by_name@),
                        forall|j: int|
                            0 <= j < k ==> self.rows@[(#[trigger] candidates@[j]) as int].version@
                                != version@,
                    decreases candidates@.len() - k,
                {
                    let i: usize = candidates[k];
                    assert(self.by_name@[name@]@[k as int] == i);
                    if self.rows[i].version == *version {
                        return Some(i);
                    }
                    k += 1;
                }
                proof {
                    assert(self.rows@.len() == self.rows.len());
                    assert forall|i: int| 0 <= i < self.rows@.len() implies row_key(
                        #[trigger] self.rows@[i],
                    ) != (name@, version@) by {
                        if self.rows@[i].name@ == name@ {
                            assert(candidates@.contains(i as usize));
                            let j = choose|j: int|
                                0 <= j < candidates@.len() && candidates@[j] == i as usize;
                            assert(self.rows@[candidates@[j] as int].version@ != version@);
                        }
                    }
                }
                None
            },
        }
    }

    /// What is known of a package.
    pub fn get(&self, name: &str, version: &String) -> (r: Option<V>)
        ensures
            match r {
                Some(info) => self@.contains_key((name@, version@)) && self@[(name@, version@)]
                    == info,
                None => !self@.contains_key((name@, version@)),
            },
    {
        proof {
            use_type_invariant(self);
            map_holds_entries(self.entries());
        }
        match self.position(name, version) {
            Some(i) => {
                proof {
                    assert(self.entries()[i as int].0 == (name@, version@));
                }
                Some(self.rows[i].info)
            },
            None => {
                proof {
                    if self@.contains_key((name@, version@)) {
                        let i = choose|i: int|
                            0 <= i < self.entries().len() && (#[trigger] self.entries()[i]).0 == (
                                name@,
                                version@,
                            );
                        assert(row_key(self.rows@[i]) == (name@, version@));
                    }
                }
                None
            },
        }
    }

    /// The package at a position.
    pub fn entry(&self, i: usize) -> (r: (&String, &String, V))
        requires
            i < self.entries().len(),
        ensures
            self.entries()[i as int] == ((r.0@, r.1@), r.2),
    {
        let row = &self.rows[i];
        (&row.name, &row.version, row.info)
    }

    /// This map with a package put in; what was known of the package is replaced.
    pub fn insert(self, name: String, version: String, info: V) -> (r: PackageMap<V>)
        ensures
            r@ == self@.insert((name@, version@), info),
            put_in(self.entries(), (name@, version@), info, r.entries()),
    {
        proof {
            use_type_invariant(&self);
        }
        let ghost key = (name@, version@);
        let ghost before = self.entries();
        let found = self.position(name.as_str(), &version);
        let PackageMap { mut rows, mut by_name } = self;
        let ghost old_rows = rows@;
        let ghost old_index = by_name@;
        match found {
            Some(i) => {
                rows.set(i, PackageRow { name, version, info });
                proof {
                    assert(before[i as int].0 == key);
                    assert(row_entries(rows@) =~= before.update(i as int, (key, info)));
                    known_package_replaced(before, i as int, info);
                    assert forall|a: int| 0 <= a < rows@.len() implies by_name@.contains_key(
                        (#[trigger] rows@[a]).name@,
                    ) && by_name@[rows@[a].name@]@.contains(a as usize) by {
                        assert(rows@[a].name@ == old_rows[a].name@);
                    }
                    assert forall|n: Seq<char>, k: int|
                        #![trigger by_name@[n]@[k]]
                        by_name@.contains_key(n) && 0 <= k < by_name@[n]@.len() implies by_name@[n]@[k]
                        < rows@.len() && rows@[by_name@[n]@[k] as int].name@ == n by {
                        assert(rows@[by_name@[n]@[k] as int].name@ == old_rows[by_name@[n]@[k] as int].name@);
                    }
                    assert(indexed(rows@, by_name@));
                }
            },
            None => {
                let i: usize = rows.len();
                let mut candidates: Vec<usize> = match by_name.get(name.as_str()) {
                    Some(known) => known.clone(),
                    None => Vec::new(),
                };
                let ghost earlier = candidates@;
                proof {
                    assert(by_name@.contains_key(name@) ==> earlier == by_name@[name@]@);
                    assert(!by_name@.contains_key(name@) ==> earlier.len() == 0);
                }
                candidates.push(i);
                by_name.insert(name.clone(), candidates);
                rows.push(PackageRow { name, version, info });
                proof {
                    let after = row_entries(rows@);
                    assert(after =~= before.push((key, info)));
                    assert(after.drop_last() =~= before);
                    assert forall|a: int| 0 <= a < before.len() implies (
                    #[trigger] before[a]).0 != key by {
                        assert(row_key(old_rows[a]) == before[a].0);
                    }
                    assert forall|a: int, b: int| 0 <= a < b < after.len() implies (
                    #[trigger] after[a]).0 != (#[trigger] after[b]).0 by {
                        assert(row_key(old_rows[a]) == after[a].0);
                        if b < before.len() {
                            assert(before[a].0 != before[b].0);
                        }
                    }
                    assert forall|a: int| 0 <= a < rows@.len() implies by_name@.contains_key(
                        (#[trigger] rows@[a]).name@,
                    ) && by_name@[rows@[a].name@]@.contains(a as usize) by {
                        if a < old_rows.len() {
                            assert(old_index[old_rows[a].name@]@.contains(a as usize));
                            if rows@[a].name@ == key.0 {
                                let j = choose|j: int|
                                    0 <= j < earlier.len() && earlier[j] == a as usize;
                                assert(candidates@[j] == a as usize);
                            }
                        } else {
                            assert(candidates@[earlier.len() as int] == a as usize);
                        }
                    }
                    assert forall|n: Seq<char>, k: int|
                        #![trigger by_name@[n]@[k]]
                        by_name@.contains_key(n) && 0 <= k < by_name@[n]@.len() implies by_name@[n]@[k]
                        < rows@.len() && rows@[by_name@[n]@[k] as int].name@ == n by {
                        if n == key.0 {
                            if k < earlier.len() {
                                assert(old_index[n]@[k] == by_name@[n]@[k]);
                            }
                        } else {
                            assert(old_index[n]@[k] == by_name@[n]@[k]);
                        }
                    }
                    assert(indexed(rows@, by_name@));
                }
            },
        }
        PackageMap { rows, by_name }
    }
}

} // verus!
