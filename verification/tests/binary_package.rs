use rebuilderd::binary_package::{BinaryPackage, BinaryPackageUpsert, NewBinaryPackage};

fn s(text: &str) -> String {
    text.to_string()
}

fn package(name: &str, url: &str, seen: bool) -> NewBinaryPackage {
    NewBinaryPackage {
        source_package_id: 1,
        build_input_id: 2,
        name: s(name),
        version: s("1.80"),
        architecture: s("amd64"),
        artifact_url: s(url),
        seen_in_last_sync: seen,
    }
}

fn row(id: i32, package: &NewBinaryPackage) -> BinaryPackage {
    BinaryPackage {
        id,
        source_package_id: package.source_package_id,
        build_input_id: package.build_input_id,
        name: package.name.clone(),
        version: package.version.clone(),
        architecture: package.architecture.clone(),
        artifact_url: package.artifact_url.clone(),
        seen_in_last_sync: package.seen_in_last_sync,
    }
}

/// Puts a package in a table.
fn put_in(rows: &mut Vec<BinaryPackage>, package: &NewBinaryPackage) {
    match package.upsert(rows) {
        BinaryPackageUpsert::Insert => {
            let id = rows.len() as i32 + 1;
            rows.push(row(id, package));
        }
        BinaryPackageUpsert::Update(updated) => {
            let at = rows.iter().position(|row| row.id == updated.id).unwrap();
            rows[at] = updated;
        }
    }
}

#[test]
fn known_package_is_brought_up_to_date() {
    let rows = vec![row(7, &package("cargo", "old", false)), row(8, &package("rust", "old", false))];
    match package("rust", "new", true).upsert(&rows) {
        BinaryPackageUpsert::Update(updated) => {
            assert_eq!(updated, row(8, &package("rust", "new", true)));
        }
        BinaryPackageUpsert::Insert => panic!("the package is known"),
    }
}

#[test]
fn any_difference_makes_a_new_row() {
    let known = vec![row(7, &package("rust", "old", false))];
    let mut others = vec![package("rust", "new", true); 5];
    others[0].source_package_id = 9;
    others[1].build_input_id = 9;
    others[2].name = s("cargo");
    others[3].version = s("1.81");
    others[4].architecture = s("arm64");
    for other in others {
        assert!(matches!(other.upsert(&known), BinaryPackageUpsert::Insert));
    }
    assert!(matches!(package("rust", "new", true).upsert(&Vec::new()), BinaryPackageUpsert::Insert));
}

#[test]
fn package_has_one_row_however_often_it_is_put_in() {
    let mut rows = Vec::new();
    put_in(&mut rows, &package("rust", "old", false));
    put_in(&mut rows, &package("cargo", "x", true));
    put_in(&mut rows, &package("rust", "new", true));
    let once = rows.clone();
    put_in(&mut rows, &package("rust", "new", true));
    assert_eq!(rows, once);
    assert_eq!(rows, [row(1, &package("rust", "new", true)), row(2, &package("cargo", "x", true))]);
}
