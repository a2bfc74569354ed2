use rebuilderd::packages::PackageMap;

fn s(text: &str) -> String {
    text.to_string()
}

#[test]
fn packages_are_known_by_name_and_version() {
    let map = PackageMap::new()
        .insert(s("rust"), s("1.80"), 1)
        .insert(s("rust"), s("1.81"), 2)
        .insert(s("cargo"), s("1.80"), 3);
    assert_eq!(map.len(), 3);
    assert_eq!(map.get("rust", &s("1.80")), Some(1));
    assert_eq!(map.get("rust", &s("1.81")), Some(2));
    assert_eq!(map.get("cargo", &s("1.80")), Some(3));
    assert_eq!(map.get("cargo", &s("1.81")), None);
    assert_eq!(map.get("rustc", &s("1.80")), None);
}

#[test]
fn later_packages_replace_earlier_ones() {
    let map = PackageMap::new()
        .insert(s("rust"), s("1"), 1)
        .insert(s("cargo"), s("1"), 2)
        .insert(s("rust"), s("1"), 3);
    assert_eq!(map.len(), 2);
    assert_eq!(map.get("rust", &s("1")), Some(3));
    assert_eq!(map.entry(0), (&s("rust"), &s("1"), 3));
    assert_eq!(map.entry(1), (&s("cargo"), &s("1"), 2));
}

#[test]
fn new_map_is_empty() {
    let map: PackageMap<bool> = PackageMap::new();
    assert_eq!(map.len(), 0);
    assert_eq!(map.get("", &s("")), None);
}
