use rebuilderd::status::{build_status_to_str, named_status, str_to_build_status, BuildStatus};

const ALL: [(BuildStatus, &str); 4] = [
    (BuildStatus::Good, "GOOD"),
    (BuildStatus::Bad, "BAD"),
    (BuildStatus::Fail, "FAIL"),
    (BuildStatus::Unknown, "UNKWN"),
];

#[test]
fn status_text_round_trips() {
    for (status, name) in ALL {
        assert_eq!(build_status_to_str(&status), name);
        assert_eq!(str_to_build_status(name), Some(status));
        assert_eq!(str_to_build_status(&build_status_to_str(&status)), Some(status));
        assert_eq!(named_status(name), Some(status));
    }
}

#[test]
fn status_names_are_different() {
    for (a, x) in ALL {
        for (b, y) in ALL {
            assert_eq!(a == b, x == y);
        }
    }
}

#[test]
fn other_text_is_no_status() {
    for text in ["", "good", "GOOD ", " GOOD", "UNKNOWN", "GOOD\"", "\"GOOD\"", "\\", "\n", "GO\\OD"] {
        assert_eq!(str_to_build_status(text), None, "{text:?}");
    }
}

#[test]
fn escapes_in_status_text_count() {
    assert_eq!(str_to_build_status("\\u0047OOD"), Some(BuildStatus::Good));
    assert_eq!(str_to_build_status("B\\u0041D"), Some(BuildStatus::Bad));
    assert_eq!(named_status("B\\u0041D"), None);
}
