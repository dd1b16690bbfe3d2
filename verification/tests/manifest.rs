use deet::manifest::{parse_dep, source_entry, Dep, DepEntry, DepSource};

#[test]
fn source_kinds() {
    let c = DepSource::Crates { version: "1.2".to_string() };
    let l = DepSource::Local { path: "../x".to_string() };
    assert!(c.is_crate());
    assert!(!c.is_local());
    assert!(l.is_local());
    assert!(!l.is_crate());
    assert_eq!(c.crate_version(), Some("1.2"));
    assert_eq!(c.local_path(), None);
    assert_eq!(l.local_path(), Some("../x"));
    assert_eq!(l.crate_version(), None);
}

#[test]
fn bare_version_entry() {
    let d = parse_dep("serde", &DepEntry::Version { version: "1.0".to_string() }).unwrap();
    assert_eq!(d.key, "serde");
    assert_eq!(d.package(), "serde");
    assert_eq!(d.source(), &DepSource::Crates { version: "1.0".to_string() });
}

#[test]
fn table_with_version_and_package() {
    let d = parse_dep(
        "alias",
        &DepEntry::Table {
            package: Some("real-name".to_string()),
            version: Some("0.3".to_string()),
            path: None,
        },
    )
    .unwrap();
    assert_eq!(d.package(), "real-name");
    assert_eq!(d.source(), &DepSource::Crates { version: "0.3".to_string() });
    assert_eq!(d.key().key, "alias");
}

#[test]
fn version_wins_over_path() {
    let d = parse_dep(
        "x",
        &DepEntry::Table {
            package: None,
            version: Some("2.0".to_string()),
            path: Some("../x".to_string()),
        },
    )
    .unwrap();
    assert_eq!(d.source(), &DepSource::Crates { version: "2.0".to_string() });
}

#[test]
fn path_alone_is_local() {
    let d = parse_dep(
        "x",
        &DepEntry::Table { package: None, version: None, path: Some("../x".to_string()) },
    )
    .unwrap();
    assert_eq!(d.source(), &DepSource::Local { path: "../x".to_string() });
}

#[test]
fn unreadable_entries_are_skipped() {
    assert_eq!(
        parse_dep("x", &DepEntry::Table { package: None, version: None, path: None }),
        None::<Dep>
    );
    assert_eq!(parse_dep("x", &DepEntry::Other), None::<Dep>);
}

#[test]
fn sources_write_their_own_keys() {
    assert_eq!(
        source_entry(&DepSource::Crates { version: "^1.2.3".to_string() }),
        ("version".to_string(), "^1.2.3".to_string())
    );
    assert_eq!(
        source_entry(&DepSource::Local { path: "a/b".to_string() }),
        ("path".to_string(), "a/b".to_string())
    );
}
