use rign::env::env_path_entries;
use rign::local_version::{
    actived_version, installation_versions, ActiveLink, ActiveVersionError, DirEntryInfo, LinkName,
};

fn entry(name: Option<&str>, is_dir: bool) -> DirEntryInfo {
    DirEntryInfo { name: name.map(|s| s.to_string()), is_dir }
}

#[test]
fn path_entries_split_on_semicolons() {
    let paths = env_path_entries(Some("C:\\a;;C:\\b;".to_string()));
    assert_eq!(paths, vec!["C:\\a".to_string(), "C:\\b".to_string()]);
    assert_eq!(env_path_entries(Some("C:\\only".to_string())), vec!["C:\\only".to_string()]);
    assert_eq!(env_path_entries(Some(";;".to_string())), Vec::<String>::new());
    assert_eq!(env_path_entries(Some(String::new())), Vec::<String>::new());
    assert_eq!(env_path_entries(None), Vec::<String>::new());
}

#[test]
fn path_entries_are_clean() {
    for value in ["a;b;;c", ";x;", "é;ü;"] {
        for p in env_path_entries(Some(value.to_string())) {
            assert!(!p.is_empty());
            assert!(!p.contains(';'));
        }
    }
}

#[test]
fn installation_versions_keep_version_directories() {
    let entries = vec![
        entry(Some("22.17.1"), true),
        entry(Some("actived"), true),
        entry(Some("20.19.4"), false),
        entry(None, true),
        entry(Some("node-v16.20.2"), true),
        entry(Some("1.2"), true),
    ];
    assert_eq!(
        installation_versions(&entries),
        vec!["22.17.1".to_string(), "node-v16.20.2".to_string()]
    );
}

#[test]
fn actived_version_cases() {
    assert!(matches!(actived_version(None), Ok(None)));
    let link = ActiveLink { is_dir: false, name: LinkName::Name("22.17.1".to_string()) };
    assert!(matches!(actived_version(Some(link)), Ok(None)));
    let link = ActiveLink { is_dir: true, name: LinkName::Name("22.17.1".to_string()) };
    assert_eq!(actived_version(Some(link)).unwrap(), Some("22.17.1".to_string()));
    let link = ActiveLink { is_dir: true, name: LinkName::Missing };
    assert!(matches!(actived_version(Some(link)), Err(ActiveVersionError::NoDirectoryName)));
    let link = ActiveLink { is_dir: true, name: LinkName::NotUtf8 };
    assert!(matches!(actived_version(Some(link)), Err(ActiveVersionError::NameNotUtf8)));
    let link = ActiveLink { is_dir: true, name: LinkName::Name("current".to_string()) };
    match actived_version(Some(link)) {
        Err(ActiveVersionError::NotAVersion(name)) => assert_eq!(name, "current"),
        other => panic!("unexpected {other:?}"),
    }
}

#[test]
fn number_triples_are_installed_and_active() {
    for name in ["16.20.2", "0.0.0", "22.17.1"] {
        assert_eq!(installation_versions(&vec![entry(Some(name), true)]), vec![name.to_string()]);
        let link = ActiveLink { is_dir: true, name: LinkName::Name(name.to_string()) };
        assert_eq!(actived_version(Some(link)).unwrap(), Some(name.to_string()));
    }
}
