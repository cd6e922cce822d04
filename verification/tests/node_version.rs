use rign::node_version::{
    cache_is_fresh, dependency_rows, latest_index, latest_major_versions, latest_selected,
    lts_label, match_node_version, optional_label, release_listing_note, select_latest_version,
    select_lts_version, LtsInfo, MatchError, NodeVersion,
};
use rign::version::{Version, VersionError};

fn release(version: &str, lts: LtsInfo) -> NodeVersion {
    NodeVersion {
        version: version.to_string(),
        date: "2024-01-01".to_string(),
        files: vec!["win-x64-zip".to_string()],
        v8: "11.3".to_string(),
        lts,
        security: false,
        npm: Some("10.0.0".to_string()),
        uv: None,
        zlib: Some("1.3".to_string()),
        openssl: None,
        modules: Some("115".to_string()),
    }
}

fn sample() -> Vec<NodeVersion> {
    vec![
        release("v22.17.1", LtsInfo::Name("Jod".to_string())),
        release("v24.4.0", LtsInfo::No(false)),
        release("v20.19.4", LtsInfo::Name("Iron".to_string())),
        release("v22.17.0", LtsInfo::Name("Jod".to_string())),
        release("v20.19.3", LtsInfo::Name("Iron".to_string())),
        release("v23.11.1", LtsInfo::No(false)),
        release("v8.17.0", LtsInfo::No(true)),
    ]
}

#[test]
fn is_lts_reads_name_or_flag() {
    assert!(release("v1.0.0", LtsInfo::Name("Argon".to_string())).is_lts());
    assert!(release("v1.0.0", LtsInfo::No(true)).is_lts());
    assert!(!release("v1.0.0", LtsInfo::No(false)).is_lts());
}

#[test]
fn as_version_reads_version_field() {
    let v = release("v22.17.1", LtsInfo::No(false)).as_version();
    assert_eq!(v, Version::new(22, 17, 1));
    assert!(release("v22.17.1", LtsInfo::No(false)).has_version_number());
    assert!(!release("nightly", LtsInfo::No(false)).has_version_number());
}

#[test]
fn latest_index_keeps_last_of_equal_greatest() {
    let keys = vec![Version::new(1, 0, 0), Version::new(2, 0, 0), Version::new(2, 0, 0), Version::new(1, 5, 0)];
    assert_eq!(latest_index(&keys, &vec![true, true, true, true]), Some(2));
    assert_eq!(latest_index(&keys, &vec![true, false, false, true]), Some(3));
    assert_eq!(latest_index(&keys, &vec![false, false, false, false]), None);
    assert_eq!(latest_index(&vec![], &vec![]), None);
}

#[test]
fn latest_selected_cases() {
    let vs = sample();
    assert_eq!(latest_selected(&vs, &vec![true; 7]), Ok(Some(1)));
    assert_eq!(latest_selected(&vs, &vec![false; 7]), Ok(None));
    let mut only_last = vec![false; 7];
    only_last[6] = true;
    assert_eq!(latest_selected(&vs, &only_last), Ok(Some(6)));
}

#[test]
fn latest_selected_unreadable_versions() {
    let vs = vec![
        release("v1.0.0", LtsInfo::No(false)),
        release("nightly", LtsInfo::No(false)),
        release("beta", LtsInfo::No(false)),
    ];
    // a single selected release is taken without reading its version
    assert_eq!(latest_selected(&vs, &vec![false, true, false]), Ok(Some(1)));
    // with two or more, the first unreadable one is reported
    assert_eq!(latest_selected(&vs, &vec![true, true, true]), Err(1));
    assert_eq!(latest_selected(&vs, &vec![true, false, true]), Err(2));
}

#[test]
fn select_latest_and_lts() {
    assert_eq!(select_latest_version(sample()).unwrap().unwrap().version, "v24.4.0");
    assert_eq!(select_lts_version(sample()).unwrap().unwrap().version, "v22.17.1");
    assert!(select_latest_version(vec![]).unwrap().is_none());
    let no_lts = vec![release("v23.0.0", LtsInfo::No(false))];
    assert!(select_lts_version(no_lts).unwrap().is_none());
}

#[test]
fn match_lts_and_latest() {
    assert_eq!(match_node_version("lts", sample()).unwrap().unwrap().version, "v22.17.1");
    assert_eq!(match_node_version("latest", sample()).unwrap().unwrap().version, "v24.4.0");
}

#[test]
fn match_lts_line_by_name() {
    assert_eq!(match_node_version("lts@Iron", sample()).unwrap().unwrap().version, "v20.19.4");
    assert_eq!(match_node_version("lts@Jod", sample()).unwrap().unwrap().version, "v22.17.1");
    assert!(match_node_version("lts@Unknown", sample()).unwrap().is_none());
    assert!(match_node_version("lts@jod", sample()).unwrap().is_none());
}

#[test]
fn match_requirement_returns_latest_meeting_it() {
    assert_eq!(match_node_version("22", sample()).unwrap().unwrap().version, "v22.17.1");
    assert_eq!(match_node_version("20.19", sample()).unwrap().unwrap().version, "v20.19.4");
    assert_eq!(match_node_version("v20.19.3", sample()).unwrap().unwrap().version, "v20.19.3");
    assert_eq!(match_node_version("*", sample()).unwrap().unwrap().version, "v24.4.0");
    assert!(match_node_version("21", sample()).unwrap().is_none());
}

#[test]
fn match_requirement_errors() {
    assert_eq!(
        match_node_version("abc", sample()).unwrap_err(),
        MatchError::Requirement(VersionError::RequirementSyntax)
    );
    let mut vs = sample();
    vs.push(release("nightly", LtsInfo::No(false)));
    vs.push(release("beta", LtsInfo::No(false)));
    assert_eq!(match_node_version("22", vs).unwrap_err(), MatchError::UnreadableVersion(7));
}

#[test]
fn latest_major_versions_lists_greatest_majors() {
    let vs = sample();
    let listed = latest_major_versions(&vs).unwrap();
    let names: Vec<&str> = listed.iter().map(|k| vs[*k].version.as_str()).collect();
    assert_eq!(names, vec!["v24.4.0", "v23.11.1", "v22.17.1", "v20.19.4", "v8.17.0"]);
}

#[test]
fn latest_major_versions_keeps_ten() {
    let vs: Vec<NodeVersion> = (0..15u64)
        .map(|m| release(&format!("v{m}.1.0"), LtsInfo::No(false)))
        .collect();
    let listed = latest_major_versions(&vs).unwrap();
    assert_eq!(listed, vec![14, 13, 12, 11, 10, 9, 8, 7, 6, 5]);
    assert_eq!(latest_major_versions(&vec![]).unwrap(), Vec::<usize>::new());
}

#[test]
fn latest_major_versions_unreadable() {
    let vs = vec![release("v1.0.0", LtsInfo::No(false)), release("x", LtsInfo::No(false))];
    assert_eq!(latest_major_versions(&vs), Err(1));
}

#[test]
fn release_notes() {
    assert_eq!(release_listing_note(&LtsInfo::Name("Jod".to_string()), true), " # lts@Jod # latest");
    assert_eq!(release_listing_note(&LtsInfo::Name("Iron".to_string()), false), " # lts@Iron");
    assert_eq!(release_listing_note(&LtsInfo::No(true), false), " # lts");
    assert_eq!(release_listing_note(&LtsInfo::No(false), true), " # latest");
    assert_eq!(release_listing_note(&LtsInfo::No(false), false), "");
}

#[test]
fn detail_labels() {
    assert_eq!(lts_label(&LtsInfo::Name("Jod".to_string())), "lts@Jod");
    assert_eq!(lts_label(&LtsInfo::No(true)), "Yes");
    assert_eq!(lts_label(&LtsInfo::No(false)), "No");
    assert_eq!(optional_label(&Some("10.0.0".to_string())), "10.0.0");
    assert_eq!(optional_label(&None), "N/A");
    let rows = dependency_rows(&release("v22.17.1", LtsInfo::No(false)));
    let expected = vec![
        ("V8", "11.3"),
        ("OpenSSL", "N/A"),
        ("libuv", "N/A"),
        ("Zlib", "1.3"),
        ("Modules", "115"),
    ];
    let got: Vec<(&str, &str)> = rows.iter().map(|(k, v)| (k.as_str(), v.as_str())).collect();
    assert_eq!(got, expected);
}

#[test]
fn cache_validity_is_twelve_hours() {
    assert!(cache_is_fresh(Some(0)));
    assert!(cache_is_fresh(Some(43200)));
    assert!(!cache_is_fresh(Some(43201)));
    assert!(cache_is_fresh(None));
}

#[test]
fn releases_compare_by_version_field() {
    let a = release("v22.17.1", LtsInfo::No(false));
    let mut b = release("v22.17.1", LtsInfo::Name("Jod".to_string()));
    b.date = "2025-07-15".to_string();
    assert!(a == b);
    assert!(a != release("v22.17.0", LtsInfo::No(false)));
}

#[test]
fn security_labels() {
    assert_eq!(rign::node_version::security_label(true), "Yes");
    assert_eq!(rign::node_version::security_label(false), "No");
}
