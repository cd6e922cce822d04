use rign::version::{Version, VersionError, VersionReq};
use std::cmp::Ordering;

#[test]
fn parse_plain_and_prefixed_versions() {
    let v = Version::parse("1.2.3").unwrap();
    assert_eq!((v.major(), v.minor(), v.patch()), (1, 2, 3));
    let v = Version::parse("v16.20.2").unwrap();
    assert_eq!((v.major(), v.minor(), v.patch()), (16, 20, 2));
}

#[test]
fn parse_takes_first_version_in_text() {
    let v = Version::parse("node-v22.17.1-win-x64").unwrap();
    assert_eq!(v, Version::new(22, 17, 1));
    let v = Version::parse("1.2.3.4").unwrap();
    assert_eq!(v, Version::new(1, 2, 3));
}

#[test]
fn parse_rejects_text_without_version() {
    assert_eq!(Version::parse("abc"), Err(VersionError::NotAVersion));
    assert_eq!(Version::parse("1.2"), Err(VersionError::NotAVersion));
    assert_eq!(Version::parse(""), Err(VersionError::NotAVersion));
}

#[test]
fn parse_reports_number_beyond_u64() {
    assert_eq!(
        Version::parse("99999999999999999999.1.1"),
        Err(VersionError::InvalidNumber)
    );
    let v = Version::parse("18446744073709551615.0.0").unwrap();
    assert_eq!(v.major(), u64::MAX);
}

#[test]
fn from_captures_reads_groups() {
    let caps = Some(vec![
        Some("v1.2.3".to_string()),
        Some("1".to_string()),
        Some("2".to_string()),
        Some("3".to_string()),
    ]);
    assert_eq!(Version::from_captures(caps), Ok(Version::new(1, 2, 3)));
    assert_eq!(Version::from_captures(None), Err(VersionError::NotAVersion));
    let missing = Some(vec![Some("x".to_string()), Some("1".to_string())]);
    assert_eq!(Version::from_captures(missing), Err(VersionError::InvalidNumber));
    let not_ascii = Some(vec![
        Some("x".to_string()),
        Some("١".to_string()),
        Some("2".to_string()),
        Some("3".to_string()),
    ]);
    assert_eq!(Version::from_captures(not_ascii), Err(VersionError::InvalidNumber));
}

#[test]
fn compare_orders_major_then_minor_then_patch() {
    let a = Version::new(1, 9, 9);
    let b = Version::new(2, 0, 0);
    assert_eq!(a.compare(&b), Ordering::Less);
    assert_eq!(b.compare(&a), Ordering::Greater);
    assert_eq!(Version::new(1, 2, 3).compare(&Version::new(1, 3, 0)), Ordering::Less);
    assert_eq!(Version::new(1, 2, 4).compare(&Version::new(1, 2, 3)), Ordering::Greater);
    assert_eq!(Version::new(1, 2, 3).compare(&Version::new(1, 2, 3)), Ordering::Equal);
    assert!(a.is_before(&b));
    assert!(!b.is_before(&a));
    assert!(!a.is_before(&a));
    // the derived order agrees
    assert!(a < b);
    assert_eq!(Version::new(1, 2, 4).cmp(&Version::new(1, 2, 3)), Ordering::Greater);
}

#[test]
fn requirement_parse_forms() {
    let r = VersionReq::parse("*").unwrap();
    assert_eq!((r.major(), r.minor(), r.patch()), (None, None, None));
    let r = VersionReq::parse("22").unwrap();
    assert_eq!((r.major(), r.minor(), r.patch()), (Some(22), None, None));
    let r = VersionReq::parse("22.17").unwrap();
    assert_eq!((r.major(), r.minor(), r.patch()), (Some(22), Some(17), None));
    let r = VersionReq::parse("v16.20.2").unwrap();
    assert_eq!(r, VersionReq::new(Some(16), Some(20), Some(2)));
}

#[test]
fn requirement_parse_errors() {
    assert_eq!(VersionReq::parse("abc"), Err(VersionError::RequirementSyntax));
    assert_eq!(VersionReq::parse("1.2.3.4"), Err(VersionError::RequirementSyntax));
    assert_eq!(VersionReq::parse("lts@jod"), Err(VersionError::RequirementSyntax));
    assert_eq!(VersionReq::parse(" 22"), Err(VersionError::RequirementSyntax));
    assert_eq!(VersionReq::parse("**"), Err(VersionError::RequirementSyntax));
    assert_eq!(
        VersionReq::parse("99999999999999999999"),
        Err(VersionError::InvalidNumber)
    );
}

#[test]
fn requirement_from_captures_optional_groups() {
    let caps = Some(vec![Some("22".to_string()), Some("22".to_string()), None, None]);
    assert_eq!(VersionReq::from_captures(caps), Ok(VersionReq::new(Some(22), None, None)));
    assert_eq!(VersionReq::from_captures(None), Err(VersionError::RequirementSyntax));
}

#[test]
fn requirement_matches_set_numbers_only() {
    let v = Version::new(22, 17, 1);
    assert!(VersionReq::new(None, None, None).matches(&v));
    assert!(VersionReq::new(Some(22), None, None).matches(&v));
    assert!(VersionReq::new(Some(22), Some(17), None).matches(&v));
    assert!(VersionReq::new(Some(22), Some(17), Some(1)).matches(&v));
    assert!(!VersionReq::new(Some(22), Some(17), Some(2)).matches(&v));
    assert!(!VersionReq::new(Some(20), None, None).matches(&v));
    assert!(!VersionReq::new(None, Some(16), None).matches(&v));
    assert!(VersionReq::new(None, None, Some(1)).matches(&v));
}

#[test]
fn wildcard_matches_every_version() {
    let any = VersionReq::parse("*").unwrap();
    for v in [Version::new(0, 0, 0), Version::new(22, 17, 1), Version::new(u64::MAX, 1, 2)] {
        assert!(any.matches(&v));
    }
}

#[test]
fn full_requirement_matches_exactly() {
    let req = VersionReq::parse("16.20.2").unwrap();
    assert!(req.matches(&Version::new(16, 20, 2)));
    assert!(!req.matches(&Version::new(16, 20, 3)));
    assert!(!req.matches(&Version::new(16, 21, 2)));
}

#[test]
fn fewer_numbers_match_more() {
    let v = Version::new(22, 17, 1);
    assert!(VersionReq::parse("22.17.1").unwrap().matches(&v));
    assert!(VersionReq::parse("22.17").unwrap().matches(&v));
    assert!(VersionReq::parse("22").unwrap().matches(&v));
}

#[test]
fn version_order_is_total_on_samples() {
    let vs = [
        Version::new(1, 0, 0),
        Version::new(1, 0, 1),
        Version::new(1, 1, 0),
        Version::new(2, 0, 0),
        Version::new(2, 0, 0),
    ];
    for a in &vs {
        for b in &vs {
            let ab = a.compare(b);
            let ba = b.compare(a);
            assert_eq!(ab, ba.reverse());
            assert_eq!(ab == Ordering::Equal, a == b);
            for c in &vs {
                if a.compare(b) != Ordering::Greater && b.compare(c) != Ordering::Greater {
                    assert_ne!(a.compare(c), Ordering::Greater);
                }
            }
        }
    }
}

const SAMPLES: [(u64, u64, u64); 6] = [
    (0, 0, 0),
    (1, 2, 3),
    (16, 20, 2),
    (22, 17, 1),
    (100, 0, 42),
    (u64::MAX, u64::MAX, 7),
];

#[test]
fn formatted_versions_parse_back() {
    for (a, b, c) in SAMPLES {
        let v = Version::new(a, b, c);
        let plain = format!("{}.{}.{}", v.major(), v.minor(), v.patch());
        let prefixed = format!("v{}.{}.{}", v.major(), v.minor(), v.patch());
        assert_eq!(Version::parse(&plain), Ok(v.clone()));
        assert_eq!(Version::parse(&prefixed), Ok(v.clone()));
    }
}

#[test]
fn formatted_requirements_parse_to_their_numbers() {
    for (a, b, c) in SAMPLES {
        assert_eq!(
            VersionReq::parse(&format!("{a}.{b}.{c}")),
            Ok(VersionReq::new(Some(a), Some(b), Some(c)))
        );
        assert_eq!(VersionReq::parse(&format!("v{a}.{b}")), Ok(VersionReq::new(Some(a), Some(b), None)));
        assert_eq!(VersionReq::parse(&a.to_string()), Ok(VersionReq::new(Some(a), None, None)));
        assert_eq!(VersionReq::parse(&format!("v{a}")), Ok(VersionReq::new(Some(a), None, None)));
    }
}

#[test]
fn formatted_requirements_match_their_version() {
    for (a, b, c) in SAMPLES {
        let s = format!("{a}.{b}.{c}");
        let x = Version::parse(&s).unwrap();
        assert!(VersionReq::parse(&s).unwrap().matches(&x));
        assert!(VersionReq::parse(&format!("{a}.{b}")).unwrap().matches(&x));
        assert!(VersionReq::parse(&a.to_string()).unwrap().matches(&x));
    }
}

#[test]
fn requirement_parser_rejects_other_forms() {
    for text in ["", "v", "1.", ".1", "1..2", "v1.2.3.4", "x1", "1.2a", "vv1", "1 .2", "*1", "1.2.3 "] {
        assert_eq!(VersionReq::parse(text), Err(VersionError::RequirementSyntax), "{text}");
    }
    assert_eq!(VersionReq::parse("٣"), Err(VersionError::InvalidNumber));
}

#[test]
fn version_parser_needs_three_numbers_somewhere() {
    for text in ["", "v1", "1.2", "1..2.3", "a.b.c", "v.1.2"] {
        assert_eq!(Version::parse(text), Err(VersionError::NotAVersion), "{text}");
    }
    assert_eq!(Version::parse("release 007.08.9 final"), Ok(Version::new(7, 8, 9)));
}
