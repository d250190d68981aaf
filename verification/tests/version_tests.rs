use llvm_sys_query::version::SemVer;

#[test]
fn parse_reads_all_fields() {
    let v = SemVer::parse("1.2.3-alpha.1+build.5").unwrap();
    assert_eq!(v.major, 1);
    assert_eq!(v.minor, 2);
    assert_eq!(v.patch, 3);
    assert_eq!(v.pre, "alpha.1");
    assert_eq!(v.build, "build.5");
}

#[test]
fn parse_rejects_bad_versions() {
    assert!(SemVer::parse("1.2").is_err());
    assert!(SemVer::parse("01.2.3").is_err());
    assert!(SemVer::parse("").is_err());
    assert!(SemVer::parse("v1.2.3").is_err());
}

#[test]
fn to_text_matches_semver_display() {
    for text in ["181.2.0", "0.0.0", "1.2.3-alpha.1+build.5", "1.0.0+meta", "10.20.30-rc.1"] {
        let v = SemVer::parse(text).unwrap();
        assert_eq!(v.to_text(), text);
        assert_eq!(v.to_text(), semver::Version::parse(text).unwrap().to_string());
    }
}

#[test]
fn to_text_of_the_largest_numbers() {
    let v = SemVer {
        major: u64::MAX,
        minor: 1000000007,
        patch: 9,
        pre: String::new(),
        build: String::new(),
    };
    assert_eq!(v.to_text(), "18446744073709551615.1000000007.9");
}

#[test]
fn same_as_compares_every_field() {
    let a = SemVer::parse("1.0.0+x").unwrap();
    let b = SemVer::parse("1.0.0+x").unwrap();
    let c = SemVer::parse("1.0.0+y").unwrap();
    let d = SemVer::parse("1.0.0").unwrap();
    assert!(a.same_as(&b));
    assert!(!a.same_as(&c));
    assert!(!a.same_as(&d));
    assert!(!d.same_as(&SemVer::parse("1.0.1").unwrap()));
}
