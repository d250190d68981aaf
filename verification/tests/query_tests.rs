use llvm_sys_query::query::{
    crate_identifier, get_hash, select_version, verify_checksum, version_json_name, QueryError,
};
use llvm_sys_query::query::{plan_version, source_dir_path, version_json_path, CachePlan};
use llvm_sys_query::version::SemVer;

const ABC_SHA256: [u8; 32] = [
    0xba, 0x78, 0x16, 0xbf, 0x8f, 0x01, 0xcf, 0xea, 0x41, 0x41, 0x40, 0xde, 0x5d, 0xae, 0x22, 0x23,
    0xb0, 0x03, 0x61, 0xa3, 0x96, 0x17, 0x7a, 0x9c, 0xb4, 0x10, 0xff, 0x61, 0xf2, 0x00, 0x15, 0xad,
];

#[test]
fn get_hash_is_sha256() {
    assert_eq!(get_hash(b"abc"), ABC_SHA256);
    assert_ne!(get_hash(b"abd"), ABC_SHA256);
    assert_eq!(
        get_hash(b"")[..4],
        [0xe3, 0xb0, 0xc4, 0x42]
    );
}

#[test]
fn verify_checksum_accepts_matching_bytes() {
    assert!(verify_checksum(b"abc", &ABC_SHA256).is_ok());
}

#[test]
fn verify_checksum_rejects_other_bytes() {
    assert!(matches!(verify_checksum(b"abcd", &ABC_SHA256), Err(QueryError::ChecksumMismatch)));
    let mut wrong = ABC_SHA256;
    wrong[31] ^= 1;
    assert!(matches!(verify_checksum(b"abc", &wrong), Err(QueryError::ChecksumMismatch)));
}

#[test]
fn select_version_finds_the_first_equal_version() {
    let wanted = SemVer::parse("1.0.0").unwrap();
    let available = ["0.1.0", "1.0.0", "1.0.0", "2.0.0"];
    assert_eq!(select_version(&available, &wanted).unwrap(), 1);
}

#[test]
fn select_version_reports_a_missing_version() {
    let wanted = SemVer::parse("3.0.0").unwrap();
    let available = ["0.1.0", "1.0.0", "1.0.0+build"];
    assert!(matches!(select_version(&available, &wanted), Err(QueryError::VersionNotFound)));
    assert!(matches!(select_version(&[], &wanted), Err(QueryError::VersionNotFound)));
}

#[test]
fn select_version_compares_build_metadata_too() {
    let wanted = SemVer::parse("1.0.0").unwrap();
    let available = ["1.0.0+build", "1.0.0"];
    assert_eq!(select_version(&available, &wanted).unwrap(), 1);
}

#[test]
fn select_version_stops_at_an_unparsable_version() {
    let available = ["0.1.0", "not a version", "1.0.0"];
    let later = SemVer::parse("1.0.0").unwrap();
    assert!(matches!(select_version(&available, &later), Err(QueryError::Semver(_))));
    let earlier = SemVer::parse("0.1.0").unwrap();
    assert_eq!(select_version(&available, &earlier).unwrap(), 0);
}

#[test]
fn file_names_of_a_version() {
    let v = SemVer::parse("181.2.0").unwrap();
    assert_eq!(crate_identifier("llvm-sys", &v), "llvm-sys-181.2.0");
    assert_eq!(version_json_name(&v), "181.2.0.json");
    let v = SemVer::parse("1.0.0-rc.1").unwrap();
    assert_eq!(crate_identifier("x", &v), "x-1.0.0-rc.1");
}

#[test]
fn query_error_variants() {
    let errors = [
        QueryError::CrateNotFound,
        QueryError::VersionNotFound,
        QueryError::NoDownloadUrl,
        QueryError::ChecksumMismatch,
        QueryError::Io(std::io::Error::new(std::io::ErrorKind::Other, "x")),
    ];
    assert!(matches!(errors[0], QueryError::CrateNotFound));
    assert!(matches!(errors[4], QueryError::Io(_)));
}

#[test]
fn query_error_messages() {
    assert_eq!(QueryError::CrateNotFound.message(), "Crate not found");
    assert_eq!(QueryError::VersionNotFound.message(), "Crate with that version was not found");
    assert_eq!(QueryError::NoDownloadUrl.message(), "Crate download URL not found");
    assert_eq!(QueryError::ChecksumMismatch.message(), "Checksums did not match");
    let io = std::io::Error::new(std::io::ErrorKind::Other, "disk full");
    assert_eq!(QueryError::Io(io).message(), "disk full");
    let err = semver::Version::parse("1.2").unwrap_err();
    let text = err.to_string();
    assert_eq!(QueryError::Semver(err).message(), text);
}

#[test]
fn plan_version_reuses_or_builds() {
    assert_eq!(plan_version(true, true), CachePlan::Reuse { fetch_source: false });
    assert_eq!(plan_version(true, false), CachePlan::Reuse { fetch_source: true });
    assert_eq!(plan_version(false, true), CachePlan::Build);
    assert_eq!(plan_version(false, false), CachePlan::Build);
}

#[test]
fn output_paths_of_a_version() {
    let v = SemVer::parse("181.2.0").unwrap();
    assert_eq!(version_json_path("./output", "llvm-sys", &v), "./output/llvm-sys/versions/181.2.0.json");
    assert_eq!(source_dir_path("./output", "llvm-sys"), "./output/llvm-sys/source");
}

#[test]
fn semver_is_reexported() {
    let v = llvm_sys_query::query::semver::Version::new(1, 2, 3);
    assert_eq!(v.to_string(), "1.2.3");
}
