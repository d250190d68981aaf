//! Version selection and download checks for crates of the crates.io index.

pub use semver;
use vstd::prelude::*;
use vstd::string::{StringExecFns, to_string_from_display_ensures};
use crate::version::{SemVer, SemVerView, semver_parse, version_text};

verus! {

/// What can go wrong while querying the index and downloading a crate.
#[derive(Debug)]
pub enum QueryError {
    Reqwest(reqwest::Error),
    CratesIndex(crates_index::Error),
    Semver(semver::Error),
    Io(std::io::Error),
    RustdocBuildError(rustdoc_json::BuildError),
    CrateNotFound,
    VersionNotFound,
    NoDownloadUrl,
    ChecksumMismatch,
}

impl QueryError {
    /// The message of the error: the inner error's own message where there is an
    /// inner error, otherwise a fixed sentence.
    pub fn message(&self) -> (s: String)
        ensures
            match self {
                QueryError::Reqwest(e) => to_string_from_display_ensures::<reqwest::Error>(e, s),
                QueryError::CratesIndex(e) => to_string_from_display_ensures::<crates_index::Error>(e, s),
                QueryError::Semver(e) => to_string_from_display_ensures::<semver::Error>(e, s),
                QueryError::Io(e) => to_string_from_display_ensures::<std::io::Error>(e, s),
                QueryError::RustdocBuildError(e) => to_string_from_display_ensures::<rustdoc_json::BuildError>(e, s),
                QueryError::CrateNotFound => s@ == "Crate not found"@,
                QueryError::VersionNotFound => s@ == "Crate with that version was not found"@,
                QueryError::NoDownloadUrl => s@ == "Crate download URL not found"@,
                QueryError::ChecksumMismatch => s@ == "Checksums did not match"@,
            },
    {
        match self {
            QueryError::Reqwest(e) => e.to_string(),
            QueryError::CratesIndex(e) => e.to_string(),
            QueryError::Semver(e) => e.to_string(),
            QueryError::Io(e) => e.to_string(),
            QueryError::RustdocBuildError(e) => e.to_string(),
            QueryError::CrateNotFound => String::from_str("Crate not found"),
            QueryError::VersionNotFound => String::from_str("Crate with that version was not found"),
            QueryError::NoDownloadUrl => String::from_str("Crate download URL not found"),
            QueryError::ChecksumMismatch => String::from_str("Checksums did not match"),
        }
    }
}

/// The SHA-256 digest of a byte sequence.
pub uninterp spec fn sha256_digest(data: Seq<u8>) -> Seq<u8>;

/// `sha2::Sha256::digest`: the SHA-256 digest of `bytes`, as an array.
/// Claimed: the result is `sha256_digest` of the bytes; nothing else is said of it.
#[verifier::external_body]
fn sha256(bytes: &[u8]) -> (digest: [u8; 32])
    ensures
        digest@ == sha256_digest(bytes@),
{
    <sha2::Sha256 as sha2::Digest>::digest(bytes).into()
}

/// The SHA-256 digest of `bytes`.
pub fn get_hash(bytes: &[u8]) -> (hash: [u8; 32])
    ensures
        hash@ == sha256_digest(bytes@),
{
    sha256(bytes)
}

/// Checks downloaded bytes against the checksum that the index records for them.
pub fn verify_checksum(bytes: &[u8], expected: &[u8; 32]) -> (res: Result<(), QueryError>)
    ensures
        res is Ok <==> sha256_digest(bytes@) == expected@,
        res is Err ==> res matches Err(QueryError::ChecksumMismatch),
{
    let hash = get_hash(bytes);
    let mut i: usize = 0;
    while i < 32
        invariant
            i <= 32,
            hash@ == sha256_digest(bytes@),
            forall|j: int| 0 <= j < i ==> hash@[j] == expected@[j],
        decreases 32 - i,
    {
        if hash[i] != expected[i] {
            return Err(QueryError::ChecksumMismatch);
        }
        i = i + 1;
    }
    assert(hash@ =~= expected@);
    Ok(())
}


/// Whether a search for `wanted` through the listed versions stops at `text`:
/// either `text` does not parse, or it parses to `wanted`.
pub open spec fn stops_search(text: Seq<char>, wanted: SemVerView) -> bool {
    semver_parse(text) is None || semver_parse(text) == Some(wanted)
}

/// Finds `wanted` among the versions of a crate, listed as text, in their order.
/// The first listed version that does not parse ends the search with its parse
/// error, unless `wanted` came before it.
pub fn select_version(available: &[&str], wanted: &SemVer) -> (res: Result<usize, QueryError>)
    ensures
        match res {
            Ok(i) => {
                &&& i < available@.len()
                &&& semver_parse(available@[i as int]@) == Some(wanted@)
                &&& forall|j: int| 0 <= j < i ==> !stops_search(#[trigger] available@[j]@, wanted@)
            },
            Err(QueryError::Semver(_)) => exists|i: int|
                {
                    &&& 0 <= i < available@.len()
                    &&& semver_parse(#[trigger] available@[i]@) is None
                    &&& forall|j: int| 0 <= j < i ==> !stops_search(#[trigger] available@[j]@, wanted@)
                },
            Err(QueryError::VersionNotFound) => forall|j: int|
                0 <= j < available@.len() ==> !stops_search(#[trigger] available@[j]@, wanted@),
            Err(_) => false,
        },
{
    let mut i: usize = 0;
    while i < available.len()
        invariant
            i <= available@.len(),
            forall|j: int| 0 <= j < i ==> !stops_search(#[trigger] available@[j]@, wanted@),
        decreases available@.len() - i,
    {
        match SemVer::parse(available[i]) {
            Ok(v) => {
                if v.same_as(wanted) {
                    return Ok(i);
                }
            },
            Err(e) => {
                return Err(QueryError::Semver(e));
            },
        }
        i = i + 1;
    }
    Err(QueryError::VersionNotFound)
}

/// The name of the directory that a crate's source unpacks into: `{krate}-{version}`.
pub fn crate_identifier(krate: &str, version: &SemVer) -> (name: String)
    ensures
        name@ == krate@ + seq!['-'] + version_text(version@),
{
    let mut name = String::from_str(krate);
    proof {
        reveal_strlit("-");
    }
    name.append("-");
    name.append(version.to_text().as_str());
    name
}

/// The name of the file that holds a version's rustdoc JSON: `{version}.json`.
pub fn version_json_name(version: &SemVer) -> (name: String)
    ensures
        name@ == version_text(version@) + seq!['.', 'j', 's', 'o', 'n'],
{
    let mut name = version.to_text();
    proof {
        reveal_strlit(".json");
    }
    name.append(".json");
    name
}

/// What to do for one version of a crate, given what an earlier run left in the
/// output directory.
#[derive(Clone, Copy, PartialEq, Eq, Structural, Debug)]
pub enum CachePlan {
    /// The version's rustdoc JSON is there and is used as it is; its source is
    /// downloaded first when `fetch_source` says it is missing.
    Reuse { fetch_source: bool },
    /// The version's rustdoc JSON is not there: download the source and build it.
    Build,
}

/// Decides what to do for a version from whether its rustdoc JSON and its source
/// directory exist.
pub fn plan_version(json_exists: bool, source_exists: bool) -> (plan: CachePlan)
    ensures
        plan == if json_exists {
            CachePlan::Reuse { fetch_source: !source_exists }
        } else {
            CachePlan::Build
        },
{
    if json_exists {
        CachePlan::Reuse { fetch_source: !source_exists }
    } else {
        CachePlan::Build
    }
}

/// The directory under `output_root` that holds the sources of a crate:
/// `{output_root}/{krate}/source`.
pub fn source_dir_path(output_root: &str, krate: &str) -> (path: String)
    ensures
        path@ == output_root@ + seq!['/'] + krate@ + "/source"@,
{
    let mut path = String::from_str(output_root);
    proof {
        reveal_strlit("/");
    }
    path.append("/");
    path.append(krate);
    path.append("/source");
    path
}

/// The file under `output_root` that holds the rustdoc JSON of a version of a
/// crate: `{output_root}/{krate}/versions/{version}.json`.
pub fn version_json_path(output_root: &str, krate: &str, version: &SemVer) -> (path: String)
    ensures
        path@ == output_root@ + seq!['/'] + krate@ + "/versions/"@ + version_text(version@)
            + seq!['.', 'j', 's', 'o', 'n'],
{
    let mut path = String::from_str(output_root);
    proof {
        reveal_strlit("/");
    }
    path.append("/");
    path.append(krate);
    path.append("/versions/");
    let name = version_json_name(version);
    path.append(name.as_str());
    path
}

} // verus!
