//! Self-upgrade decisions: release URLs, version handling, whether and how to
//! upgrade, and the check of a downloaded binary against `checksums.txt`.
use vstd::prelude::*;
use vstd::slice::slice_subrange;
use vstd::utf8::{decode_utf8, valid_utf8};
use sha2::Digest;
use crate::text::{
    chars_eq, chars_of, find_char, first_index, is_char, split_whitespace,
    split_whitespace_bounds, string_from_chars, trim, trim_bounds,
};

verus! {

/// The release's owner on GitHub.
pub const GITHUB_OWNER: &'static str = "ataidecarlos";

/// The release's repository on GitHub.
pub const GITHUB_REPO: &'static str = "akc";

// ---------------------------------------------------------------------------
// Release locations

/// The API address of the latest release.
pub open spec fn latest_release_url_spec() -> Seq<char> {
    "https://api.github.com/repos/"@ + GITHUB_OWNER@ + "/"@ + GITHUB_REPO@ + "/releases/latest"@
}

/// The API address of the latest release.
pub fn latest_release_url() -> (r: String)
    ensures
        r@ == latest_release_url_spec(),
{
    let mut r = "https://api.github.com/repos/".to_owned();
    r.append(GITHUB_OWNER);
    r.append("/");
    r.append(GITHUB_REPO);
    r.append("/releases/latest");
    r
}

/// The API address of the release with a given tag.
pub fn release_by_tag_url(tag: &str) -> (r: String)
    ensures
        r@ == "https://api.github.com/repos/"@ + GITHUB_OWNER@ + "/"@ + GITHUB_REPO@ + "/releases/tags/"@
            + tag@,
{
    let mut r = "https://api.github.com/repos/".to_owned();
    r.append(GITHUB_OWNER);
    r.append("/");
    r.append(GITHUB_REPO);
    r.append("/releases/tags/");
    r.append(tag);
    r
}

/// The download address of a release's file.
pub open spec fn download_url_spec(tag: Seq<char>, file: Seq<char>) -> Seq<char> {
    "https://github.com/"@ + GITHUB_OWNER@ + "/"@ + GITHUB_REPO@ + "/releases/download/"@ + tag + "/"@
        + file
}

/// The download address of a release's file.
pub fn download_url(tag: &str, file: &str) -> (r: String)
    ensures
        r@ == download_url_spec(tag@, file@),
{
    let mut r = "https://github.com/".to_owned();
    r.append(GITHUB_OWNER);
    r.append("/");
    r.append(GITHUB_REPO);
    r.append("/releases/download/");
    r.append(tag);
    r.append("/");
    r.append(file);
    r
}

/// The executable that a release publishes for an operating system and an
/// architecture (as `std::env::consts::OS` and `ARCH` name them).
pub open spec fn platform_binary_name_spec(os: Seq<char>, arch: Seq<char>) -> Option<Seq<char>> {
    if os == "windows"@ && arch == "x86_64"@ {
        Some("akc.exe"@)
    } else if os == "linux"@ && arch == "x86_64"@ {
        Some("akc-x86_64"@)
    } else if os == "linux"@ && arch == "aarch64"@ {
        Some("akc-arm64"@)
    } else {
        None
    }
}

/// Errors of the upgrade.
#[derive(Debug, PartialEq, Eq)]
pub enum UpgradeError {
    /// No release is published for this platform.
    UnsupportedPlatform { os: String, arch: String },
    /// The release has no tag name.
    MissingTagName,
    /// The version is not a semantic version; holds the text.
    InvalidVersion(String),
    /// `checksums.txt` has no line for the binary; holds its name.
    ChecksumNotFound(String),
    /// The binary's SHA-256 differs from the published one.
    ChecksumMismatch { expected: String, actual: String },
}

/// The executable that a release publishes for this platform.
pub fn platform_binary_name(os: &str, arch: &str) -> (r: Result<String, UpgradeError>)
    ensures
        match r {
            Ok(name) => platform_binary_name_spec(os@, arch@) == Some(name@),
            Err(e) => platform_binary_name_spec(os@, arch@) is None && (e matches UpgradeError::UnsupportedPlatform { os: o, arch: a }
                && o@ == os@ && a@ == arch@),
        },
{
    let o = chars_of(os);
    let a = chars_of(arch);
    if chars_eq(o.as_slice(), "windows") && chars_eq(a.as_slice(), "x86_64") {
        Ok("akc.exe".to_owned())
    } else if chars_eq(o.as_slice(), "linux") && chars_eq(a.as_slice(), "x86_64") {
        Ok("akc-x86_64".to_owned())
    } else if chars_eq(o.as_slice(), "linux") && chars_eq(a.as_slice(), "aarch64") {
        Ok("akc-arm64".to_owned())
    } else {
        Err(UpgradeError::UnsupportedPlatform { os: os.to_owned(), arch: arch.to_owned() })
    }
}

// ---------------------------------------------------------------------------
// Versions

/// Whether `semver::Version::parse` accepts the text.
pub uninterp spec fn semver_accepts(text: Seq<char>) -> bool;

/// The canonical text (`Display`) of the version parsed from `text`.
pub uninterp spec fn semver_display(text: Seq<char>) -> Seq<char>;

/// How the versions parsed from `a` and `b` compare under `semver::Version`'s
/// `Ord`: -1, 0 or 1.
pub uninterp spec fn semver_order(a: Seq<char>, b: Seq<char>) -> int;

/// A semantic version, with the text it was parsed from.
///
/// Its fields are private and [`ParsedVersion::parse`] is the only way to
/// build one, so `version` is always what `semver::Version::parse` made of
/// `text`; the wrappers `semver_to_string` and `semver_compare` rely on this
/// pairing when they state their results over `text`.
pub struct ParsedVersion {
    text: String,
    version: semver::Version,
}

#[verifier::external_type_specification]
#[verifier::external_body]
pub struct ExSemverVersion(semver::Version);

/// Calls `semver::Version::parse` (semver 1).
/// Claimed: it succeeds exactly on the texts it accepts.
#[verifier::external_body]
fn semver_parse(text: &str) -> (r: Option<semver::Version>)
    ensures
        r is Some <==> semver_accepts(text@),
{
    semver::Version::parse(text).ok()
}

/// Calls `semver::Version`'s `Display` through `to_string`.
/// Claimed: the text is the canonical text of the version parsed from the source.
#[verifier::external_body]
fn semver_to_string(v: &ParsedVersion) -> (r: String)
    ensures
        r@ == semver_display(v.source()),
{
    v.version.to_string()
}

/// Calls `semver::Version`'s `Ord::cmp`.
/// Claimed: the outcome is the order of the versions parsed from the sources.
#[verifier::external_body]
fn semver_compare(a: &ParsedVersion, b: &ParsedVersion) -> (r: VersionOrder)
    ensures
        r == VersionOrder::Less <==> semver_order(a.source(), b.source()) == -1,
        r == VersionOrder::Equal <==> semver_order(a.source(), b.source()) == 0,
        r == VersionOrder::Greater <==> semver_order(a.source(), b.source()) == 1,
{
    match a.version.cmp(&b.version) {
        std::cmp::Ordering::Less => VersionOrder::Less,
        std::cmp::Ordering::Equal => VersionOrder::Equal,
        std::cmp::Ordering::Greater => VersionOrder::Greater,
    }
}

/// The order of two versions.
#[derive(Debug, Clone, Copy, PartialEq, Eq, Structural)]
pub enum VersionOrder {
    Less,
    Equal,
    Greater,
}

impl ParsedVersion {
    /// The text this version was parsed from.
    pub closed spec fn source(&self) -> Seq<char> {
        self.text@
    }

    /// Parses a semantic version.
    pub fn parse(text: &str) -> (r: Option<ParsedVersion>)
        ensures
            r is Some <==> semver_accepts(text@),
            r matches Some(v) ==> v.source() == text@,
    {
        match semver_parse(text) {
            Some(version) => Some(ParsedVersion { text: text.to_owned(), version }),
            None => None,
        }
    }

    /// The version's canonical text.
    pub fn to_text(&self) -> (r: String)
        ensures
            r@ == semver_display(self.source()),
    {
        semver_to_string(self)
    }

    /// How this version compares with another.
    pub fn compare(&self, other: &ParsedVersion) -> (r: VersionOrder)
        ensures
            r == VersionOrder::Less <==> semver_order(self.source(), other.source()) == -1,
            r == VersionOrder::Equal <==> semver_order(self.source(), other.source()) == 0,
            r == VersionOrder::Greater <==> semver_order(self.source(), other.source()) == 1,
    {
        semver_compare(self, other)
    }
}

/// `v` without one leading `v`.
pub open spec fn strip_v_spec(v: Seq<char>) -> Seq<char> {
    if v.len() > 0 && v[0] == 'v' {
        v.drop_first()
    } else {
        v
    }
}

/// Drops one leading `v` from a version or tag (`v1.0.2` reads as `1.0.2`).
pub fn strip_v(v: &str) -> (r: String)
    ensures
        r@ == strip_v_spec(v@),
{
    let cs = chars_of(v);
    if cs.len() > 0 && cs[0] == 'v' {
        let rest = slice_subrange(cs.as_slice(), 1, cs.len());
        assert(rest@ =~= v@.drop_first());
        string_from_chars(rest)
    } else {
        string_from_chars(cs.as_slice())
    }
}

/// The release's tag for a version: `v` and its canonical text.
pub fn release_tag(version: &ParsedVersion) -> (r: String)
    ensures
        r@ == "v"@ + semver_display(version.source()),
{
    let mut r = "v".to_owned();
    let text = version.to_text();
    r.append(text.as_str());
    r
}

/// A release found on GitHub.
pub struct ReleaseInfo {
    pub tag_name: String,
    pub version: ParsedVersion,
    pub binary_name: String,
    pub download_url: String,
    pub checksum_url: String,
}

/// Reads a release from its tag name, for the platform named by `os` and
/// `arch`: the tag is checked first, then the platform.
pub fn parse_release(tag_name: Option<&str>, os: &str, arch: &str) -> (r: Result<ReleaseInfo, UpgradeError>)
    ensures
        tag_name is None ==> r == Err::<ReleaseInfo, UpgradeError>(UpgradeError::MissingTagName),
        tag_name matches Some(t) ==> (!semver_accepts(strip_v_spec(t@)) ==> (r matches Err(
            UpgradeError::InvalidVersion(s),
        ) && s@ == t@)),
        tag_name matches Some(t) ==> (semver_accepts(strip_v_spec(t@)) && platform_binary_name_spec(os@, arch@) is None
            ==> (r matches Err(UpgradeError::UnsupportedPlatform { os: o, arch: a }) && o@ == os@ && a@ == arch@)),
        r is Ok <==> (tag_name matches Some(t) && semver_accepts(strip_v_spec(t@)) && platform_binary_name_spec(os@, arch@) is Some),
        r matches Ok(info) ==> tag_name matches Some(t) && {
            &&& info.tag_name@ == t@
            &&& info.version.source() == strip_v_spec(t@)
            &&& platform_binary_name_spec(os@, arch@) == Some(info.binary_name@)
            &&& info.download_url@ == download_url_spec(t@, info.binary_name@)
            &&& info.checksum_url@ == download_url_spec(t@, "checksums.txt"@)
        },
{
    let tag = match tag_name {
        Some(t) => t,
        None => return Err(UpgradeError::MissingTagName),
    };
    let version_text = strip_v(tag);
    let version = match ParsedVersion::parse(version_text.as_str()) {
        Some(v) => v,
        None => return Err(UpgradeError::InvalidVersion(tag.to_owned())),
    };
    let binary_name = match platform_binary_name(os, arch) {
        Ok(name) => name,
        Err(e) => return Err(e),
    };
    let download = download_url(tag, binary_name.as_str());
    Ok(ReleaseInfo {
        tag_name: tag.to_owned(),
        version,
        binary_name,
        download_url: download,
        checksum_url: download_url(tag, "checksums.txt"),
    })
}

// ---------------------------------------------------------------------------
// Whether to upgrade

/// Which way an installation goes.
#[derive(Debug, Clone, Copy, PartialEq, Eq, Structural)]
pub enum Direction {
    Upgrade,
    Downgrade,
}

/// What the upgrade does once the release is known.
#[derive(Debug, Clone, Copy, PartialEq, Eq, Structural)]
pub enum UpgradePlan {
    /// The running version is the release's or newer; nothing to do.
    AlreadyUpToDate,
    /// Ask the user before installing, naming the direction.
    Confirm(Direction),
    /// Install without asking.
    Install,
}

/// What the upgrade does: with neither `--force` nor `--version`, a running
/// version at or above the release's is up to date; otherwise it installs,
/// asking first unless `--yes`.
pub open spec fn plan_spec(force: bool, yes: bool, version_requested: bool, current: VersionOrder) -> UpgradePlan {
    if !force && !version_requested && current != VersionOrder::Less {
        UpgradePlan::AlreadyUpToDate
    } else if !yes {
        UpgradePlan::Confirm(if current == VersionOrder::Less { Direction::Upgrade } else { Direction::Downgrade })
    } else {
        UpgradePlan::Install
    }
}

/// Decides what the upgrade does; `current` is how the running version
/// compares with the release's.
pub fn plan_upgrade(force: bool, yes: bool, version_requested: bool, current: VersionOrder) -> (r: UpgradePlan)
    ensures
        r == plan_spec(force, yes, version_requested, current),
        !force && !version_requested && current != VersionOrder::Less ==> r == UpgradePlan::AlreadyUpToDate,
        (force || version_requested || current == VersionOrder::Less) && yes ==> r == UpgradePlan::Install,
        (force || version_requested || current == VersionOrder::Less) && !yes ==> r == UpgradePlan::Confirm(
            if current == VersionOrder::Less { Direction::Upgrade } else { Direction::Downgrade },
        ),
{
    if !force && !version_requested && current != VersionOrder::Less {
        UpgradePlan::AlreadyUpToDate
    } else if !yes {
        if current == VersionOrder::Less {
            UpgradePlan::Confirm(Direction::Upgrade)
        } else {
            UpgradePlan::Confirm(Direction::Downgrade)
        }
    } else {
        UpgradePlan::Install
    }
}

/// Whether an answer to `[y/N]` accepts: `y` or `Y`, with any surrounding
/// whitespace.
pub open spec fn confirms_spec(input: Seq<char>) -> bool {
    trim(input) == seq!['y'] || trim(input) == seq!['Y']
}

/// Whether an answer to `[y/N]` accepts.
pub fn confirm_answer(input: &str) -> (r: bool)
    ensures
        r == confirms_spec(input@),
{
    let cs = chars_of(input);
    let (a, b) = trim_bounds(cs.as_slice());
    if b - a == 1 {
        let c = cs[a];
        assert(trim(input@) =~= seq![c]);
        assert(seq![c] == seq!['y'] <==> c == 'y') by {
            if seq![c] == seq!['y'] {
                assert(seq![c][0] == seq!['y'][0]);
            }
        }
        assert(seq![c] == seq!['Y'] <==> c == 'Y') by {
            if seq![c] == seq!['Y'] {
                assert(seq![c][0] == seq!['Y'][0]);
            }
        }
        c == 'y' || c == 'Y'
    } else {
        assert(trim(input@).len() != 1);
        assert(seq!['y'].len() == 1 && seq!['Y'].len() == 1);
        false
    }
}

// ---------------------------------------------------------------------------
// Checksums

/// The text that `String::from_utf8_lossy` makes of the bytes.
pub uninterp spec fn utf8_lossy_decode(bytes: Seq<u8>) -> Seq<char>;

/// Calls `String::from_utf8_lossy` and `into_owned`.
/// Claimed: the text is the lossy decoding of the bytes, which for valid
/// UTF-8 is the plain decoding (as its documentation says).
#[verifier::external_body]
fn utf8_lossy(bytes: &[u8]) -> (r: String)
    ensures
        r@ == utf8_lossy_decode(bytes@),
        valid_utf8(bytes@) ==> r@ == decode_utf8(bytes@),
{
    String::from_utf8_lossy(bytes).into_owned()
}

/// The SHA-256 digest of the bytes.
pub uninterp spec fn sha256(data: Seq<u8>) -> Seq<u8>;

/// Calls `sha2::Sha256::digest` (sha2 0.10).
/// Claimed: the digest is the SHA-256 of the data, 32 bytes long.
#[verifier::external_body]
fn sha256_digest(data: &[u8]) -> (r: Vec<u8>)
    ensures
        r@ == sha256(data@),
        r@.len() == 32,
{
    sha2::Sha256::digest(data).to_vec()
}

/// The lower-case hexadecimal digit of a value below 16.
pub open spec fn hex_digit_spec(n: u8) -> char {
    if n < 10 {
        (n + 48) as char
    } else {
        (n + 87) as char
    }
}

/// The lower-case hexadecimal text of the bytes, two digits per byte, high
/// digit first (as `hex::encode`).
pub open spec fn hex_lower(bytes: Seq<u8>) -> Seq<char>
    decreases bytes.len(),
{
    if bytes.len() == 0 {
        Seq::empty()
    } else {
        hex_lower(bytes.drop_last()) + seq![hex_digit_spec(bytes.last() / 16), hex_digit_spec(bytes.last() % 16)]
    }
}

fn hex_digit(n: u8) -> (c: char)
    requires
        n < 16,
    ensures
        c == hex_digit_spec(n),
{
    if n < 10 {
        (n + 48) as char
    } else {
        (n + 87) as char
    }
}

/// The lower-case hexadecimal text of the bytes.
pub fn hex_encode(bytes: &[u8]) -> (r: String)
    ensures
        r@ == hex_lower(bytes@),
{
    let mut digits: Vec<char> = Vec::new();
    let mut i: usize = 0;
    while i < bytes.len()
        invariant
            i <= bytes.len(),
            digits@ == hex_lower(bytes@.take(i as int)),
        decreases bytes.len() - i,
    {
        let b = bytes[i];
        digits.push(hex_digit(b / 16));
        digits.push(hex_digit(b % 16));
        proof {
            assert(bytes@.take(i + 1).drop_last() =~= bytes@.take(i as int));
        }
        i = i + 1;
        assert(digits@ =~= hex_lower(bytes@.take(i as int)));
    }
    assert(bytes@.take(bytes.len() as int) =~= bytes@);
    string_from_chars(digits.as_slice())
}

/// The digest that `checksums.txt` publishes for `name`: the first word of the
/// first line whose words are exactly a digest and `name`.
pub open spec fn published_checksum(text: Seq<char>, name: Seq<char>) -> Option<Seq<char>>
    decreases text.len(),
{
    let i = first_index(text, is_char('\n'));
    let words = split_whitespace(text.take(i as int));
    if words.len() == 2 && words[1] == name {
        Some(words[0])
    } else if i < text.len() {
        published_checksum(text.skip(i + 1int), name)
    } else {
        None
    }
}

/// Finds the digest that `checksums.txt` publishes for `name`.
pub fn find_published_checksum(text: &str, name: &str) -> (r: Option<String>)
    ensures
        match r {
            Some(d) => published_checksum(text@, name@) == Some(d@),
            None => published_checksum(text@, name@) is None,
        },
{
    let cs = chars_of(text);
    let n = cs.len();
    let mut pos: usize = 0;
    assert(cs@.skip(0) =~= cs@);
    while pos < n
        invariant
            n == cs.len(),
            cs@ == text@,
            pos <= n,
            published_checksum(text@, name@) == published_checksum(cs@.skip(pos as int), name@),
        decreases n - pos,
    {
        let rest = slice_subrange(cs.as_slice(), pos, n);
        assert(rest@ =~= cs@.skip(pos as int));
        let i = find_char(rest, '\n');
        let line = slice_subrange(rest, 0, i);
        assert(line@ =~= rest@.take(i as int));
        let words = split_whitespace_bounds(line);
        if words.len() == 2 && chars_eq(slice_subrange(line, words[1].0, words[1].1), name) {
            return Some(string_from_chars(slice_subrange(line, words[0].0, words[0].1)));
        }
        if i < rest.len() {
            proof {
                assert(rest@.skip(i + 1int) =~= cs@.skip(pos + i + 1));
            }
            pos = pos + i + 1;
        } else {
            return None;
        }
    }
    proof {
        let e = cs@.skip(n as int);
        assert(e.len() == 0);
        assert(e.take(0) =~= e);
        assert(split_whitespace(e) =~= Seq::<Seq<char>>::empty()) by {
            assert(crate::text::trim_start(e).len() == 0);
        }
    }
    None
}

/// Checks a downloaded binary against the release's `checksums.txt`: the
/// lower-case hexadecimal SHA-256 of the binary must equal the digest
/// published for its name.
pub fn verify_checksum(binary_data: &[u8], checksum_data: &[u8], binary_name: &str) -> (r: Result<(), UpgradeError>)
    ensures
        valid_utf8(checksum_data@) ==> match published_checksum(decode_utf8(checksum_data@), binary_name@) {
            None => r matches Err(UpgradeError::ChecksumNotFound(n)) && n@ == binary_name@,
            Some(expected) => if expected == hex_lower(sha256(binary_data@)) {
                r is Ok
            } else {
                r matches Err(UpgradeError::ChecksumMismatch { expected: e, actual: a }) && e@ == expected
                    && a@ == hex_lower(sha256(binary_data@))
            },
        },
        match published_checksum(utf8_lossy_decode(checksum_data@), binary_name@) {
            None => r matches Err(UpgradeError::ChecksumNotFound(n)) && n@ == binary_name@,
            Some(expected) => if expected == hex_lower(sha256(binary_data@)) {
                r is Ok
            } else {
                r matches Err(UpgradeError::ChecksumMismatch { expected: e, actual: a }) && e@ == expected
                    && a@ == hex_lower(sha256(binary_data@))
            },
        },
{
    let text = utf8_lossy(checksum_data);
    let expected = match find_published_checksum(text.as_str(), binary_name) {
        Some(e) => e,
        None => return Err(UpgradeError::ChecksumNotFound(binary_name.to_owned())),
    };
    let digest = sha256_digest(binary_data);
    let actual = hex_encode(digest.as_slice());
    let actual_chars = chars_of(actual.as_str());
    if chars_eq(actual_chars.as_slice(), expected.as_str()) {
        Ok(())
    } else {
        Err(UpgradeError::ChecksumMismatch { expected, actual })
    }
}

/// Without `--force` and without `--version`, a running version at or above
/// the release's is up to date, whatever `--yes` says; otherwise the release is
/// installed, and `--yes` only decides whether the user is asked first. The
/// question says "Upgrade" exactly when the running version is older.
pub proof fn law_upgrade_plan(force: bool, yes: bool, version_requested: bool, current: VersionOrder)
    ensures
        !force && !version_requested && current != VersionOrder::Less ==> plan_spec(force, yes, version_requested, current)
            == UpgradePlan::AlreadyUpToDate,
        plan_spec(force, yes, version_requested, current) == UpgradePlan::AlreadyUpToDate ==> !force
            && !version_requested && current != VersionOrder::Less,
        plan_spec(force, yes, version_requested, current) == UpgradePlan::Install <==> (yes && (force
            || version_requested || current == VersionOrder::Less)),
        plan_spec(force, yes, version_requested, current) == UpgradePlan::Confirm(Direction::Upgrade) <==> (!yes
            && current == VersionOrder::Less),
        plan_spec(force, true, version_requested, current) != UpgradePlan::AlreadyUpToDate ==> plan_spec(
            force,
            true,
            version_requested,
            current,
        ) == UpgradePlan::Install,
        plan_spec(force, true, version_requested, current) == UpgradePlan::AlreadyUpToDate <==> plan_spec(
            force,
            false,
            version_requested,
            current,
        ) == UpgradePlan::AlreadyUpToDate,
{
}

} // verus!
