//! Whether a newer release is there, and which file of it fits this machine.
use vstd::prelude::*;
use vstd::utf8::encode_utf8;
use crate::paths::{join, joined};
use crate::text::numerals::{
    decimal,
    decimal_string,
    digit_char,
    lemma_decimal_is_read_back,
    parse_unsigned,
    unsigned_value,
};
use crate::text::scan::lemma_run;
use crate::text::words::{halves, other_than, split_halves, trim_start_matches, without_leading};

verus! {

/// How long the answer to an update check is kept, in seconds.
pub const UPDATE_CHECK_INTERVAL: u64 = 86_400;

/// The largest number of seconds that a point in time can be away from the beginning of 1970.
pub const LAST_SECOND: u64 = 0x7fff_ffff_ffff_ffff;

/// A version of a program.
#[verifier::external_type_specification]
#[verifier::external_body]
pub struct ExVersion(semver::Version);

/// Why a text is no version.
#[verifier::external_type_specification]
#[verifier::external_body]
pub struct ExSemverError(semver::Error);

/// How a version is written.
pub uninterp spec fn version_text(version: semver::Version) -> Seq<char>;

/// Why a text is no version, where it is none.
pub uninterp spec fn semver_error(text: Seq<char>) -> Option<semver::Error>;

/// Whether a text is a version.
pub open spec fn semver_valid(text: Seq<char>) -> bool {
    semver_error(text) is None
}

/// Whether the first of two versions comes after the second.
pub uninterp spec fn semver_greater(left: Seq<char>, right: Seq<char>) -> bool;

/// A version of three numbers and nothing else.
pub open spec fn plain_version(major: u64, minor: u64, patch: u64) -> Seq<char> {
    decimal(major as nat) + "."@ + decimal(minor as nat) + "."@ + decimal(patch as nat)
}

/// Whether three numbers come after three others, the first of them counting most.
pub open spec fn numbers_after(left: (u64, u64, u64), right: (u64, u64, u64)) -> bool {
    left.0 > right.0 || (left.0 == right.0 && (left.1 > right.1 || (left.1 == right.1 && left.2
        > right.2)))
}

/// `semver::Version::parse`: reads a version, which is written again as it was read. Three numbers
/// with dots between them are a version; nothing with a comma is. What else is one is left to
/// `semver_error`, and so is what is wrong with a text that is none.
#[verifier::external_body]
fn version_parse(text: &str) -> (result: Result<semver::Version, semver::Error>)
    ensures
        result is Ok <==> semver_valid(text@),
        result matches Err(error) ==> semver_error(text@) == Some(error),
        result matches Ok(version) ==> version_text(version) == text@,
        result is Ok ==> !text@.contains(','),
        (exists|a: u64, b: u64, c: u64| text@ == #[trigger] plain_version(a, b, c)) ==> result is Ok,
{
    semver::Version::parse(text)
}

/// `semver::Version`'s `to_string`: how the version is written.
#[verifier::external_body]
fn version_to_string(version: &semver::Version) -> (text: String)
    ensures
        text@ == version_text(*version),
{
    version.to_string()
}

/// `semver::Version`'s `>`: whether one version comes after another. No version comes after
/// itself, and where both are three numbers the numbers decide. For the rest see `semver_greater`.
#[verifier::external_body]
fn version_after(left: &semver::Version, right: &semver::Version) -> (after: bool)
    ensures
        after == semver_greater(version_text(*left), version_text(*right)),
        version_text(*left) == version_text(*right) ==> !after,
        forall|a: u64, b: u64, c: u64, d: u64, e: u64, f: u64|
            version_text(*left) == #[trigger] plain_version(a, b, c) && version_text(*right)
                == #[trigger] plain_version(d, e, f) ==> after == numbers_after(
                (a, b, c),
                (d, e, f),
            ),
{
    left > right
}

/// A file of a release.
pub struct GithubAsset {
    pub name: String,
    pub browser_download_url: String,
}

/// A release.
pub struct GithubRelease {
    pub tag_name: String,
    pub assets: Vec<GithubAsset>,
}

/// The last answer to an update check, with its time in seconds since the beginning of 1970.
pub struct UpdateCache {
    pub last_check: u64,
    pub latest_version: String,
}

/// Why an update check or an update failed.
pub enum UpdateError {
    /// What should be a version is none.
    Version(semver::Error),
    /// There are no releases for this architecture.
    UnsupportedArchitecture,
    /// The release has no file for this architecture.
    NoMatchingBinary,
}

impl UpdateError {
    /// What the error says.
    pub fn message(&self) -> (text: String)
        ensures
            self matches UpdateError::Version(e)
                ==> vstd::string::to_string_from_display_ensures::<semver::Error>(e, text),
            self is UnsupportedArchitecture ==> text@ == "Unsupported architecture"@,
            self is NoMatchingBinary ==> text@ == "No matching binary found"@,
    {
        match self {
            UpdateError::Version(e) => e.to_string(),
            UpdateError::UnsupportedArchitecture => String::from_str("Unsupported architecture"),
            UpdateError::NoMatchingBinary => String::from_str("No matching binary found"),
        }
    }
}

/// What a cache file holds: a time and a version with one comma between them.
pub open spec fn cached(content: Seq<char>) -> Option<(nat, Seq<char>)> {
    match halves(content, ',') {
        Some((time, version)) => match unsigned_value(encode_utf8(time)) {
            Some(seconds) => if seconds <= u64::MAX {
                Some((seconds, version))
            } else {
                None
            },
            None => None,
        },
        None => None,
    }
}

/// Reads a cache file.
pub fn parse_cache(content: &str) -> (cache: Option<UpdateCache>)
    ensures
        match cached(content@) {
            Some((seconds, version)) => cache matches Some(c) && c.last_check == seconds
                && c.latest_version@ == version,
            None => cache is None,
        },
{
    match split_halves(content, ',') {
        Some((time, version)) => match parse_unsigned(time.as_bytes(), u64::MAX) {
            Some(last_check) => Some(
                UpdateCache { last_check, latest_version: String::from_str(version) },
            ),
            None => None,
        },
        None => None,
    }
}

/// What is written into a cache file.
pub open spec fn cache_text(now: nat, version: Seq<char>) -> Seq<char> {
    decimal(now) + ","@ + version
}

/// What is written into a cache file.
pub fn cache_content(now: u64, version: &str) -> (content: String)
    ensures
        content@ == cache_text(now as nat, version@),
{
    decimal_string(now).concat(",").concat(version)
}

/// Where the cache file is: under the home directory, or else under the first directory for
/// temporary files that is set.
pub open spec fn cache_path(
    home: Option<Seq<u8>>,
    tmpdir: Option<Seq<u8>>,
    tmp: Option<Seq<u8>>,
) -> Option<Seq<u8>> {
    let file = encode_utf8(".axs_update_cache"@);
    let axs = encode_utf8("axs"@);
    match (home, tmpdir, tmp) {
        (Some(home), _, _) => Some(joined(joined(joined(home, encode_utf8(".cache"@)), axs), file)),
        (None, Some(dir), _) => Some(joined(joined(dir, axs), file)),
        (None, None, Some(dir)) => Some(joined(joined(dir, axs), file)),
        (None, None, None) => None,
    }
}

/// The bytes of a variable, where it is set.
pub open spec fn variable(value: Option<&[u8]>) -> Option<Seq<u8>> {
    match value {
        Some(bytes) => Some(bytes@),
        None => None,
    }
}

/// Where the cache file is, given the variables `HOME`, `TMPDIR` and `TMP`.
pub fn get_cache_path(home: Option<&[u8]>, tmpdir: Option<&[u8]>, tmp: Option<&[u8]>) -> (path:
    Option<Vec<u8>>)
    ensures
        match cache_path(variable(home), variable(tmpdir), variable(tmp)) {
            Some(bytes) => path matches Some(p) && p@ == bytes,
            None => path is None,
        },
{
    let dir = match home {
        Some(home) => join(home, ".cache".as_bytes()),
        None => {
            let root = match tmpdir {
                Some(dir) => dir,
                None => match tmp {
                    Some(dir) => dir,
                    None => {
                        return None;
                    },
                },
            };
            let mut dir: Vec<u8> = Vec::new();
            dir.extend_from_slice(root);
            assert(dir@ =~= root@);
            dir
        },
    };
    let axs = join(dir.as_slice(), "axs".as_bytes());
    Some(join(axs.as_slice(), ".axs_update_cache".as_bytes()))
}

/// Whether an answer from `last_check` still counts. `now` is in seconds since the beginning of
/// 1970, and nothing before that.
pub open spec fn is_fresh(last_check: u64, now: Option<u64>) -> bool {
    now matches Some(n) && n >= last_check && n - last_check < UPDATE_CHECK_INTERVAL
}

/// What the cache says about updates.
pub enum CacheAnswer {
    /// Nothing: the latest release has to be asked for.
    Ask,
    /// There is a newer version, this one, or there is none.
    Known(Option<String>),
}

/// What a release says about updates: the version to keep in the cache, and the tag where it is
/// newer.
pub struct ReleaseAnswer {
    pub to_cache: String,
    pub newer: Option<String>,
}

/// What is answered about a version from the cache, given whether it is newer.
pub fn known_answer(latest_version: &str, newer: bool) -> (answer: CacheAnswer)
    ensures
        newer ==> (answer matches CacheAnswer::Known(Some(version)) && version@
            == latest_version@),
        !newer ==> answer == CacheAnswer::Known(None),
{
    if newer {
        CacheAnswer::Known(Some(String::from_str(latest_version)))
    } else {
        CacheAnswer::Known(None)
    }
}

/// What is answered about a release, given the version that its tag stands for and whether that is
/// newer.
pub fn release_answer(version: String, tag_name: &str, newer: bool) -> (answer: ReleaseAnswer)
    ensures
        answer.to_cache == version,
        newer ==> (answer.newer matches Some(tag) && tag@ == tag_name@),
        !newer ==> answer.newer is None,
{
    ReleaseAnswer {
        to_cache: version,
        newer: if newer {
            Some(String::from_str(tag_name))
        } else {
            None
        },
    }
}

/// Checks for updates of one version of the program.
pub struct UpdateChecker {
    current_version: semver::Version,
}

impl View for UpdateChecker {
    type V = Seq<char>;

    closed spec fn view(&self) -> Seq<char> {
        version_text(self.current_version)
    }
}

impl UpdateChecker {
    /// A checker for updates of the given version.
    pub fn new(current_version: &str) -> (checker: Self)
        requires
            semver_valid(current_version@),
        ensures
            checker@ == current_version@,
    {
        let parsed = version_parse(current_version);
        UpdateChecker { current_version: parsed.unwrap() }
    }

    /// A checker for updates of the given version, where it is a version.
    pub fn for_version(current_version: &str) -> (checker: Option<Self>)
        ensures
            checker is Some <==> semver_valid(current_version@),
            checker matches Some(c) ==> c@ == current_version@,
            (exists|a: u64, b: u64, c: u64| current_version@ == #[trigger] plain_version(a, b, c))
                ==> checker is Some,
    {
        match version_parse(current_version) {
            Ok(_) => Some(UpdateChecker::new(current_version)),
            Err(_) => None,
        }
    }

    /// Whether there is an update, as far as the cache can tell. An answer that is too old, or
    /// from a later time than now, tells nothing.
    pub fn check_update(&self, cache: Option<&UpdateCache>, now: Option<u64>) -> (result: Result<
        CacheAnswer,
        UpdateError,
    >)
        requires
            cache matches Some(c) ==> c.last_check <= LAST_SECOND,
        ensures
            match cache {
                Some(c) => if !is_fresh(c.last_check, now) {
                    result matches Ok(CacheAnswer::Ask)
                } else if !semver_valid(c.latest_version@) {
                    result matches Err(UpdateError::Version(error)) && semver_error(
                        c.latest_version@,
                    ) == Some(error)
                } else if semver_greater(c.latest_version@, self@) {
                    result matches Ok(CacheAnswer::Known(Some(newer))) && newer@
                        == c.latest_version@
                } else {
                    result matches Ok(CacheAnswer::Known(None))
                },
                None => result matches Ok(CacheAnswer::Ask),
            },
            cache matches Some(c) && c.latest_version@ == self@ ==> !(result matches Ok(
                CacheAnswer::Known(Some(_)),
            )),
            cache matches Some(c) ==> forall|x: u64, y: u64, z: u64|
                c.latest_version@ == #[trigger] plain_version(x, y, z) ==> result is Ok,
            cache matches Some(c) ==> forall|
                x: u64,
                y: u64,
                z: u64,
                d: u64,
                e: u64,
                f: u64,
            |
                is_fresh(c.last_check, now) && c.latest_version@ == #[trigger] plain_version(x, y, z)
                    && self@ == #[trigger] plain_version(d, e, f) ==> (result matches Ok(
                    CacheAnswer::Known(newer),
                ) && (newer is Some <==> numbers_after((x, y, z), (d, e, f)))),
    {
        let cache = match cache {
            Some(c) => c,
            None => {
                return Ok(CacheAnswer::Ask);
            },
        };
        let fresh = match now {
            Some(n) => n >= cache.last_check && n - cache.last_check < UPDATE_CHECK_INTERVAL,
            None => false,
        };
        if !fresh {
            return Ok(CacheAnswer::Ask);
        }
        match version_parse(cache.latest_version.as_str()) {
            Ok(version) => Ok(
                known_answer(
                    cache.latest_version.as_str(),
                    version_after(&version, &self.current_version),
                ),
            ),
            Err(e) => Err(UpdateError::Version(e)),
        }
    }

    /// What the latest release says about updates. Its tag may have the letter `v` in front of the
    /// version.
    pub fn check_release(&self, tag_name: &str) -> (result: Result<ReleaseAnswer, UpdateError>)
        ensures
            result is Ok <==> semver_valid(without_leading(tag_name@, 'v')),
            result matches Err(e) ==> (e matches UpdateError::Version(error) && semver_error(
                without_leading(tag_name@, 'v'),
            ) == Some(error)),
            result matches Ok(answer) ==> {
                let version = without_leading(tag_name@, 'v');
                &&& answer.to_cache@ == version
                &&& !version.contains(',')
                &&& answer.newer is Some <==> semver_greater(version, self@)
                &&& answer.newer matches Some(newer) ==> newer@ == tag_name@
                &&& version == self@ ==> answer.newer is None
            },
            forall|a: u64, b: u64, c: u64|
                without_leading(tag_name@, 'v') == #[trigger] plain_version(a, b, c) ==> result
                    is Ok,
            forall|a: u64, b: u64, c: u64, d: u64, e: u64, f: u64|
                without_leading(tag_name@, 'v') == #[trigger] plain_version(a, b, c) && self@
                    == #[trigger] plain_version(d, e, f) ==> (result->Ok_0.newer is Some
                    <==> numbers_after((a, b, c), (d, e, f))),
    {
        let text = trim_start_matches(tag_name, 'v');
        match version_parse(text) {
            Ok(version) => Ok(
                release_answer(
                    version_to_string(&version),
                    tag_name,
                    version_after(&version, &self.current_version),
                ),
            ),
            Err(e) => Err(UpdateError::Version(e)),
        }
    }
}

/// The name by which releases call an architecture.
pub open spec fn release_architecture(arch: Seq<char>) -> Option<Seq<char>> {
    if arch == "arm"@ {
        Some("android-armv7"@)
    } else if arch == "aarch64"@ {
        Some("android-arm64"@)
    } else {
        None
    }
}

/// The position of the first file of that name.
pub open spec fn asset_named(assets: Seq<GithubAsset>, name: Seq<char>) -> Option<int>
    decreases assets.len(),
{
    if assets.len() == 0 {
        None
    } else if assets[0].name@ == name {
        Some(0)
    } else {
        match asset_named(assets.skip(1), name) {
            Some(i) => Some(i + 1),
            None => None,
        }
    }
}

impl UpdateChecker {
    /// The file of a release that replaces the program on a machine of the given architecture.
    pub fn update<'a>(&self, release: &'a GithubRelease, arch: &str) -> (result: Result<
        &'a GithubAsset,
        UpdateError,
    >)
        ensures
            match release_architecture(arch@) {
                None => result == Err::<&GithubAsset, UpdateError>(
                    UpdateError::UnsupportedArchitecture,
                ),
                Some(name) => match asset_named(release.assets@, "axs-"@ + name) {
                    Some(i) => 0 <= i < release.assets@.len() && result == Ok::<
                        &GithubAsset,
                        UpdateError,
                    >(&release.assets@[i]),
                    None => result == Err::<&GithubAsset, UpdateError>(UpdateError::NoMatchingBinary),
                },
            },
    {
        let arch_text = String::from_str(arch);
        let name = if arch_text == String::from_str("arm") {
            String::from_str("axs-").concat("android-armv7")
        } else if arch_text == String::from_str("aarch64") {
            String::from_str("axs-").concat("android-arm64")
        } else {
            return Err(UpdateError::UnsupportedArchitecture);
        };
        let assets = &release.assets;
        let mut i: usize = 0;
        assert(assets@.skip(0) =~= assets@);
        while i < assets.len()
            invariant
                i <= assets@.len(),
                assets@ == release.assets@,
                release_architecture(arch@) matches Some(n) && name@ == "axs-"@ + n,
                asset_named(assets@, name@) == (match asset_named(assets@.skip(i as int), name@) {
                    Some(k) => Some(k + i as int),
                    None => None,
                }),
            decreases assets@.len() - i,
        {
            let ghost rest = assets@.skip(i as int);
            assert(rest[0] == assets@[i as int]);
            assert(rest.skip(1) =~= assets@.skip(i + 1));
            if assets[i].name == name {
                return Ok(&assets[i]);
            }
            i = i + 1;
        }
        Err(UpdateError::NoMatchingBinary)
    }
}

/// What was written into the cache is read back, time and version, as long as the version has no
/// comma in it.
pub proof fn law_cache_is_read_back(now: u64, version: Seq<char>)
    requires
        !version.contains(','),
    ensures
        cached(cache_text(now as nat, version)) == Some((now as nat, version)),
{
    let time = decimal(now as nat);
    let content = cache_text(now as nat, version);
    lemma_decimal_has_no_comma(now as nat);
    reveal_strlit(",");
    lemma_run(content, other_than(','), time.len());
    assert(content.take(time.len() as int) =~= time);
    assert(content.skip(time.len() as int + 1) =~= version);
    lemma_decimal_is_read_back(now as nat);
}

proof fn lemma_decimal_has_no_comma(n: nat)
    ensures
        forall|i: int| 0 <= i < decimal(n).len() ==> #[trigger] decimal(n)[i] != ',',
    decreases n,
{
    let digit = digit_char(n % 10);
    assert(48 <= digit as int <= 57);
    if n >= 10 {
        lemma_decimal_has_no_comma(n / 10);
    }
    assert forall|i: int| 0 <= i < decimal(n).len() implies #[trigger] decimal(n)[i] != ',' by {
        if n >= 10 && i < decimal(n).len() - 1 {
            assert(decimal(n)[i] == decimal(n / 10)[i]);
        } else {
            assert(decimal(n)[i] == digit);
        }
    }
}

/// The version of a release that was asked for is the one that the cache answers with, until the
/// interval is over.
pub proof fn law_answer_is_remembered(now: u64, later: u64, version: Seq<char>)
    requires
        !version.contains(','),
        now <= later,
        later - now < UPDATE_CHECK_INTERVAL,
    ensures
        cached(cache_text(now as nat, version)) matches Some((time, latest)) && latest == version
            && is_fresh(time as u64, Some(later)),
{
    law_cache_is_read_back(now, version);
}

/// An answer counts from the moment it was kept until the interval is over, and no longer.
pub proof fn law_cache_expires(last_check: u64, now: u64)
    ensures
        is_fresh(last_check, Some(last_check)),
        now >= last_check + UPDATE_CHECK_INTERVAL ==> !is_fresh(last_check, Some(now)),
        now < last_check ==> !is_fresh(last_check, Some(now)),
{
}

} // verus!
