//! Looking for updates: what is remembered, what is offered, and which file is taken.
use vstd::prelude::*;
use vstd::utf8::encode_utf8;
use crate::updates::{
    asset_named,
    cache_content,
    get_cache_path,
    known_answer,
    law_cache_is_read_back,
    numbers_after,
    parse_cache,
    plain_version,
    release_answer,
    semver_greater,
    semver_valid,
    CacheAnswer,
    GithubAsset,
    GithubRelease,
    ReleaseAnswer,
    UpdateCache,
    UpdateChecker,
    UpdateError,
};

verus! {

/// The position that is found is that of the first file of that name, and none is found exactly
/// where no file has that name.
proof fn lemma_asset_named(assets: Seq<GithubAsset>, name: Seq<char>)
    ensures
        asset_named(assets, name) matches Some(i) ==> 0 <= i < assets.len() && assets[i].name@
            == name && forall|j: int| 0 <= j < i ==> (#[trigger] assets[j]).name@ != name,
        asset_named(assets, name) is None ==> forall|j: int|
            0 <= j < assets.len() ==> (#[trigger] assets[j]).name@ != name,
    decreases assets.len(),
{
    if assets.len() > 0 && assets[0].name@ != name {
        let rest = assets.skip(1);
        lemma_asset_named(rest, name);
        assert forall|j: int|
            0 <= j < assets.len() && (asset_named(assets, name) matches Some(i) ==> j
                < i) implies (#[trigger] assets[j]).name@ != name by {
            if j > 0 {
                assert(rest[j - 1] == assets[j]);
            }
        }
    }
}

/// On a machine for which there are releases, the first file of the right name is taken, wherever
/// in the list it stands; that there is none is said only where no file of the list has that name.
/// On any other machine that is said.
pub proof fn law_the_file_for_the_machine_is_taken(
    checker: &UpdateChecker,
    release: &GithubRelease,
    arch: &str,
    result: Result<&GithubAsset, UpdateError>,
    wanted: Seq<char>,
    at: int,
)
    requires
        call_ensures(UpdateChecker::update, (checker, release, arch), result),
        arch@ == "arm"@ ==> wanted == "axs-"@ + "android-armv7"@,
        arch@ == "aarch64"@ ==> wanted == "axs-"@ + "android-arm64"@,
    ensures
        (result matches Err(e) && e is UnsupportedArchitecture) <==> arch@ != "arm"@ && arch@
            != "aarch64"@,
        arch@ == "arm"@ || arch@ == "aarch64"@ ==> {
            &&& 0 <= at < release.assets@.len() && release.assets@[at].name@ == wanted ==> result
                is Ok
            &&& result matches Ok(asset) ==> asset.name@ == wanted && exists|k: int|
                0 <= k < release.assets@.len() && release.assets@[k] == *asset && forall|j: int|
                    0 <= j < k ==> (#[trigger] release.assets@[j]).name@ != wanted
            &&& result matches Err(e) ==> e is NoMatchingBinary && forall|j: int|
                0 <= j < release.assets@.len() ==> (#[trigger] release.assets@[j]).name@ != wanted
        },
{
    reveal_strlit("arm");
    reveal_strlit("aarch64");
    assert("arm"@.len() != "aarch64"@.len());
    lemma_asset_named(release.assets@, wanted);
}

/// What is written into the cache is read back, time and version.
pub proof fn law_what_is_cached_is_read_back(
    now: u64,
    version: &str,
    content: String,
    text: &str,
    cache: Option<UpdateCache>,
)
    requires
        call_ensures(cache_content, (now, version), content),
        text@ == content@,
        call_ensures(parse_cache, (text,), cache),
        !version@.contains(','),
    ensures
        cache matches Some(c) && c.last_check == now && c.latest_version@ == version@,
{
    law_cache_is_read_back(now, version@);
}

/// What is read from a cache file stands in it, the time and then the version, with the only comma
/// between them.
pub proof fn law_cache_holds_a_time_and_a_version(
    content: &str,
    cache: Option<UpdateCache>,
    time: &str,
    version: &str,
    seconds: Option<u64>,
    bytes: &[u8],
    pair: Option<(&str, &str)>,
)
    requires
        call_ensures(parse_cache, (content,), cache),
        call_ensures(crate::text::words::split_halves, (content, ','), pair),
        pair matches Some(p) ==> p.0@ == time@ && p.1@ == version@,
        bytes@ == encode_utf8(time@),
        call_ensures(crate::text::numerals::parse_unsigned, (bytes, u64::MAX), seconds),
    ensures
        cache is Some <==> pair is Some && seconds is Some,
        cache matches Some(c) ==> seconds == Some(c.last_check) && c.latest_version@ == version@,
{
}

/// The cache answers for 86400 seconds from when it was written, and neither before nor later; then,
/// and where there is none, the release is asked for.
pub proof fn law_cache_answers_for_a_day(
    checker: &UpdateChecker,
    cache: &UpdateCache,
    now: Option<u64>,
    result: Result<CacheAnswer, UpdateError>,
    without: Result<CacheAnswer, UpdateError>,
)
    requires
        call_ensures(UpdateChecker::check_update, (checker, Some(cache), now), result),
        call_ensures(UpdateChecker::check_update, (checker, None::<&UpdateCache>, now), without),
    ensures
        (result matches Ok(CacheAnswer::Ask)) <==> (now is None || (now matches Some(n) && (n
            < cache.last_check || n - cache.last_check >= 86_400))),
        without matches Ok(CacheAnswer::Ask),
{
}

/// While the cache answers, it offers its version exactly where that is newer, and says that there
/// is none exactly where it is not; what is no version is an error.
pub proof fn law_cached_version_is_offered_where_newer(
    checker: &UpdateChecker,
    cache: &UpdateCache,
    now: u64,
    result: Result<CacheAnswer, UpdateError>,
)
    requires
        call_ensures(UpdateChecker::check_update, (checker, Some(cache), Some(now)), result),
        cache.last_check <= now,
        now - cache.last_check < 86_400,
    ensures
        result is Err <==> !semver_valid(cache.latest_version@),
        semver_valid(cache.latest_version@) ==> (result matches Ok(CacheAnswer::Known(newer)) && (
        newer is Some <==> semver_greater(cache.latest_version@, checker@)) && (
        newer matches Some(version) ==> version@ == cache.latest_version@)),
{
}

/// Of versions of three numbers, the later one is offered: the first number that differs decides.
pub proof fn law_later_numbers_are_newer(
    checker: &UpdateChecker,
    tag_name: &str,
    result: Result<ReleaseAnswer, UpdateError>,
    stripped: &str,
    ours: (u64, u64, u64),
    theirs: (u64, u64, u64),
)
    requires
        call_ensures(UpdateChecker::check_release, (checker, tag_name), result),
        call_ensures(crate::text::words::trim_start_matches, (tag_name, 'v'), stripped),
        checker@ == plain_version(ours.0, ours.1, ours.2),
        stripped@ == plain_version(theirs.0, theirs.1, theirs.2),
    ensures
        result matches Ok(answer) && answer.to_cache@ == stripped@ && (answer.newer is Some <==> (
        theirs.0 > ours.0 || (theirs.0 == ours.0 && theirs.1 > ours.1) || (theirs.0 == ours.0
            && theirs.1 == ours.1 && theirs.2 > ours.2))) && (answer.newer matches Some(tag) ==> tag@
            == tag_name@),
{
}

/// A release and the cache that is kept of it say the same: there is a newer version by the one
/// exactly where there is by the other.
pub proof fn law_release_and_cache_agree(
    checker: &UpdateChecker,
    tag_name: &str,
    answer: ReleaseAnswer,
    cache: &UpdateCache,
    now: u64,
    cached: Result<CacheAnswer, UpdateError>,
)
    requires
        call_ensures(
            UpdateChecker::check_release,
            (checker, tag_name),
            Ok::<ReleaseAnswer, UpdateError>(answer),
        ),
        cache.latest_version@ == answer.to_cache@,
        cache.last_check <= now,
        now - cache.last_check < 86_400,
        call_ensures(UpdateChecker::check_update, (checker, Some(cache), Some(now)), cached),
    ensures
        cached matches Ok(CacheAnswer::Known(newer)) && (newer is Some <==> answer.newer is Some),
        !answer.to_cache@.contains(','),
{
}

/// A version is written in its three numbers, with dots between them; which three decides.
pub proof fn law_plain_versions_are_three_numbers(left: (u64, u64, u64), right: (u64, u64, u64))
    ensures
        plain_version(left.0, left.1, left.2) == crate::text::numerals::decimal(left.0 as nat)
            + "."@ + crate::text::numerals::decimal(left.1 as nat) + "."@
            + crate::text::numerals::decimal(left.2 as nat),
        !numbers_after(left, left),
        !(numbers_after(left, right) && numbers_after(right, left)),
        left != right ==> numbers_after(left, right) || numbers_after(right, left),
{
}

/// A checker is for the version that it was made for, and is made for every version of three
/// numbers.
pub proof fn law_checkers_know_their_version(
    version: &str,
    checker: Option<UpdateChecker>,
    made: UpdateChecker,
    major: u64,
    minor: u64,
    patch: u64,
)
    requires
        call_ensures(UpdateChecker::for_version, (version,), checker),
        call_ensures(UpdateChecker::new, (version,), made),
    ensures
        checker is Some <==> semver_valid(version@),
        checker matches Some(c) ==> c@ == version@,
        version@ == plain_version(major, minor, patch) ==> checker is Some,
        made@ == version@,
{
}

/// What is answered names the version, or the tag, exactly where it is newer.
pub proof fn law_answers_name_what_is_newer(
    latest: &str,
    newer: bool,
    known: CacheAnswer,
    version: String,
    tag_name: &str,
    answer: ReleaseAnswer,
)
    requires
        call_ensures(known_answer, (latest, newer), known),
        call_ensures(release_answer, (version, tag_name, newer), answer),
    ensures
        known matches CacheAnswer::Known(offered) && (offered is Some <==> newer) && (
        offered matches Some(v) ==> v@ == latest@),
        answer.newer is Some <==> newer,
        answer.newer matches Some(tag) ==> tag@ == tag_name@,
        answer.to_cache@ == version@,
{
}

/// What went wrong is told in its words.
pub proof fn law_update_errors_are_told(error: UpdateError, text: String)
    requires
        call_ensures(UpdateError::message, (&error,), text),
    ensures
        error is UnsupportedArchitecture ==> text@ == "Unsupported architecture"@,
        error is NoMatchingBinary ==> text@ == "No matching binary found"@,
        error matches UpdateError::Version(e)
            ==> vstd::string::to_string_from_display_ensures::<semver::Error>(&e, text),
{
}

/// The cache file stands under the home directory, and only where none is set under a directory for
/// temporary files, of which the first that is set counts.
pub proof fn law_cache_has_its_place(
    home: Option<&[u8]>,
    tmpdir: Option<&[u8]>,
    tmp: Option<&[u8]>,
    path: Option<Vec<u8>>,
    root: Seq<u8>,
)
    requires
        call_ensures(get_cache_path, (home, tmpdir, tmp), path),
        root.len() > 0,
        root.last() != 47,
    ensures
        path is None <==> home is None && tmpdir is None && tmp is None,
        home matches Some(h) ==> (h@ == root ==> (path matches Some(p) && p@ == root + encode_utf8(
            "/.cache/axs/.axs_update_cache"@,
        ))),
        home is None ==> (tmpdir matches Some(t) ==> (t@ == root ==> (path matches Some(p) && p@
            == root + encode_utf8("/axs/.axs_update_cache"@)))),
        home is None && tmpdir is None ==> (tmp matches Some(t) ==> (t@ == root ==> (
        path matches Some(p) && p@ == root + encode_utf8("/axs/.axs_update_cache"@)))),
{
    reveal_strlit("/.cache/axs/.axs_update_cache");
    reveal_strlit("/axs/.axs_update_cache");
    reveal_strlit(".cache");
    reveal_strlit("axs");
    reveal_strlit(".axs_update_cache");
    vstd::utf8::is_ascii_chars_encode_utf8("/.cache/axs/.axs_update_cache"@);
    vstd::utf8::is_ascii_chars_encode_utf8("/axs/.axs_update_cache"@);
    vstd::utf8::is_ascii_chars_encode_utf8(".cache"@);
    vstd::utf8::is_ascii_chars_encode_utf8("axs"@);
    vstd::utf8::is_ascii_chars_encode_utf8(".axs_update_cache"@);
    let (c, x, f) = (encode_utf8(".cache"@), encode_utf8("axs"@), encode_utf8(".axs_update_cache"@));
    let p1 = root.push(47) + c;
    assert(p1.last() == c.last());
    let p2 = p1.push(47) + x;
    assert(p2.last() == x.last());
    let q2 = root.push(47) + x;
    assert(q2.last() == x.last());
    assert(encode_utf8("/.cache/axs/.axs_update_cache"@) =~= seq![47u8] + c + seq![47u8] + x
        + seq![47u8] + f);
    assert(encode_utf8("/axs/.axs_update_cache"@) =~= seq![47u8] + x + seq![47u8] + f);
    assert(p2.push(47) + f =~= root + encode_utf8("/.cache/axs/.axs_update_cache"@));
    assert(q2.push(47) + f =~= root + encode_utf8("/axs/.axs_update_cache"@));
}

} // verus!
