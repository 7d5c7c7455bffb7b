use acodex_server::updates::{
    cache_content, get_cache_path, known_answer, parse_cache, release_answer, CacheAnswer,
    GithubAsset, GithubRelease, UpdateCache, UpdateChecker, UpdateError, UPDATE_CHECK_INTERVAL,
};

fn cache(last_check: u64, version: &str) -> UpdateCache {
    UpdateCache { last_check, latest_version: version.to_string() }
}

fn release(names: &[&str]) -> GithubRelease {
    GithubRelease {
        tag_name: "v9.9.9".to_string(),
        assets: names
            .iter()
            .enumerate()
            .map(|(i, name)| GithubAsset {
                name: name.to_string(),
                browser_download_url: format!("https://example.org/{i}"),
            })
            .collect(),
    }
}

#[test]
fn a_checker_needs_a_version() {
    assert!(UpdateChecker::for_version("0.3.0").is_some());
    assert!(UpdateChecker::for_version("1.0.0-alpha.1+build").is_some());
    for text in ["", "1.0", "1.0.01", "v1.0.0", "1.0.0-", "23456789999999999999.0.0"] {
        assert!(UpdateChecker::for_version(text).is_none());
    }
}

#[test]
fn the_cache_is_read_back() {
    assert_eq!(cache_content(1700000000, "0.3.1"), "1700000000,0.3.1");
    let read = parse_cache(&cache_content(1700000000, "0.3.1")).unwrap();
    assert_eq!((read.last_check, read.latest_version.as_str()), (1700000000, "0.3.1"));
}

#[test]
fn a_spoilt_cache_is_ignored() {
    for content in ["", "12", "12,1.0.0,x", "x,1.0.0", "-1,1.0.0", "99999999999999999999,1.0.0"] {
        assert!(parse_cache(content).is_none());
    }
    assert_eq!(parse_cache("+5,").unwrap().last_check, 5);
}

#[test]
fn a_fresh_cache_answers() {
    let checker = UpdateChecker::new("0.3.0");
    let now = Some(1_000_000);
    let answer = checker.check_update(Some(&cache(999_999, "0.4.0")), now);
    assert!(matches!(answer, Ok(CacheAnswer::Known(Some(v))) if v == "0.4.0"));
    let answer = checker.check_update(Some(&cache(999_999, "0.10.0")), now);
    assert!(matches!(answer, Ok(CacheAnswer::Known(Some(v))) if v == "0.10.0"));
    let answer = checker.check_update(Some(&cache(1_000_000, "0.3.0")), now);
    assert!(matches!(answer, Ok(CacheAnswer::Known(None))));
    let answer = checker.check_update(Some(&cache(1_000_000, "0.2.9")), now);
    assert!(matches!(answer, Ok(CacheAnswer::Known(None))));
    let answer = checker.check_update(Some(&cache(1_000_000, "0.3.0-rc.1")), now);
    assert!(matches!(answer, Ok(CacheAnswer::Known(None))));
}

#[test]
fn an_old_cache_does_not_answer() {
    let checker = UpdateChecker::new("0.3.0");
    let ask = |last: u64, now: Option<u64>| {
        matches!(
            checker.check_update(Some(&cache(last, "0.4.0")), now),
            Ok(CacheAnswer::Ask)
        )
    };
    assert!(!ask(100, Some(100 + UPDATE_CHECK_INTERVAL - 1)));
    assert!(ask(100, Some(100 + UPDATE_CHECK_INTERVAL)));
    assert!(ask(100, Some(99)));
    assert!(ask(100, None));
    assert!(matches!(checker.check_update(None, Some(100)), Ok(CacheAnswer::Ask)));
    assert_eq!(UPDATE_CHECK_INTERVAL, 24 * 60 * 60);
}

#[test]
fn a_version_that_is_none_is_an_error() {
    let checker = UpdateChecker::new("0.3.0");
    match checker.check_update(Some(&cache(5, "1.q.r")), Some(6)) {
        Err(e) => assert_eq!(
            e.message(),
            "unexpected character 'q' while parsing minor version number"
        ),
        Ok(_) => panic!("no error"),
    }
    match checker.check_release("v1.2") {
        Err(UpdateError::Version(e)) => assert_eq!(
            e.to_string(),
            semver::Version::parse("1.2").unwrap_err().to_string()
        ),
        _ => panic!("no error"),
    }
}

#[test]
fn a_newer_release_is_offered_by_its_tag() {
    let checker = UpdateChecker::new("0.3.0");
    let answer = checker.check_release("v0.10.0").ok().unwrap();
    assert_eq!(answer.to_cache, "0.10.0");
    assert_eq!(answer.newer, Some("v0.10.0".to_string()));
    for tag in ["v0.3.0", "0.3.0", "v0.2.99", "v0.3.0-beta"] {
        assert_eq!(checker.check_release(tag).ok().unwrap().newer, None);
    }
    assert!(checker.check_release("vv1.0.0").ok().unwrap().newer.is_some());
}

#[test]
fn answers_follow_from_the_comparison() {
    assert!(matches!(known_answer("1.0.0", true), CacheAnswer::Known(Some(v)) if v == "1.0.0"));
    assert!(matches!(known_answer("1.0.0", false), CacheAnswer::Known(None)));
    let answer = release_answer("1.0.0".to_string(), "v1.0.0", true);
    assert_eq!((answer.to_cache.as_str(), answer.newer), ("1.0.0", Some("v1.0.0".to_string())));
    assert_eq!(release_answer("1.0.0".to_string(), "v1.0.0", false).newer, None);
}

#[test]
fn the_file_for_the_architecture_is_chosen() {
    let checker = UpdateChecker::new("0.3.0");
    let files = release(&["axs-android-armv7", "axs-android-arm64", "axs-android-arm64"]);
    assert_eq!(
        checker.update(&files, "aarch64").ok().unwrap().browser_download_url,
        "https://example.org/1"
    );
    assert_eq!(checker.update(&files, "arm").ok().unwrap().name, "axs-android-armv7");
    let error = checker.update(&files, "x86_64").err().unwrap();
    assert_eq!(error.message(), "Unsupported architecture");
    let error = checker.update(&release(&["axs-android-armv7"]), "aarch64").err().unwrap();
    assert_eq!(error.message(), "No matching binary found");
}

#[test]
fn the_cache_has_its_place() {
    let path = |home: Option<&[u8]>, tmpdir: Option<&[u8]>, tmp: Option<&[u8]>| {
        get_cache_path(home, tmpdir, tmp).map(|p| String::from_utf8(p).unwrap())
    };
    assert_eq!(
        path(Some(b"/home/u"), Some(b"/t"), None),
        Some("/home/u/.cache/axs/.axs_update_cache".to_string())
    );
    assert_eq!(path(None, Some(b"/t"), Some(b"/u")), Some("/t/axs/.axs_update_cache".to_string()));
    assert_eq!(path(None, None, Some(b"/u")), Some("/u/axs/.axs_update_cache".to_string()));
    assert_eq!(path(None, None, None), None);
}
