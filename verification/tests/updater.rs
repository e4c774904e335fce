use opcua_howick::updater::{
    asset_name, is_newer, parse_version, plan_update, release_url, semver_of, target_triple,
    LatestRelease, ReleaseAsset, UpdateError, UpdatePlan,
};

#[test]
fn parse_version_basic() {
    assert_eq!(parse_version("v1.2.3"), Some((1, 2, 3)));
    assert_eq!(parse_version("1.2.3"), Some((1, 2, 3)));
    assert_eq!(parse_version("0.1.0"), Some((0, 1, 0)));
    assert_eq!(parse_version("v99.0.0"), Some((99, 0, 0)));
}

#[test]
fn parse_version_with_suffix() {
    // patch suffix is stripped, only numeric prefix kept
    assert_eq!(parse_version("v1.2.3-beta"), Some((1, 2, 3)));
}

#[test]
fn parse_version_with_hash() {
    // "0.1.0 (abc1234)" → strip space → "0.1.0"
    let raw = "0.1.0 (abc1234)";
    let semver = raw.split_whitespace().next().unwrap();
    assert_eq!(parse_version(semver), Some((0, 1, 0)));
}

#[test]
fn target_triple_is_not_empty() {
    for arch in ["aarch64", "x86_64", "x86", "arm", "riscv64"] {
        for os in ["linux", "macos", "windows", "freebsd"] {
            assert!(!target_triple(arch, os).is_empty());
        }
    }
}

#[test]
fn version_comparison_semantics() {
    let current = parse_version("0.1.0").unwrap();
    let newer = parse_version("v99.0.0").unwrap();
    let same = parse_version("0.1.0").unwrap();
    assert!(newer > current);
    assert!(same == current);
    assert!(current <= same);
}

#[test]
fn parse_version_edge_cases() {
    // no dot at all, or a major/minor that is not a number
    assert_eq!(parse_version("v1"), None);
    assert_eq!(parse_version(""), None);
    assert_eq!(parse_version("a.1.2"), None);
    assert_eq!(parse_version("1.x.2"), None);
    // two parts only: the patch defaults to zero
    assert_eq!(parse_version("1.2"), Some((1, 2, 0)));
    // every leading `v` is dropped
    assert_eq!(parse_version("vv3.4.5"), Some((3, 4, 5)));
    // `u64::from_str` accepts a leading plus sign
    assert_eq!(parse_version("+1.+2.3"), Some((1, 2, 3)));
    // a patch without digits, or one that does not fit, is zero
    assert_eq!(parse_version("1.2.beta"), Some((1, 2, 0)));
    assert_eq!(parse_version("1.2.99999999999999999999"), Some((1, 2, 0)));
    // the patch keeps everything after the second dot
    assert_eq!(parse_version("1.2.3.4"), Some((1, 2, 3)));
    // a major that does not fit in u64 fails
    assert_eq!(parse_version("18446744073709551616.0.0"), None);
    assert_eq!(parse_version("18446744073709551615.0.0"), Some((u64::MAX, 0, 0)));
}

#[test]
fn newer_is_lexicographic() {
    assert!(is_newer((1, 0, 0), (0, 9, 9)));
    assert!(is_newer((0, 2, 0), (0, 1, 9)));
    assert!(is_newer((0, 1, 1), (0, 1, 0)));
    assert!(!is_newer((0, 1, 0), (0, 1, 0)));
    assert!(!is_newer((0, 1, 0), (0, 2, 0)));
}

#[test]
fn semver_part_of_build_string() {
    assert_eq!(semver_of("0.1.0 (abc1234)"), "0.1.0");
    assert_eq!(semver_of("  1.2.3"), "1.2.3");
    assert_eq!(semver_of(""), "");
    assert_eq!(semver_of("   "), "   ");
}

#[test]
fn triples_of_known_targets() {
    assert_eq!(target_triple("aarch64", "linux"), "aarch64-unknown-linux-gnu");
    assert_eq!(target_triple("x86_64", "linux"), "x86_64-unknown-linux-gnu");
    assert_eq!(target_triple("aarch64", "macos"), "aarch64-apple-darwin");
    assert_eq!(target_triple("x86_64", "macos"), "x86_64-apple-darwin");
    assert_eq!(target_triple("x86_64", "windows"), "x86_64-pc-windows-msvc");
    assert_eq!(target_triple("riscv64", "linux"), "unknown");
}

fn release(tag: &str, names: &[&str]) -> LatestRelease {
    LatestRelease {
        tag_name: tag.to_string(),
        assets: names
            .iter()
            .map(|n| ReleaseAsset {
                name: n.to_string(),
                browser_download_url: format!("http://example.test/assets/{n}"),
            })
            .collect(),
    }
}

#[test]
fn plan_downloads_newer_release() {
    let r = release("v99.0.0", &["other", "howick-agent-x86_64-unknown-linux-gnu"]);
    match plan_update("howick-agent", "0.1.0 (abc1234)", &r, "x86_64-unknown-linux-gnu") {
        Ok(UpdatePlan::Download { url }) => {
            assert_eq!(url, "http://example.test/assets/howick-agent-x86_64-unknown-linux-gnu")
        }
        _ => panic!("expected a download"),
    }
}

#[test]
fn plan_skips_same_version() {
    let r = release("v0.1.0", &["howick-agent-x86_64-unknown-linux-gnu"]);
    assert!(matches!(
        plan_update("howick-agent", "0.1.0 (abc1234)", &r, "x86_64-unknown-linux-gnu"),
        Ok(UpdatePlan::UpToDate)
    ));
    let older = release("v0.0.9", &[]);
    assert!(matches!(
        plan_update("howick-agent", "0.1.0", &older, "x86_64-unknown-linux-gnu"),
        Ok(UpdatePlan::UpToDate)
    ));
}

#[test]
fn plan_errors() {
    let r = release("v1.0.0", &["howick-agent-aarch64-apple-darwin"]);
    match plan_update("howick-agent", "dev build", &r, "x86_64-unknown-linux-gnu") {
        Err(UpdateError::CurrentVersion(v)) => assert_eq!(v, "dev"),
        _ => panic!("expected a current-version error"),
    }
    let bad = release("latest", &[]);
    match plan_update("howick-agent", "0.1.0", &bad, "x86_64-unknown-linux-gnu") {
        Err(UpdateError::RemoteTag(t)) => assert_eq!(t, "latest"),
        _ => panic!("expected a remote-tag error"),
    }
    match plan_update("howick-agent", "0.1.0", &r, "x86_64-unknown-linux-gnu") {
        Err(UpdateError::MissingAsset(name, tag)) => {
            assert_eq!(name, "howick-agent-x86_64-unknown-linux-gnu");
            assert_eq!(tag, "v1.0.0");
        }
        _ => panic!("expected a missing-asset error"),
    }
}

#[test]
fn release_urls() {
    assert_eq!(
        release_url("https://api.github.com"),
        "https://api.github.com/repos/joeblew999/opcua-howick/releases/latest"
    );
    assert_eq!(asset_name("opcua-server", "aarch64-apple-darwin"), "opcua-server-aarch64-apple-darwin");
}
