use flymd_storage::CheckUpdateResp;
use flymd_storage::GhAsset;
use flymd_storage::GhRelease;
use flymd_storage::OsTag;
use flymd_storage::asset_info;
use flymd_storage::check_update_from_releases;
use flymd_storage::gh_proxy_url;
use flymd_storage::is_better;
use flymd_storage::match_linux_assets;
use flymd_storage::match_macos_assets;
use flymd_storage::match_windows_asset;
use flymd_storage::norm_ver;
use flymd_storage::pick_release;

fn asset(name: &str) -> GhAsset {
    GhAsset {
        name: name.to_string(),
        browser_download_url: format!("https://github.test/dl/{name}"),
        size: Some(1024),
        content_type: None,
    }
}

fn release(tag: &str, draft: bool, prerelease: bool, assets: Vec<GhAsset>) -> GhRelease {
    GhRelease {
        tag_name: tag.to_string(),
        name: Some(format!("Release {tag}")),
        body: Some("notes".to_string()),
        draft,
        prerelease,
        html_url: format!("https://github.test/releases/{tag}"),
        assets,
    }
}

#[test]
fn norm_ver_reads_components_and_suffix_weight() {
    assert_eq!(norm_ver("v1.2.3"), (1, 2, 3, 1));
    assert_eq!(norm_ver(" 0.5.0-fix2 "), (0, 5, 0, 2));
    assert_eq!(norm_ver("1.2.3-BETA"), (1, 2, 3, 0));
    assert_eq!(norm_ver("2.0"), (2, 0, 0, 1));
    assert_eq!(norm_ver("not.a.version"), (0, 0, 0, 1));
    assert_eq!(norm_ver("v1.2.3.4"), (1, 2, 3, 1));
}

#[test]
fn version_order_prefers_fix_over_plain_over_prerelease() {
    assert!(is_better(&norm_ver("1.2.3-fix1"), &norm_ver("1.2.3")));
    assert!(is_better(&norm_ver("1.2.3"), &norm_ver("1.2.3-rc1")));
    assert!(is_better(&norm_ver("1.3.0"), &norm_ver("1.2.9-fix9")));
    assert!(!is_better(&norm_ver("1.2.3"), &norm_ver("1.2.3")));
}

#[test]
fn proxy_url_prefixes_once() {
    assert_eq!(
        gh_proxy_url("https://github.test/dl/a.AppImage"),
        "https://gh-proxy.com/https://github.test/dl/a.AppImage"
    );
    assert_eq!(
        gh_proxy_url("https://gh-proxy.com/https://github.test/dl/a.AppImage"),
        "https://gh-proxy.com/https://github.test/dl/a.AppImage"
    );
}

#[test]
fn linux_matcher_takes_the_first_x64_appimage_and_deb_skipping_arm() {
    let assets = vec![
        asset("app-arm64.AppImage"),
        asset("app-x86_64.AppImage"),
        asset("app-aarch64.deb"),
        asset("app-amd64.deb"),
        asset("app-x86_64-second.AppImage"),
    ];
    let (appimage, deb) = match_linux_assets(&assets);
    assert_eq!(appimage, Some(1));
    assert_eq!(deb, Some(3));
}

#[test]
fn windows_matcher_wants_an_x64_installer() {
    let assets = vec![
        asset("app-arm64.exe"),
        asset("app.dmg"),
        asset("app-x64-setup.exe"),
    ];
    assert_eq!(match_windows_asset(&assets), Some(2));
    assert_eq!(match_windows_asset(&vec![asset("app.AppImage")]), None);
}

#[test]
fn macos_matcher_splits_intel_and_apple_silicon() {
    let assets = vec![
        asset("app-x86_64.dmg"),
        asset("app-arm64.dmg"),
        asset("app-amd64.deb"),
    ];
    let (x64, arm) = match_macos_assets(&assets);
    assert_eq!(x64, Some(0));
    assert_eq!(arm, Some(1));
}

#[test]
fn pick_release_skips_drafts_and_prereleases_unless_asked() {
    let releases = vec![
        release("v1.1.0", true, false, vec![]),
        release("v1.0.9-rc1", false, true, vec![]),
        release("v1.0.8", false, false, vec![]),
    ];
    assert_eq!(pick_release(&releases, false), Some(2));
    assert_eq!(pick_release(&releases, true), Some(1));
    assert_eq!(pick_release(&vec![release("v1", true, false, vec![])], false), None);
}

#[test]
fn asset_info_carries_both_download_urls() {
    let info = asset_info(&asset("app-x64.exe"));
    assert_eq!(info.name, "app-x64.exe");
    assert_eq!(info.size, 1024);
    assert_eq!(info.direct_url, "https://github.test/dl/app-x64.exe");
    assert_eq!(info.proxy_url, "https://gh-proxy.com/https://github.test/dl/app-x64.exe");
}

#[test]
fn check_update_reads_the_first_eligible_release() {
    let releases = vec![
        release("v2.0.0-rc1", false, true, vec![]),
        release("v1.9.0", false, false, vec![
            asset("app-x86_64.AppImage"),
            asset("app-amd64.deb"),
        ]),
    ];
    let resp: CheckUpdateResp =
        check_update_from_releases("1.8.2", OsTag::Linux, false, &releases).expect("a release");
    assert!(resp.has_update);
    assert_eq!(resp.current, "1.8.2");
    assert_eq!(resp.latest, "1.9.0");
    assert_eq!(resp.release_name, "Release v1.9.0");
    assert_eq!(resp.html_url, "https://github.test/releases/v1.9.0");
    assert!(resp.asset_linux_appimage.is_some());
    assert!(resp.asset_linux_deb.is_some());
    assert!(resp.asset_win.is_none());
    assert_eq!(
        resp.asset_linux_appimage.unwrap().name,
        "app-x86_64.AppImage"
    );
}

#[test]
fn check_update_sees_no_update_when_current_is_newer() {
    let releases = vec![release("v1.0.0", false, false, vec![])];
    let resp = check_update_from_releases("1.1.0", OsTag::Other, false, &releases).unwrap();
    assert!(!resp.has_update);
}

#[test]
fn check_update_without_an_eligible_release_fails() {
    let releases = vec![release("v1.0.0", true, false, vec![])];
    let err = check_update_from_releases("0.9.0", OsTag::Linux, false, &releases).unwrap_err();
    assert_eq!(err, "no release found");
}
