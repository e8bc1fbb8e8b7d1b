use tsom_api::errors::InternalError;
use tsom_api::fetcher::{
    get_latest_game_release, get_latest_updater_release, parse_checksum_response,
    remove_game_suffix, ChecksumResponse,
};
use tsom_api::game_data::{Asset, AssetEntry, ReleaseEntry, Version};

fn entry(name: &str, size: i64, download_url: &str) -> AssetEntry {
    AssetEntry { name: name.to_string(), size, download_url: download_url.to_string() }
}

fn release(tag: &str, prerelease: bool, assets: Vec<AssetEntry>) -> ReleaseEntry {
    ReleaseEntry { tag_name: tag.to_string(), prerelease, assets }
}

fn body_for(name: &str) -> ChecksumResponse {
    ChecksumResponse::Body(format!("*sha256-key* *{name}"))
}

fn assert_version(v: &Version, major: u64, minor: u64, patch: u64) {
    assert_eq!(v.major, major);
    assert_eq!(v.minor, minor);
    assert_eq!(v.patch, patch);
    assert!(v.pre.is_empty());
    assert!(v.build.is_empty());
}

fn assert_asset(a: &Asset, name: &str, size: i64, url: &str, version: (u64, u64, u64), sha: Option<&str>) {
    assert_eq!(a.name, name);
    assert_eq!(a.size, size);
    assert_eq!(a.download_url, url);
    assert_version(&a.version, version.0, version.1, version.2);
    assert_eq!(a.sha256.as_deref(), sha);
}

#[test]
fn retrieve_the_latest_version_of_the_updater_when_there_is_only_one_available() {
    let bin_url = "http://github.com/repo/updater/releases/0.1.0/windows_x64_releasedbg.zip";
    let sum_url = "http://github.com/repo/updater/releases/0.1.0/windows_x64_releasedbg.zip.sha256";
    let last_release = release(
        "0.1.0",
        false,
        vec![
            entry("windows_x64_releasedbg.zip", 1_000_000, bin_url),
            entry("windows_x64_releasedbg.zip.sha256", 93, sum_url),
        ],
    );
    let checksums = vec![(bin_url.to_string(), body_for("windows_x64_releasedbg.zip"))];

    let latest_releases = get_latest_updater_release(&last_release, &checksums).expect("fail :(");

    assert_eq!(latest_releases.entries.len(), 1);
    let asset = latest_releases.get("windows_x64").expect("windows_x64 missing");
    assert_asset(
        asset,
        "windows_x64_releasedbg.zip",
        1_000_000,
        bin_url,
        (0, 1, 0),
        Some("*sha256-key*"),
    );
}

#[test]
fn retrieve_the_latest_version_of_the_game_when_there_is_only_one_available() {
    let assets_url = "http://github.com/repo/game/releases/0.1.0/assets.zip";
    let bin_url = "http://github.com/repo/game/releases/0.1.0/windows_x64_releasedbg.zip";
    let releases = vec![release(
        "0.1.0",
        false,
        vec![
            entry("assets.zip", 1_000_000, assets_url),
            entry("windows_x64_releasedbg.zip", 1_000_000, bin_url),
        ],
    )];
    let checksums = vec![
        (assets_url.to_string(), body_for("assets.zip")),
        (bin_url.to_string(), body_for("windows_x64_releasedbg.zip")),
    ];

    let latest = get_latest_game_release(&releases, &checksums).expect("fail :(");

    assert_version(&latest.version, 0, 1, 0);
    assert_version(&latest.assets_version, 0, 1, 0);
    assert_asset(&latest.assets, "assets.zip", 1_000_000, assets_url, (0, 1, 0), Some("*sha256-key*"));
    assert!(latest.binaries.get("assets").is_none());
    let windows = latest.binaries.get("windows_x64").expect("windows_x64 missing");
    assert_asset(
        windows,
        "windows_x64_releasedbg.zip",
        1_000_000,
        bin_url,
        (0, 1, 0),
        Some("*sha256-key*"),
    );
}

#[test]
fn retrieve_the_latest_version_of_the_game_during_population_of_the_latest_release() {
    let new_win_url = "http://github.com/repo/game/releases/0.2.0/windows_x64_releasedbg.zip";
    let old_assets_url = "http://github.com/repo/game/releases/0.1.0/assets.zip";
    let old_win_url = "http://github.com/repo/game/releases/0.1.0/windows_x64_releasedbg.zip";
    let old_linux_url = "http://github.com/repo/game/releases/0.1.0/linux_x86_64_releasedbg.zip";
    let releases = vec![
        release("0.2.0", false, vec![entry("windows_x64_releasedbg.zip", 1_000_000, new_win_url)]),
        release(
            "0.1.0",
            false,
            vec![
                entry("assets.zip", 1_000_000, old_assets_url),
                entry("windows_x64_releasedbg.zip", 1_000_000, old_win_url),
                entry("linux_x86_64_releasedbg.zip", 1_000_000, old_linux_url),
            ],
        ),
    ];
    let checksums = vec![
        (new_win_url.to_string(), body_for("windows_x64_releasedbg.zip")),
        (old_assets_url.to_string(), body_for("assets.zip")),
        (old_linux_url.to_string(), body_for("linux_x86_64_releasedbg.zip")),
    ];

    let latest = get_latest_game_release(&releases, &checksums).expect("fail :(");

    assert_version(&latest.version, 0, 2, 0);
    assert_version(&latest.assets_version, 0, 1, 0);
    assert_asset(
        &latest.assets,
        "assets.zip",
        1_000_000,
        old_assets_url,
        (0, 1, 0),
        Some("*sha256-key*"),
    );
    // the windows binary comes from the newest release, untouched by the older one
    let windows = latest.binaries.get("windows_x64").expect("windows_x64 missing");
    assert_asset(
        windows,
        "windows_x64_releasedbg.zip",
        1_000_000,
        new_win_url,
        (0, 2, 0),
        Some("*sha256-key*"),
    );
    // the linux binary is back-filled from the older release
    let linux = latest.binaries.get("linux_x86_64").expect("linux_x86_64 missing");
    assert_asset(
        linux,
        "linux_x86_64_releasedbg.zip",
        1_000_000,
        old_linux_url,
        (0, 1, 0),
        Some("*sha256-key*"),
    );
}

#[test]
fn platform_derivation_strips_extension_and_marker() {
    assert_eq!(remove_game_suffix("windows_x64_releasedbg.zip"), "windows_x64");
    assert_eq!(remove_game_suffix("assets.zip"), "assets");
    assert_eq!(remove_game_suffix("linux_x86_64_releasedbg.zip"), "linux_x86_64");
}

#[test]
fn platform_derivation_strips_only_a_trailing_marker() {
    assert_eq!(remove_game_suffix("a_releasedbg_b.zip"), "a_releasedbg_b");
    assert_eq!(remove_game_suffix("_releasedbg.zip"), "");
    assert_eq!(remove_game_suffix("windows_x64_releasedbg"), "windows_x64");
}

#[test]
fn checksum_response_with_matching_filename_yields_hash() {
    let r = parse_checksum_response("assets.zip", "0123abcd *assets.zip").expect("should parse");
    assert_eq!(r, "0123abcd");
}

#[test]
fn checksum_response_with_other_filename_is_wrong_checksum() {
    let r = parse_checksum_response("assets.zip", "0123abcd *other.zip");
    assert!(matches!(r, Err(InternalError::WrongChecksum)));
}

#[test]
fn checksum_response_without_star_marker_is_wrong_checksum() {
    let r = parse_checksum_response("assets.zip", "0123abcd assets.zip");
    assert!(matches!(r, Err(InternalError::WrongChecksum)));
}

#[test]
fn checksum_response_with_wrong_token_count_reports_count() {
    let r = parse_checksum_response("assets.zip", "0123abcd *assets.zip trailing");
    assert!(matches!(r, Err(InternalError::InvalidSha256(3))));
    let r = parse_checksum_response("assets.zip", "0123abcd");
    assert!(matches!(r, Err(InternalError::InvalidSha256(1))));
    let r = parse_checksum_response("assets.zip", "   ");
    assert!(matches!(r, Err(InternalError::InvalidSha256(0))));
}

#[test]
fn game_release_without_assets_bundle_is_no_release_found() {
    let bin_url = "http://github.com/repo/game/releases/0.1.0/windows_x64_releasedbg.zip";
    let releases = vec![release(
        "0.1.0",
        false,
        vec![entry("windows_x64_releasedbg.zip", 1_000_000, bin_url)],
    )];
    let checksums = vec![(bin_url.to_string(), body_for("windows_x64_releasedbg.zip"))];
    let r = get_latest_game_release(&releases, &checksums);
    assert!(matches!(r, Err(InternalError::NoReleaseFound)));
}

#[test]
fn game_release_with_no_eligible_release_is_no_release_found() {
    let r = get_latest_game_release(&vec![], &vec![]);
    assert!(matches!(r, Err(InternalError::NoReleaseFound)));

    let prerelease_only = vec![release("0.1.0", true, vec![])];
    let r = get_latest_game_release(&prerelease_only, &vec![]);
    assert!(matches!(r, Err(InternalError::NoReleaseFound)));

    let bad_tag_only = vec![release("not-a-version", false, vec![])];
    let r = get_latest_game_release(&bad_tag_only, &vec![]);
    assert!(matches!(r, Err(InternalError::NoReleaseFound)));
}

#[test]
fn transport_failure_leaves_checksum_absent() {
    let assets_url = "http://github.com/repo/game/releases/0.1.0/assets.zip";
    let bin_url = "http://github.com/repo/game/releases/0.1.0/windows_x64_releasedbg.zip";
    let releases = vec![release(
        "0.1.0",
        false,
        vec![
            entry("assets.zip", 1_000_000, assets_url),
            entry("windows_x64_releasedbg.zip", 1_000_000, bin_url),
        ],
    )];
    let checksums = vec![
        (assets_url.to_string(), body_for("assets.zip")),
        (bin_url.to_string(), ChecksumResponse::TransportFailure),
    ];
    let latest = get_latest_game_release(&releases, &checksums).expect("should resolve");
    let windows = latest.binaries.get("windows_x64").expect("windows_x64 missing");
    assert_eq!(windows.sha256, None);
    assert_eq!(latest.assets.sha256.as_deref(), Some("*sha256-key*"));
}

#[test]
fn malformed_checksum_body_aborts_resolution() {
    let assets_url = "http://github.com/repo/game/releases/0.1.0/assets.zip";
    let releases = vec![release("0.1.0", false, vec![entry("assets.zip", 1_000_000, assets_url)])];
    let checksums = vec![(assets_url.to_string(), ChecksumResponse::Body("junk".to_string()))];
    let r = get_latest_game_release(&releases, &checksums);
    assert!(matches!(r, Err(InternalError::InvalidSha256(1))));
}

#[test]
fn updater_release_with_bad_tag_is_invalid_version() {
    let last_release = release("latest", false, vec![]);
    let r = get_latest_updater_release(&last_release, &vec![]);
    assert!(matches!(r, Err(InternalError::InvalidVersion)));
}

#[test]
fn unparsable_tags_are_skipped_not_fatal() {
    let assets_url = "http://github.com/repo/game/releases/0.1.0/assets.zip";
    let releases = vec![
        release("nightly", false, vec![]),
        release("0.1.0", false, vec![entry("assets.zip", 1_000_000, assets_url)]),
    ];
    let checksums = vec![(assets_url.to_string(), body_for("assets.zip"))];
    let latest = get_latest_game_release(&releases, &checksums).expect("should resolve");
    assert_version(&latest.version, 0, 1, 0);
}
