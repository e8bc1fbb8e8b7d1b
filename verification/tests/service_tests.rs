use tsom_api::errors::{ErrorCause, ErrorCode, PlatformError, RequestError, RouteError};
use tsom_api::fetcher::{get_latest_game_release, ChecksumResponse};
use tsom_api::game_data::{Asset, AssetEntry, Assets, ReleaseEntry, Repo, Version};
use tsom_api::metaprog::type_eq;
use tsom_api::players::{validate_token_shape, validated_nickname};
use tsom_api::release_cache::{CacheKey, CachedReleased, ReleaseCache};
use tsom_api::version::{build_game_version, version_to_string};

fn asset(name: &str, version: (u64, u64, u64)) -> Asset {
    Asset {
        size: 42,
        name: name.to_string(),
        version: Version::new(version.0, version.1, version.2),
        download_url: format!("http://example.com/{name}"),
        sha256: None,
    }
}

fn singleton_assets(platform: &str, a: Asset) -> Assets {
    let mut m = Assets::new();
    m.insert(platform.to_string(), a);
    m
}

#[test]
fn test_type_eq() {
    assert!(type_eq::<String, String>());
    assert!(!type_eq::<&str, String>());
    assert!(!type_eq::<String, i32>());
}

#[test]
fn error_codes_have_stable_wire_text() {
    assert_eq!(ErrorCode::FetchUpdaterRelease.as_str(), "fetch_updater_release");
    assert_eq!(ErrorCode::FetchGameRelease.as_str(), "fetch_game_release");
    assert_eq!(ErrorCode::NicknameEmpty.as_str(), "nickname_empty");
    assert_eq!(ErrorCode::NicknameToolong.as_str(), "nickname_toolong");
    assert_eq!(
        ErrorCode::NicknameForbiddenCharacters.as_str(),
        "nickname_forbidden_characters"
    );
    assert_eq!(ErrorCode::AuthenticationInvalidToken.as_str(), "authentication_invalid_token");
    assert_eq!(ErrorCode::EmptyToken.as_str(), "empty_token");
    assert_eq!(ErrorCode::TokenGenerationFailed.as_str(), "token_generation_failed");
    assert_eq!(ErrorCode::External("boom".to_string()).as_str(), "boom");
    assert_eq!(ErrorCode::Internal.as_str(), "internal");
}

#[test]
fn server_errors_are_downgraded_before_clients_see_them() {
    let hidden = ErrorCode::External("connection refused".to_string()).client_body();
    assert_eq!(hidden.err_code.as_str(), "internal");
    assert_eq!(hidden.err_desc, "an internal error occured, please retry later.");

    let hidden = ErrorCode::Internal.client_body();
    assert_eq!(hidden.err_code.as_str(), "internal");
    assert_eq!(hidden.err_desc, "an internal error occured, please retry later.");

    let shown = ErrorCode::FetchGameRelease.client_body();
    assert_eq!(shown.err_code.as_str(), "fetch_game_release");
    assert_eq!(shown.err_desc, "fetch_game_release");
}

#[test]
fn route_errors_map_to_status_codes() {
    let server = RouteError::ServerError(ErrorCause::Internal, ErrorCode::Internal);
    assert_eq!(server.status_code(), 500);
    let invalid = RouteError::InvalidRequest(RequestError::new(
        ErrorCode::NicknameEmpty,
        "empty".to_string(),
    ));
    assert_eq!(invalid.status_code(), 400);
    let not_found = RouteError::NotFoundPlatform(PlatformError::new("missing".to_string()));
    assert_eq!(not_found.status_code(), 404);
}

#[test]
fn nickname_validation_rejects_empty_long_and_forbidden() {
    let r = validated_nickname("", 16, false);
    assert!(matches!(
        r,
        Err(RouteError::InvalidRequest(ref e)) if matches!(e.err_code, ErrorCode::NicknameEmpty)
    ));
    let r = validated_nickname("   ", 16, false);
    assert!(matches!(
        r,
        Err(RouteError::InvalidRequest(ref e)) if matches!(e.err_code, ErrorCode::NicknameEmpty)
    ));
    let r = validated_nickname("a_very_long_nickname", 16, false);
    assert!(matches!(
        r,
        Err(RouteError::InvalidRequest(ref e)) if matches!(e.err_code, ErrorCode::NicknameToolong)
    ));
    let r = validated_nickname("bad!name", 16, false);
    assert!(matches!(
        r,
        Err(RouteError::InvalidRequest(ref e))
            if matches!(e.err_code, ErrorCode::NicknameForbiddenCharacters)
    ));
    let r = validated_nickname("héllo", 16, false);
    assert!(matches!(
        r,
        Err(RouteError::InvalidRequest(ref e))
            if matches!(e.err_code, ErrorCode::NicknameForbiddenCharacters)
    ));
    assert_eq!(validated_nickname("  player_1 ", 16, false).unwrap(), "player_1");
    assert_eq!(validated_nickname("héllo", 16, true).unwrap(), "héllo");
}

#[test]
fn token_shape_rejects_empty_and_oversized() {
    let r = validate_token_shape("");
    assert!(matches!(
        r,
        Err(RouteError::InvalidRequest(ref e)) if matches!(e.err_code, ErrorCode::EmptyToken)
    ));
    let long = "x".repeat(65);
    let r = validate_token_shape(&long);
    assert!(matches!(
        r,
        Err(RouteError::InvalidRequest(ref e))
            if matches!(e.err_code, ErrorCode::AuthenticationInvalidToken)
    ));
    assert!(validate_token_shape(&"x".repeat(64)).is_ok());
    assert!(validate_token_shape("sometoken").is_ok());
}

#[test]
fn cache_serves_stored_value_within_lifespan() {
    let mut cache = ReleaseCache::new(300);
    assert!(cache.lookup(CacheKey::LatestUpdaterRelease, 1_000).is_none());

    let stored = singleton_assets("windows_x64", asset("windows_x64_releasedbg.zip", (0, 1, 0)));
    cache.store(CacheKey::LatestUpdaterRelease, CachedReleased::Updater(stored), 1_000);

    // both callers inside the window observe the same cached value
    for now in [1_000, 1_150, 1_299] {
        match cache.lookup(CacheKey::LatestUpdaterRelease, now) {
            Some(CachedReleased::Updater(a)) => {
                assert_eq!(a.get("windows_x64").unwrap().name, "windows_x64_releasedbg.zip");
            }
            _ => panic!("expected the stored updater entry at {now}"),
        }
    }
    // the window is exclusive at store time + lifespan
    assert!(cache.lookup(CacheKey::LatestUpdaterRelease, 1_300).is_none());
    // the other key is independent
    assert!(cache.lookup(CacheKey::LatestGameRelease, 1_000).is_none());
}

#[test]
fn failed_fetch_leaves_prior_entry_intact() {
    let mut cache = ReleaseCache::new(300);
    let stored = singleton_assets("windows_x64", asset("windows_x64_releasedbg.zip", (0, 1, 0)));
    cache.store(CacheKey::LatestUpdaterRelease, CachedReleased::Updater(stored), 1_000);

    // a failed fetch stores nothing and hands the failure back; the cache
    // still serves the old value
    let r = cache.record_fetch(
        CacheKey::LatestUpdaterRelease,
        Err::<CachedReleased, &str>("producer failed"),
        1_100,
    );
    assert_eq!(r, Err("producer failed"));
    assert!(cache.lookup(CacheKey::LatestUpdaterRelease, 1_100).is_some());

    // a successful refresh replaces the entry and restarts the window
    let refreshed = singleton_assets("windows_x64", asset("windows_x64_releasedbg.zip", (0, 2, 0)));
    let r = cache.record_fetch(
        CacheKey::LatestUpdaterRelease,
        Ok::<CachedReleased, &str>(CachedReleased::Updater(refreshed)),
        1_400,
    );
    assert_eq!(r, Ok(()));
    match cache.lookup(CacheKey::LatestUpdaterRelease, 1_500) {
        Some(CachedReleased::Updater(a)) => {
            assert_eq!(a.get("windows_x64").unwrap().version.minor, 2);
        }
        _ => panic!("expected the refreshed entry"),
    }
}

#[test]
fn version_text_matches_semantic_version_layout() {
    assert_eq!(version_to_string(&Version::new(1, 2, 3)), "1.2.3");
    assert_eq!(version_to_string(&Version::new(0, 10, 0)), "0.10.0");
    let v = Version {
        major: 1,
        minor: 0,
        patch: 0,
        pre: "rc1".to_string(),
        build: "5".to_string(),
    };
    assert_eq!(version_to_string(&v), "1.0.0-rc1+5");
}

#[test]
fn game_version_route_picks_platform_assets() {
    let assets_url = "http://github.com/repo/game/releases/0.1.0/assets.zip";
    let bin_url = "http://github.com/repo/game/releases/0.1.0/windows_x64_releasedbg.zip";
    let releases = vec![ReleaseEntry {
        tag_name: "0.1.0".to_string(),
        prerelease: false,
        assets: vec![
            AssetEntry { name: "assets.zip".to_string(), size: 1, download_url: assets_url.to_string() },
            AssetEntry {
                name: "windows_x64_releasedbg.zip".to_string(),
                size: 2,
                download_url: bin_url.to_string(),
            },
        ],
    }];
    let checksums: Vec<(String, ChecksumResponse)> = vec![];
    let game = get_latest_game_release(&releases, &checksums).expect("resolves");
    let updater = singleton_assets(
        "windows_x64_this_updater_of_mine",
        asset("windows_x64_releasedbg.zip", (0, 1, 0)),
    );

    let gv = build_game_version(&game, &updater, "windows_x64", "this_updater_of_mine")
        .expect("platform known on both sides");
    assert_eq!(gv.version, "0.1.0");
    assert_eq!(gv.assets_version, "0.1.0");
    assert_eq!(gv.assets.name, "assets.zip");
    assert_eq!(gv.binaries.name, "windows_x64_releasedbg.zip");
    assert_eq!(gv.updater.name, "windows_x64_releasedbg.zip");

    let r = build_game_version(&game, &updater, "linux_x86_64", "this_updater_of_mine");
    assert!(matches!(r, Err(RouteError::NotFoundPlatform(_))));
}

#[test]
fn assets_map_shadows_and_removes_entries() {
    let mut m = Assets::new();
    m.insert("windows_x64".to_string(), asset("one.zip", (0, 1, 0)));
    m.insert("windows_x64".to_string(), asset("two.zip", (0, 2, 0)));
    assert!(m.contains_key("windows_x64"));
    assert_eq!(m.get("windows_x64").unwrap().name, "two.zip");

    let removed = m.remove("windows_x64").expect("entry present");
    assert_eq!(removed.name, "two.zip");
    assert!(!m.contains_key("windows_x64"));
    assert!(m.remove("windows_x64").is_none());
}

#[test]
fn repo_keeps_owner_and_repository() {
    let repo = Repo::new("DigitalpulseSoftware", "ThisSpaceOfMine");
    assert_eq!(repo.owner(), "DigitalpulseSoftware");
    assert_eq!(repo.repository(), "ThisSpaceOfMine");
}
