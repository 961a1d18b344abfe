use shipyard::github::{
    cache_temp_path, classify_status, download_temp_path, parse_rate_limit, rate_limited,
    token_from, valid_reset, EtagCache, Error, ListingStatus, Release, ReleaseAsset,
};

fn s(v: &str) -> Option<String> {
    Some(v.to_string())
}

fn sample_release() -> Release {
    Release {
        tag_name: "9.2.3".to_string(),
        name: s("Ackbar Delta 9.2.3"),
        published_at: s("2026-04-14T13:07:27Z"),
        assets: vec![ReleaseAsset {
            name: "SoH-Ackbar-Delta-Mac.zip".to_string(),
            browser_download_url: "https://example.invalid/mac.zip".to_string(),
            size: 46385648,
        }],
    }
}

#[test]
fn rate_limit_headers_are_parsed() {
    let rl = parse_rate_limit(&s("59"), &s("60"), &s("1713700000"));
    assert_eq!(rl.remaining, Some(59));
    assert_eq!(rl.limit, Some(60));
    assert_eq!(rl.reset_at, Some(1713700000));
}

#[test]
fn malformed_rate_limit_headers_are_dropped() {
    let rl = parse_rate_limit(&s("lots"), &None, &s("-"));
    assert_eq!(rl.remaining, None);
    assert_eq!(rl.limit, None);
    assert_eq!(rl.reset_at, None);
    assert_eq!(valid_reset(Some(i64::MAX)), None);
    assert_eq!(valid_reset(Some(0)), Some(0));
    assert_eq!(valid_reset(Some(8210266876799)), Some(8210266876799));
    assert_eq!(valid_reset(Some(8210266876800)), None);
    assert_eq!(valid_reset(Some(-8334601228800)), Some(-8334601228800));
    assert_eq!(valid_reset(Some(-8334601228801)), None);
    assert_eq!(valid_reset(Some(i64::MIN)), None);
}

#[test]
fn listing_statuses_are_classified() {
    assert_eq!(classify_status(200), ListingStatus::Fresh);
    assert_eq!(classify_status(304), ListingStatus::NotModified);
    assert_eq!(classify_status(403), ListingStatus::RateLimited);
    assert_eq!(classify_status(429), ListingStatus::RateLimited);
    assert_eq!(classify_status(500), ListingStatus::Unexpected);
    assert_eq!(classify_status(404), ListingStatus::Unexpected);
}

#[test]
fn rate_limited_error_carries_the_reset_time() {
    let rl = parse_rate_limit(&s("0"), &s("60"), &s("1713700000"));
    assert_eq!(rate_limited(&rl), Error::RateLimited { reset_at: Some(1713700000) });
}

#[test]
fn not_modified_listing_uses_the_recorded_releases() {
    let mut cache = EtagCache::new();
    assert_eq!(cache.etag_for("foo/bar"), None);
    assert!(cache.releases_for("foo/bar").is_empty());
    cache.record("foo/bar", "\"abc123\"".to_string(), vec![sample_release()]);
    assert_eq!(cache.etag_for("foo/bar"), s("\"abc123\""));
    assert_eq!(cache.releases_for("foo/bar"), vec![sample_release()]);
    assert_eq!(cache.etag_for("other/repo"), None);
}

#[test]
fn temp_files_sit_beside_their_targets() {
    assert_eq!(download_temp_path("/dl/thing.zip"), "/dl/thing.shipyard-partial");
    assert_eq!(cache_temp_path("/cache/etags.json"), "/cache/etags.json.tmp");
}

#[test]
fn empty_token_counts_as_unset() {
    assert_eq!(token_from(s("")), None);
    assert_eq!(token_from(s("ghp_x")), s("ghp_x"));
    assert_eq!(token_from(None), None);
}
