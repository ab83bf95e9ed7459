use gmplayer::source_resolver::{
    classify_ncm_url, join_url, pick_unm_url, plan_resolution, redact, ResolutionPlan, ResolveError,
    ResolveErrorKind, ResolvedSource, SourceOrigin,
};
use gmplayer::types::{NativeManifestEntry, NativeResolverConfig, TrackIdentity};

fn netease_entry(fee: Option<i64>, has_pc: bool) -> NativeManifestEntry {
    NativeManifestEntry {
        identity: TrackIdentity::Netease { id: "123".into() },
        playlist_index: 0,
        title: None,
        artist: None,
        duration_ms: None,
        fee,
        has_pc,
    }
}

fn config(unm_enabled: bool) -> NativeResolverConfig {
    NativeResolverConfig {
        ncm_base_url: Some("https://ncm.example.com/".into()),
        unm_base_url: Some("https://unm.example.com/".into()),
        unm_enabled,
        cookie: Some("MUSIC_U=secret".into()),
        level: Some("exhigh".into()),
    }
}

#[test]
fn vip_and_paid_album_go_straight_to_unm() {
    for fee in [1, 4] {
        assert_eq!(
            plan_resolution(&netease_entry(Some(fee), false), &config(true)),
            ResolutionPlan::UnmOnly,
            "fee={fee} must skip NCM"
        );
    }
}

#[test]
fn cloud_uploaded_tracks_bypass_the_vip_precheck() {
    assert_eq!(
        plan_resolution(&netease_entry(Some(1), true), &config(true)),
        ResolutionPlan::NcmThenUnm { unm_enabled: true },
        "a `pc` track is playable through NCM even when fee=1"
    );
}

#[test]
fn free_tracks_use_the_normal_path() {
    assert_eq!(
        plan_resolution(&netease_entry(Some(0), false), &config(true)),
        ResolutionPlan::NcmThenUnm { unm_enabled: true }
    );
    assert_eq!(
        plan_resolution(&netease_entry(None, false), &config(true)),
        ResolutionPlan::NcmThenUnm { unm_enabled: true }
    );
}

#[test]
fn vip_precheck_is_skipped_when_unm_is_unavailable() {
    assert_eq!(
        plan_resolution(&netease_entry(Some(1), false), &config(false)),
        ResolutionPlan::NcmThenUnm { unm_enabled: false },
        "without UNM there is nothing to pre-empt NCM with"
    );

    let mut cfg = config(true);
    cfg.unm_base_url = Some("   ".into());
    assert_eq!(
        plan_resolution(&netease_entry(Some(1), false), &cfg),
        ResolutionPlan::NcmThenUnm { unm_enabled: false }
    );
}

#[test]
fn local_identities_never_hit_the_network() {
    let entry = NativeManifestEntry {
        identity: TrackIdentity::Local {
            path: "/music/a.flac".into(),
        },
        playlist_index: 3,
        title: None,
        artist: None,
        duration_ms: None,
        fee: Some(1),
        has_pc: false,
    };
    assert_eq!(
        plan_resolution(&entry, &config(true)),
        ResolutionPlan::LocalPath
    );
}

#[test]
fn trial_clips_are_treated_as_no_url() {
    assert_eq!(
        classify_ncm_url(Some("https://m8.music.126.net/jd-musicrep-ts/abc.mp3")),
        None,
        "a preview clip must fall through to UNM"
    );
}

#[test]
fn ncm_urls_are_upgraded_to_https() {
    assert_eq!(
        classify_ncm_url(Some("http://m8.music.126.net/x/abc.mp3")).as_deref(),
        Some("https://m8.music.126.net/x/abc.mp3")
    );
}

#[test]
fn empty_and_missing_ncm_urls_are_rejected() {
    assert_eq!(classify_ncm_url(None), None);
    assert_eq!(classify_ncm_url(Some("")), None);
    assert_eq!(classify_ncm_url(Some("   ")), None);
}

#[test]
fn https_urls_are_left_alone() {
    assert_eq!(
        classify_ncm_url(Some("https://cdn.example.com/a.flac")).as_deref(),
        Some("https://cdn.example.com/a.flac")
    );
}

#[test]
fn kuwo_urls_prefer_the_proxy() {
    assert_eq!(
        pick_unm_url(
            Some("http://sycdn.kuwo.cn/song.mp3"),
            Some("https://proxy.example.com/song.mp3")
        )
        .as_deref(),
        Some("https://proxy.example.com/song.mp3")
    );
}

#[test]
fn kuwo_without_a_proxy_still_returns_the_direct_url() {
    assert_eq!(
        pick_unm_url(Some("http://sycdn.kuwo.cn/song.mp3"), None).as_deref(),
        Some("https://sycdn.kuwo.cn/song.mp3")
    );
    assert_eq!(
        pick_unm_url(Some("http://sycdn.kuwo.cn/song.mp3"), Some("  ")).as_deref(),
        Some("https://sycdn.kuwo.cn/song.mp3"),
        "a blank proxy must not win over the real URL"
    );
}

#[test]
fn non_kuwo_urls_ignore_the_proxy() {
    assert_eq!(
        pick_unm_url(
            Some("https://cdn.qq.com/song.mp3"),
            Some("https://proxy.example.com/song.mp3")
        )
        .as_deref(),
        Some("https://cdn.qq.com/song.mp3")
    );
}

#[test]
fn unm_url_matching_is_case_insensitive() {
    assert_eq!(
        pick_unm_url(
            Some("https://SYCDN.KUWO.CN/song.mp3"),
            Some("https://proxy.example.com/song.mp3")
        )
        .as_deref(),
        Some("https://proxy.example.com/song.mp3")
    );
}

#[test]
fn join_url_tolerates_trailing_and_leading_slashes() {
    for base in [
        "https://api.example.com",
        "https://api.example.com/",
        "  https://api.example.com/  ",
    ] {
        assert_eq!(
            join_url(base, "song/url/v1"),
            "https://api.example.com/song/url/v1",
            "base={base:?}"
        );
    }
    assert_eq!(
        join_url("https://api.example.com/", "/match"),
        "https://api.example.com/match"
    );
}

#[test]
fn local_sources_never_go_stale() {
    let source = ResolvedSource::local(
        TrackIdentity::Local {
            path: "/a.flac".into(),
        },
        "/a.flac".into(),
    );
    assert!(!source.is_stale());
}

#[test]
fn fresh_remote_sources_are_not_stale() {
    let source = ResolvedSource::remote(
        TrackIdentity::Netease { id: "1".into() },
        "https://cdn/x".into(),
        SourceOrigin::Ncm,
    );
    assert!(!source.is_stale());
}

#[test]
fn redact_removes_credential_shaped_tokens() {
    let redacted = redact("failed for MUSIC_U=abc123 with csrf=zzz");
    assert!(!redacted.contains("abc123"), "cookie value leaked");
    assert!(!redacted.contains("zzz"), "csrf value leaked");
    assert!(redacted.contains("[redacted]"));
}

#[test]
fn resolver_config_usability_requires_a_base_url() {
    assert!(config(true).is_usable());

    let mut cfg = config(true);
    cfg.ncm_base_url = None;
    assert!(!cfg.is_usable());

    cfg.ncm_base_url = Some("  ".into());
    assert!(!cfg.is_usable());
}

#[test]
fn error_retryability_matches_classification() {
    assert!(ResolveError::new(ResolveErrorKind::Transient, "x").is_retryable());
    for kind in [
        ResolveErrorKind::Auth,
        ResolveErrorKind::Unavailable,
        ResolveErrorKind::LocalMissing,
        ResolveErrorKind::NotConfigured,
    ] {
        assert!(
            !ResolveError::new(kind, "x").is_retryable(),
            "{kind:?} must not be retried"
        );
    }
}

#[test]
fn redacting_twice_changes_nothing_more() {
    let text = "  request  failed: MUSIC_U=abc\tcsrf_token=1 retry  ";
    let once = redact(text);
    assert_eq!(once, "request failed: [redacted] [redacted] retry");
    assert_eq!(redact(&once), once);
}

#[test]
fn a_remote_source_goes_stale_at_its_lifetime() {
    let remote = ResolvedSource::remote(
        TrackIdentity::Netease { id: "1".into() },
        "https://cdn.example.com/1.mp3".into(),
        SourceOrigin::Ncm,
    );
    assert!(!remote.stale_at(599));
    assert!(remote.stale_at(600));
    let local = ResolvedSource::local(TrackIdentity::Local { path: "/a.flac".into() }, "/a.flac".into());
    assert!(!local.stale_at(u64::MAX));
}
