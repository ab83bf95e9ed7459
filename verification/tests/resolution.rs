use gmplayer::resolution::{
    after_local_check, after_ncm, after_unm, begin_resolution, ncm_request, unm_request, ResolveAction,
    ResolveStage,
};
use gmplayer::source_resolver::{
    classify_status, ncm_source_from_body, read_reply, redact, stale_after, unm_source_from_body,
    upgrade_to_https, HttpReply, ResolveError, ResolveErrorKind, ResolvedSource, SourceOrigin,
};
use gmplayer::types::{NativeManifestEntry, NativeResolverConfig, TrackIdentity};

fn song(id: &str, fee: Option<i64>) -> NativeManifestEntry {
    NativeManifestEntry {
        identity: TrackIdentity::Netease { id: id.into() },
        playlist_index: 0,
        title: None,
        artist: None,
        duration_ms: None,
        fee,
        has_pc: false,
    }
}

fn local(path: &str) -> NativeManifestEntry {
    NativeManifestEntry {
        identity: TrackIdentity::Local { path: path.into() },
        playlist_index: 0,
        title: None,
        artist: None,
        duration_ms: None,
        fee: None,
        has_pc: false,
    }
}

fn config(unm_enabled: bool) -> NativeResolverConfig {
    NativeResolverConfig {
        ncm_base_url: Some(" https://ncm.example.com/ ".into()),
        unm_base_url: Some("https://unm.example.com".into()),
        unm_enabled,
        cookie: Some("MUSIC_U=secret".into()),
        level: None,
    }
}

fn pairs(items: &[(&str, &str)]) -> Vec<(String, String)> {
    items.iter().map(|(a, b)| (a.to_string(), b.to_string())).collect()
}

#[test]
fn ncm_request_carries_id_level_and_cookie() {
    let request = ncm_request(&song("77", None), &config(true)).unwrap();
    assert_eq!(request.url, "https://ncm.example.com/song/url/v1");
    assert_eq!(request.query, pairs(&[("id", "77"), ("level", "exhigh")]));
    assert_eq!(
        request.headers,
        pairs(&[("X-Requested-With", "XMLHttpRequest"), ("Cookie", "MUSIC_U=secret")])
    );

    let mut cfg = config(true);
    cfg.cookie = Some("   ".into());
    cfg.level = Some("lossless".into());
    let request = ncm_request(&song("77", None), &cfg).unwrap();
    assert_eq!(request.query, pairs(&[("id", "77"), ("level", "lossless")]));
    assert_eq!(request.headers, pairs(&[("X-Requested-With", "XMLHttpRequest")]));
}

#[test]
fn requests_need_a_base_url_and_a_netease_track() {
    let mut cfg = config(true);
    cfg.ncm_base_url = None;
    let err = ncm_request(&song("1", None), &cfg).unwrap_err();
    assert_eq!(err.kind, ResolveErrorKind::NotConfigured);
    let err = ncm_request(&local("/a.flac"), &config(true)).unwrap_err();
    assert_eq!(err.kind, ResolveErrorKind::Unavailable);
    let err = unm_request(&song("1", None), &config(false)).unwrap_err();
    assert_eq!(err.message, "UNM fallback is disabled");
    let request = unm_request(&song("5", None), &config(true)).unwrap();
    assert_eq!(request.url, "https://unm.example.com/match");
    assert_eq!(request.query, pairs(&[("id", "5"), ("server", "qq,pyncmd")]));
    assert!(request.headers.is_empty());
}

#[test]
fn local_tracks_are_checked_on_disk() {
    match begin_resolution(&local("/music/a.flac"), &config(true)) {
        ResolveAction::CheckLocalFile { path } => assert_eq!(path, "/music/a.flac"),
        _ => panic!("a local track must be looked for on disk"),
    }
    let found = after_local_check(&local("/music/a.flac"), true).unwrap();
    assert_eq!(found.uri, "/music/a.flac");
    assert_eq!(found.origin, SourceOrigin::LocalFile);
    assert!(!found.is_stale());
    let missing = after_local_check(&local("/music/a.flac"), false).unwrap_err();
    assert_eq!(missing.kind, ResolveErrorKind::LocalMissing);
}

#[test]
fn vip_tracks_start_with_unm() {
    match begin_resolution(&song("9", Some(1)), &config(true)) {
        ResolveAction::Send { request, stage: ResolveStage::Unm { ncm_error: None } } => {
            assert_eq!(request.url, "https://unm.example.com/match")
        }
        _ => panic!("a VIP track must go to UNM first"),
    }
}

#[test]
fn ncm_success_finishes_with_an_https_source() {
    let body = r#"{"data":[{"url":"http://m8.music.126.net/a.mp3"}]}"#;
    match after_ncm(&song("3", None), &config(true), true, HttpReply::Body(body.into())) {
        ResolveAction::Finish(Ok(source)) => {
            assert_eq!(source.uri, "https://m8.music.126.net/a.mp3");
            assert_eq!(source.origin, SourceOrigin::Ncm);
            assert_eq!(source.identity.key(), "netease:3");
        }
        _ => panic!("a playable NCM answer must finish"),
    }
}

#[test]
fn ncm_failure_falls_back_to_unm() {
    let body = r#"{"data":[{"url":null}]}"#;
    match after_ncm(&song("3", None), &config(true), true, HttpReply::Body(body.into())) {
        ResolveAction::Send { request, stage: ResolveStage::Unm { ncm_error: Some(err) } } => {
            assert_eq!(request.url, "https://unm.example.com/match");
            assert_eq!(err.kind, ResolveErrorKind::Unavailable);
        }
        _ => panic!("an empty NCM answer must fall back to UNM"),
    }
    match after_ncm(&song("3", None), &config(false), false, HttpReply::Status(404)) {
        ResolveAction::Finish(Err(err)) => {
            assert_eq!(err.kind, ResolveErrorKind::Unavailable);
            assert_eq!(err.message, "HTTP 404");
        }
        _ => panic!("without UNM an NCM failure is final"),
    }
}

#[test]
fn an_auth_failure_is_reported_over_unms() {
    let auth = ResolveError::new(ResolveErrorKind::Auth, "HTTP 401");
    let err = after_unm(&song("3", None), Some(auth), HttpReply::Transport).unwrap_err();
    assert_eq!(err.kind, ResolveErrorKind::Auth);
    let other = ResolveError::new(ResolveErrorKind::Unavailable, "NCM returned no playable URL");
    let err = after_unm(&song("3", None), Some(other), HttpReply::Transport).unwrap_err();
    assert_eq!(err.kind, ResolveErrorKind::Transient);
    assert_eq!(err.message, "transport error");
}

#[test]
fn unm_answers_are_read_from_json() {
    let id = TrackIdentity::Netease { id: "8".into() };
    let body = r#"{"code":200,"data":{"url":"http://sycdn.kuwo.cn/s.mp3","proxyUrl":"https://p.example.com/s.mp3"}}"#;
    let source = unm_source_from_body(&id, body).unwrap();
    assert_eq!(source.uri, "https://p.example.com/s.mp3");
    assert_eq!(source.origin, SourceOrigin::Unm);

    let body = r#"{"code":404,"data":{"url":"https://cdn/s.mp3"}}"#;
    assert_eq!(
        unm_source_from_body(&id, body).unwrap_err().message,
        "UNM reported no match"
    );
    let err = unm_source_from_body(&id, "not json").unwrap_err();
    assert_eq!(err.kind, ResolveErrorKind::Transient);
    assert_eq!(err.message, "malformed UNM JSON");
}

#[test]
fn ncm_answers_are_read_from_json() {
    let id = TrackIdentity::Netease { id: "8".into() };
    let source = ncm_source_from_body(&id, r#"{"data":[{"url":" https://cdn/x.flac "}]}"#).unwrap();
    assert_eq!(source.uri, "https://cdn/x.flac");
    let err = ncm_source_from_body(&id, "{").unwrap_err();
    assert_eq!(err.message, "malformed NCM JSON");
    let err = ncm_source_from_body(&id, r#"{"data":{"0":{"url":"https://cdn/x"}}}"#).unwrap_err();
    assert_eq!(err.message, "NCM returned no playable URL");
}

#[test]
fn replies_map_to_bodies_or_errors() {
    assert_eq!(read_reply(HttpReply::Body("ok".into())).unwrap(), "ok");
    let err = read_reply(HttpReply::BodyUnreadable).unwrap_err();
    assert_eq!(err.kind, ResolveErrorKind::Transient);
    let err = read_reply(HttpReply::Status(403)).unwrap_err();
    assert_eq!((err.kind, err.message.as_str()), (ResolveErrorKind::Auth, "HTTP 403"));
    let err = read_reply(HttpReply::Status(503)).unwrap_err();
    assert_eq!((err.kind, err.message.as_str()), (ResolveErrorKind::Transient, "HTTP 503"));
    assert_eq!(classify_status(410), ResolveErrorKind::Unavailable);
    assert_eq!(classify_status(401), ResolveErrorKind::Auth);
    assert_eq!(classify_status(500), ResolveErrorKind::Transient);
}

#[test]
fn redaction_is_exact() {
    assert_eq!(
        redact("failed for MUSIC_U=abc123 with csrf=zzz"),
        "failed for [redacted] with [redacted]"
    );
    assert_eq!(redact("  a \t Cookie:x\n token b  "), "a [redacted] [redacted] b");
    assert_eq!(redact("   "), "");
}

#[test]
fn upgrade_only_touches_plain_http() {
    assert_eq!(upgrade_to_https("http://a/b"), "https://a/b");
    assert_eq!(upgrade_to_https("https://a/b"), "https://a/b");
    assert_eq!(upgrade_to_https("ftp://a"), "ftp://a");
}

#[test]
fn errors_display_kind_and_message() {
    let err = ResolveError::new(ResolveErrorKind::NotConfigured, "no NCM API base URL configured");
    assert_eq!(err.to_text(), "NotConfigured: no NCM API base URL configured");
}

#[test]
fn staleness_is_elapsed_against_lifetime() {
    assert!(stale_after(600, 600));
    assert!(!stale_after(600, 599));
    let source = ResolvedSource::remote(
        TrackIdentity::Netease { id: "1".into() },
        "https://cdn/x".into(),
        SourceOrigin::Unm,
    );
    assert_eq!(source.duplicate().uri, "https://cdn/x");
}

#[test]
fn the_cookie_changes_only_the_ncm_header() {
    let entry = song("9", None);
    let with = config(true);
    let mut without = config(true);
    without.cookie = None;
    match (begin_resolution(&entry, &with), begin_resolution(&entry, &without)) {
        (
            ResolveAction::Send { request: a, stage: ResolveStage::Ncm { unm_enabled: ua } },
            ResolveAction::Send { request: b, stage: ResolveStage::Ncm { unm_enabled: ub } },
        ) => {
            assert_eq!(a.url, b.url);
            assert_eq!(a.query, b.query);
            assert_eq!(ua, ub);
            assert!(!a.url.contains("secret"));
            assert!(a.query.iter().all(|(_, v)| !v.contains("secret")));
        }
        _ => panic!("both configurations ask NCM first"),
    }
    let reply = HttpReply::Status(401);
    let outcome = |cfg: &NativeResolverConfig| match after_ncm(&entry, cfg, true, reply.clone()) {
        ResolveAction::Send { request, .. } => format!("send {} {:?}", request.url, request.query),
        ResolveAction::Finish(Err(e)) => format!("error {:?} {}", e.kind, e.message),
        ResolveAction::Finish(Ok(s)) => format!("ok {}", s.uri),
        ResolveAction::CheckLocalFile { path } => format!("file {path}"),
    };
    assert_eq!(outcome(&with), outcome(&without));
}
