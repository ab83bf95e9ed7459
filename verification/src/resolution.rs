//! The resolution procedure as a sequence of decisions: which file to look
//! for or which request to send, and what the answer amounts to, including
//! the NCM → UNM fallback. The caller performs each action and hands back
//! what came of it.

use vstd::prelude::*;

use crate::source_resolver::{
    joined_url, join_url, ncm_outcome, ncm_reply_url, ncm_source_from_body, outcome_view, plan_resolution,
    read_reply, reply_body, resolution_plan, unm_outcome, unm_reply_fields, unm_source_from_body,
    HttpReply, HttpRequest, ResolutionPlan, ResolveError, ResolveErrorKind, ResolvedSource, SourceOrigin,
    SourceView,
};
use crate::text::{trim, trimmed};
use crate::types::{NativeManifestEntry, NativeResolverConfig, TrackIdentity};

verus! {

/// A failure as kind and message.
pub type ErrorView = (ResolveErrorKind, Seq<char>);

/// An HTTP GET as character sequences.
pub struct RequestView {
    pub url: Seq<char>,
    pub query: Seq<(Seq<char>, Seq<char>)>,
    pub headers: Seq<(Seq<char>, Seq<char>)>,
}

pub open spec fn request_view(request: HttpRequest) -> RequestView {
    RequestView {
        url: request.url@,
        query: request.query.deep_view(),
        headers: request.headers.deep_view(),
    }
}

/// What the resolution waits for.
pub enum ResolveStage {
    /// NCM's reply; UNM follows a failure when `unm_enabled`.
    Ncm { unm_enabled: bool },
    /// UNM's reply; `ncm_error` is NCM's failure when UNM is the fallback.
    Unm { ncm_error: Option<ResolveError> },
}

pub enum StageView {
    Ncm { unm_enabled: bool },
    Unm { ncm_error: Option<ErrorView> },
}

pub open spec fn stage_view(stage: ResolveStage) -> StageView {
    match stage {
        ResolveStage::Ncm { unm_enabled } => StageView::Ncm { unm_enabled },
        ResolveStage::Unm { ncm_error } => StageView::Unm {
            ncm_error: match ncm_error {
                Some(e) => Some(e@),
                None => None,
            },
        },
    }
}

/// The next thing to do.
pub enum ResolveAction {
    /// Check whether the file at `path` exists, then call `after_local_check`.
    CheckLocalFile { path: String },
    /// Send `request`, then hand the reply to the function for `stage`.
    Send { request: HttpRequest, stage: ResolveStage },
    /// Resolution is over.
    Finish(Result<ResolvedSource, ResolveError>),
}

pub enum ActionView {
    CheckLocalFile { path: Seq<char> },
    Send { request: RequestView, stage: StageView },
    Finish(Result<SourceView, ErrorView>),
}

pub open spec fn action_view(action: ResolveAction) -> ActionView {
    match action {
        ResolveAction::CheckLocalFile { path } => ActionView::CheckLocalFile { path: path@ },
        ResolveAction::Send { request, stage } => ActionView::Send {
            request: request_view(request),
            stage: stage_view(stage),
        },
        ResolveAction::Finish(outcome) => ActionView::Finish(outcome_view(outcome)),
    }
}

/// A configured base URL: present and not blank, trimmed.
pub open spec fn configured(url: Option<String>) -> Option<Seq<char>> {
    match url {
        Some(u) => if trimmed(u@).len() > 0 {
            Some(trimmed(u@))
        } else {
            None
        },
        None => None,
    }
}

fn configured_text(url: &Option<String>) -> (r: Option<&str>)
    ensures
        match configured(*url) {
            Some(t) => r is Some && r->0@ == t,
            None => r is None,
        },
{
    match url {
        Some(u) => {
            let t = trim(u.as_str());
            if t.unicode_len() > 0 {
                Some(t)
            } else {
                None
            }
        },
        None => None,
    }
}

pub open spec fn not_netease() -> ErrorView {
    (ResolveErrorKind::Unavailable, "identity is not a netease track"@)
}

/// The `/song/url/v1` request for an entry.
pub open spec fn ncm_request_spec(entry: NativeManifestEntry, config: NativeResolverConfig) -> Result<RequestView, ErrorView> {
    match configured(config.ncm_base_url) {
        None => Err((ResolveErrorKind::NotConfigured, "no NCM API base URL configured"@)),
        Some(base) => match entry.identity {
            TrackIdentity::Local { .. } => Err(not_netease()),
            TrackIdentity::Netease { id } => Ok(
                RequestView {
                    url: joined_url(base, "song/url/v1"@),
                    query: seq![
                        ("id"@, id@),
                        ("level"@, match config.level {
                            Some(level) => level@,
                            None => "exhigh"@,
                        }),
                    ],
                    headers: seq![("X-Requested-With"@, "XMLHttpRequest"@)] + match configured(config.cookie) {
                        Some(cookie) => seq![("Cookie"@, cookie)],
                        None => Seq::empty(),
                    },
                },
            ),
        },
    }
}

/// The `/match` request for an entry.
pub open spec fn unm_request_spec(entry: NativeManifestEntry, config: NativeResolverConfig) -> Result<RequestView, ErrorView> {
    if !config.unm_enabled {
        Err((ResolveErrorKind::NotConfigured, "UNM fallback is disabled"@))
    } else {
        match configured(config.unm_base_url) {
            None => Err((ResolveErrorKind::NotConfigured, "no UNM base URL configured"@)),
            Some(base) => match entry.identity {
                TrackIdentity::Local { .. } => Err(not_netease()),
                TrackIdentity::Netease { id } => Ok(
                    RequestView {
                        url: joined_url(base, "match"@),
                        query: seq![("id"@, id@), ("server"@, "qq,pyncmd"@)],
                        headers: Seq::empty(),
                    },
                ),
            },
        }
    }
}

fn text_pair(a: &str, b: &str) -> (pair: (String, String))
    ensures
        pair.deep_view() == (a@, b@),
{
    (String::from_str(a), String::from_str(b))
}

/// Build the NCM `/song/url/v1` request for `entry`: the song id, the quality
/// level (`exhigh` unless configured) and, when configured, the cookie.
pub fn ncm_request(entry: &NativeManifestEntry, config: &NativeResolverConfig) -> (request: Result<HttpRequest, ResolveError>)
    ensures
        match (request, ncm_request_spec(*entry, *config)) {
            (Ok(r), Ok(v)) => request_view(r) == v,
            (Err(e), Err(v)) => e@ == v,
            _ => false,
        },
{
    let base = match configured_text(&config.ncm_base_url) {
        Some(b) => b,
        None => return Err(ResolveError::new(ResolveErrorKind::NotConfigured, "no NCM API base URL configured")),
    };
    let song_id = match entry.identity.netease_id() {
        Some(id) => id,
        None => return Err(ResolveError::new(ResolveErrorKind::Unavailable, "identity is not a netease track")),
    };
    let level: &str = match &config.level {
        Some(level) => level.as_str(),
        None => "exhigh",
    };
    let mut query: Vec<(String, String)> = Vec::new();
    query.push(text_pair("id", song_id));
    query.push(text_pair("level", level));
    let mut headers: Vec<(String, String)> = Vec::new();
    headers.push(text_pair("X-Requested-With", "XMLHttpRequest"));
    let ghost fixed = headers.deep_view();
    match configured_text(&config.cookie) {
        Some(cookie) => headers.push(text_pair("Cookie", cookie)),
        None => {},
    }
    let request = HttpRequest { url: join_url(base, "song/url/v1"), query, headers };
    proof {
        let v = ncm_request_spec(*entry, *config)->Ok_0;
        assert(request.query.deep_view() =~= v.query);
        assert(request.headers.deep_view() =~= v.headers);
    }
    Ok(request)
}

/// Build the UNM `/match` request for `entry`.
pub fn unm_request(entry: &NativeManifestEntry, config: &NativeResolverConfig) -> (request: Result<HttpRequest, ResolveError>)
    ensures
        match (request, unm_request_spec(*entry, *config)) {
            (Ok(r), Ok(v)) => request_view(r) == v,
            (Err(e), Err(v)) => e@ == v,
            _ => false,
        },
{
    if !config.unm_enabled {
        return Err(ResolveError::new(ResolveErrorKind::NotConfigured, "UNM fallback is disabled"));
    }
    let base = match configured_text(&config.unm_base_url) {
        Some(b) => b,
        None => return Err(ResolveError::new(ResolveErrorKind::NotConfigured, "no UNM base URL configured")),
    };
    let song_id = match entry.identity.netease_id() {
        Some(id) => id,
        None => return Err(ResolveError::new(ResolveErrorKind::Unavailable, "identity is not a netease track")),
    };
    let mut query: Vec<(String, String)> = Vec::new();
    query.push(text_pair("id", song_id));
    query.push(text_pair("server", "qq,pyncmd"));
    let request = HttpRequest { url: join_url(base, "match"), query, headers: Vec::new() };
    proof {
        let v = unm_request_spec(*entry, *config)->Ok_0;
        assert(request.query.deep_view() =~= v.query);
        assert(request.headers.deep_view() =~= v.headers);
    }
    Ok(request)
}

/// When UNM is the fallback, an auth failure from NCM is the more actionable
/// report; otherwise UNM's failure is.
pub open spec fn reported_error(ncm_error: Option<ErrorView>, unm_error: ErrorView) -> ErrorView {
    match ncm_error {
        Some(e) => if e.0 == ResolveErrorKind::Auth {
            e
        } else {
            unm_error
        },
        None => unm_error,
    }
}

/// Try UNM (with NCM's failure, when it is the fallback).
pub open spec fn unm_attempt_spec(entry: NativeManifestEntry, config: NativeResolverConfig, ncm_error: Option<ErrorView>) -> ActionView {
    match unm_request_spec(entry, config) {
        Ok(request) => ActionView::Send { request, stage: StageView::Unm { ncm_error } },
        Err(e) => ActionView::Finish(Err(reported_error(ncm_error, e))),
    }
}

/// NCM failed with `error`: fall back to UNM when enabled, unless the
/// resolver is not configured at all.
pub open spec fn ncm_failed_spec(entry: NativeManifestEntry, config: NativeResolverConfig, unm_enabled: bool, error: ErrorView) -> ActionView {
    if unm_enabled && error.0 != ResolveErrorKind::NotConfigured {
        unm_attempt_spec(entry, config, Some(error))
    } else {
        ActionView::Finish(Err(error))
    }
}

/// The first action for an entry.
pub open spec fn begin_spec(entry: NativeManifestEntry, config: NativeResolverConfig) -> ActionView {
    match resolution_plan(entry, config) {
        ResolutionPlan::LocalPath => match entry.identity {
            TrackIdentity::Local { path } => ActionView::CheckLocalFile { path: path@ },
            TrackIdentity::Netease { .. } => ActionView::Finish(
                Err((ResolveErrorKind::Unavailable, "local plan for a non-local identity"@)),
            ),
        },
        ResolutionPlan::UnmOnly => unm_attempt_spec(entry, config, None),
        ResolutionPlan::NcmThenUnm { unm_enabled } => match ncm_request_spec(entry, config) {
            Ok(request) => ActionView::Send { request, stage: StageView::Ncm { unm_enabled } },
            Err(e) => ncm_failed_spec(entry, config, unm_enabled, e),
        },
    }
}

/// What an NCM reply leads to.
pub open spec fn after_ncm_spec(entry: NativeManifestEntry, config: NativeResolverConfig, unm_enabled: bool, reply: HttpReply) -> ActionView {
    let outcome = match reply_body(reply) {
        Ok(body) => ncm_outcome(entry.identity, ncm_reply_url(body)),
        Err(e) => Err(e),
    };
    match outcome {
        Ok(source) => ActionView::Finish(Ok(source)),
        Err(e) => ncm_failed_spec(entry, config, unm_enabled, e),
    }
}

/// What a UNM reply amounts to.
pub open spec fn after_unm_spec(entry: NativeManifestEntry, ncm_error: Option<ErrorView>, reply: HttpReply) -> Result<SourceView, ErrorView> {
    let outcome = match reply_body(reply) {
        Ok(body) => unm_outcome(entry.identity, unm_reply_fields(body)),
        Err(e) => Err(e),
    };
    match outcome {
        Ok(source) => Ok(source),
        Err(e) => Err(reported_error(ncm_error, e)),
    }
}

/// What a local-file check amounts to.
pub open spec fn after_local_spec(entry: NativeManifestEntry, exists: bool) -> Result<SourceView, ErrorView> {
    match entry.identity {
        TrackIdentity::Local { path } => if exists {
            Ok(SourceView { identity: entry.identity, uri: path@, origin: SourceOrigin::LocalFile, lifetime: None })
        } else {
            Err((ResolveErrorKind::LocalMissing, "local file no longer exists"@))
        },
        TrackIdentity::Netease { .. } => Err((ResolveErrorKind::Unavailable, "local plan for a non-local identity"@)),
    }
}

/// When UNM is the fallback, an auth failure of NCM is what gets reported,
/// whatever UNM answered; any other NCM failure gives way to UNM's outcome.
pub proof fn lemma_auth_failure_is_reported(entry: NativeManifestEntry, ncm_error: ErrorView, reply: HttpReply)
    ensures
        ncm_error.0 == ResolveErrorKind::Auth ==> (after_unm_spec(entry, Some(ncm_error), reply) is Err
            ==> after_unm_spec(entry, Some(ncm_error), reply) == Err::<SourceView, ErrorView>(ncm_error)),
        ncm_error.0 != ResolveErrorKind::Auth ==> after_unm_spec(entry, Some(ncm_error), reply)
            == after_unm_spec(entry, None, reply),
{
}

/// A failure of the configuration itself never falls back to UNM.
pub proof fn lemma_not_configured_is_final(entry: NativeManifestEntry, config: NativeResolverConfig, unm_enabled: bool, error: ErrorView)
    requires
        error.0 == ResolveErrorKind::NotConfigured,
    ensures
        ncm_failed_spec(entry, config, unm_enabled, error) == ActionView::Finish(Err(error)),
{
}

/// Every NCM failure other than a missing configuration falls back to UNM
/// when UNM is enabled: the next step is the UNM attempt carrying that failure.
pub proof fn lemma_every_ncm_failure_tries_unm(entry: NativeManifestEntry, config: NativeResolverConfig, error: ErrorView)
    requires
        error.0 != ResolveErrorKind::NotConfigured,
    ensures
        ncm_failed_spec(entry, config, true, error) == unm_attempt_spec(entry, config, Some(error)),
{
}

/// With UNM configured, NCM never has the last word on a Netease track:
/// whatever NCM answers (a URL, a trial clip, an error status, a transport
/// failure, an unreadable or malformed body), either it yields a playable NCM
/// source for the track, or the next step is the UNM `/match` request for
/// the same song, carrying NCM's failure.
pub proof fn lemma_ncm_failure_falls_back_to_unm(entry: NativeManifestEntry, config: NativeResolverConfig, reply: HttpReply)
    requires
        config.unm_enabled,
        configured(config.unm_base_url) is Some,
        entry.identity is Netease,
    ensures
        match after_ncm_spec(entry, config, true, reply) {
            ActionView::Finish(Ok(source)) => source.origin == SourceOrigin::Ncm && source.identity
                == entry.identity,
            ActionView::Send { request, stage: StageView::Unm { ncm_error: Some(e) } } => {
                &&& e.0 != ResolveErrorKind::NotConfigured
                &&& request.url == joined_url(configured(config.unm_base_url)->0, "match"@)
                &&& request.query == seq![("id"@, entry.identity->id@), ("server"@, "qq,pyncmd"@)]
                &&& request.headers.len() == 0
            },
            _ => false,
        },
{
}

/// `config` with its cookie replaced by `cookie`.
pub open spec fn with_cookie(config: NativeResolverConfig, cookie: Option<String>) -> NativeResolverConfig {
    NativeResolverConfig { cookie, ..config }
}

/// The two actions are the same but for the headers of a request to send.
pub open spec fn same_but_headers(a: ActionView, b: ActionView) -> bool {
    match (a, b) {
        (ActionView::Send { request: r1, stage: s1 }, ActionView::Send { request: r2, stage: s2 }) => {
            r1.url == r2.url && r1.query == r2.query && s1 == s2
        },
        _ => a == b,
    }
}

/// Resolution does not depend on the cookie: two configurations that differ
/// only in the cookie lead to the same decisions at every step, the same
/// outcomes and the same error messages. The cookie travels only as the
/// `Cookie` header of the NCM request, never in its URL or query.
pub proof fn lemma_cookie_is_only_a_header(
    entry: NativeManifestEntry,
    config: NativeResolverConfig,
    cookie: Option<String>,
    unm_enabled: bool,
    reply: HttpReply,
)
    ensures
        same_but_headers(begin_spec(entry, config), begin_spec(entry, with_cookie(config, cookie))),
        after_ncm_spec(entry, config, unm_enabled, reply) == after_ncm_spec(
            entry,
            with_cookie(config, cookie),
            unm_enabled,
            reply,
        ),
        unm_request_spec(entry, config) == unm_request_spec(entry, with_cookie(config, cookie)),
        match (ncm_request_spec(entry, config), ncm_request_spec(entry, with_cookie(config, cookie))) {
            (Ok(r1), Ok(r2)) => r1.url == r2.url && r1.query == r2.query && r1.headers.take(1)
                == r2.headers.take(1),
            (Err(e1), Err(e2)) => e1 == e2,
            _ => false,
        },
{
    let other = with_cookie(config, cookie);
    assert(resolution_plan(entry, config) == resolution_plan(entry, other));
    if let (Ok(r1), Ok(r2)) = (ncm_request_spec(entry, config), ncm_request_spec(entry, other)) {
        assert(r1.headers.take(1) =~= r2.headers.take(1));
    }
}

fn pick_reported(ncm_error: Option<ResolveError>, unm_error: ResolveError) -> (error: ResolveError)
    ensures
        error@ == reported_error(
            match ncm_error {
                Some(e) => Some(e@),
                None => None,
            },
            unm_error@,
        ),
{
    match ncm_error {
        Some(e) => if e.kind == ResolveErrorKind::Auth {
            e
        } else {
            unm_error
        },
        None => unm_error,
    }
}

fn unm_attempt(entry: &NativeManifestEntry, config: &NativeResolverConfig, ncm_error: Option<ResolveError>) -> (action: ResolveAction)
    ensures
        action_view(action) == unm_attempt_spec(
            *entry,
            *config,
            match ncm_error {
                Some(e) => Some(e@),
                None => None,
            },
        ),
{
    match unm_request(entry, config) {
        Ok(request) => ResolveAction::Send { request, stage: ResolveStage::Unm { ncm_error } },
        Err(e) => ResolveAction::Finish(Err(pick_reported(ncm_error, e))),
    }
}

fn ncm_failed(entry: &NativeManifestEntry, config: &NativeResolverConfig, unm_enabled: bool, error: ResolveError) -> (action: ResolveAction)
    ensures
        action_view(action) == ncm_failed_spec(*entry, *config, unm_enabled, error@),
{
    if unm_enabled && error.kind != ResolveErrorKind::NotConfigured {
        unm_attempt(entry, config, Some(error))
    } else {
        ResolveAction::Finish(Err(error))
    }
}

/// The first action to resolve `entry` to a playable source.
pub fn begin_resolution(entry: &NativeManifestEntry, config: &NativeResolverConfig) -> (action: ResolveAction)
    ensures
        action_view(action) == begin_spec(*entry, *config),
{
    match plan_resolution(entry, config) {
        ResolutionPlan::LocalPath => match &entry.identity {
            TrackIdentity::Local { path } => ResolveAction::CheckLocalFile { path: path.clone() },
            TrackIdentity::Netease { .. } => ResolveAction::Finish(
                Err(ResolveError::new(ResolveErrorKind::Unavailable, "local plan for a non-local identity")),
            ),
        },
        ResolutionPlan::UnmOnly => unm_attempt(entry, config, None),
        ResolutionPlan::NcmThenUnm { unm_enabled } => match ncm_request(entry, config) {
            Ok(request) => ResolveAction::Send { request, stage: ResolveStage::Ncm { unm_enabled } },
            Err(e) => ncm_failed(entry, config, unm_enabled, e),
        },
    }
}

/// The outcome of the local-file check for `entry`.
pub fn after_local_check(entry: &NativeManifestEntry, exists: bool) -> (outcome: Result<ResolvedSource, ResolveError>)
    ensures
        outcome_view(outcome) == after_local_spec(*entry, exists),
{
    match &entry.identity {
        TrackIdentity::Local { path } => if exists {
            Ok(ResolvedSource::local(entry.identity.duplicate(), path.clone()))
        } else {
            Err(ResolveError::new(ResolveErrorKind::LocalMissing, "local file no longer exists"))
        },
        TrackIdentity::Netease { .. } => Err(
            ResolveError::new(ResolveErrorKind::Unavailable, "local plan for a non-local identity"),
        ),
    }
}

/// The action after NCM replied.
pub fn after_ncm(entry: &NativeManifestEntry, config: &NativeResolverConfig, unm_enabled: bool, reply: HttpReply) -> (action: ResolveAction)
    ensures
        action_view(action) == after_ncm_spec(*entry, *config, unm_enabled, reply),
{
    let outcome = match read_reply(reply) {
        Ok(body) => ncm_source_from_body(&entry.identity, body.as_str()),
        Err(e) => Err(e),
    };
    match outcome {
        Ok(source) => ResolveAction::Finish(Ok(source)),
        Err(e) => ncm_failed(entry, config, unm_enabled, e),
    }
}

/// The outcome after UNM replied.
pub fn after_unm(entry: &NativeManifestEntry, ncm_error: Option<ResolveError>, reply: HttpReply) -> (outcome: Result<ResolvedSource, ResolveError>)
    ensures
        outcome_view(outcome) == after_unm_spec(
            *entry,
            match ncm_error {
                Some(e) => Some(e@),
                None => None,
            },
            reply,
        ),
{
    let outcome = match read_reply(reply) {
        Ok(body) => unm_source_from_body(&entry.identity, body.as_str()),
        Err(e) => Err(e),
    };
    match outcome {
        Ok(source) => Ok(source),
        Err(e) => Err(pick_reported(ncm_error, e)),
    }
}

} // verus!
