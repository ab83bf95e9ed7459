//! Just-in-time playback source resolution policy.
//!
//! The fallback policy: quality level selection, the VIP pre-check
//! (`fee == 1 || fee == 4`, not cloud-uploaded) that goes straight to UNM,
//! trial-clip detection (`jd-musicrep-ts` in the URL) treated as no URL, UNM
//! as fallback when NCM yields nothing, and the kuwo.cn proxy preference.
//!
//! Network and disk access are not done here: the `resolution` module says
//! which request to send or which file to look for, and takes back what came
//! of it.
//! The cookie only ever goes into a request header.

use vstd::prelude::*;

use crate::text::{
    contains, contains_ascii_folded, contains_text, has_prefix, ascii_lower, is_blank, is_white_space, lower_text, occurs_at, skip_white,
    skip_white_from, starts_with, trim, trimmed, word_end, word_end_from, lemma_skip_white,
    lemma_word_end,
};
use crate::types::{NativeManifestEntry, NativeResolverConfig, TrackIdentity};

verus! {

/// Assumed lifetime of a resolved Netease CDN URL, in seconds. Their links
/// are typically valid for about twenty minutes; ten leaves a safety margin
/// for a one-ahead source prepared now.
pub const ASSUMED_URL_TTL_SECS: u64 = 600;

/// Connection budget per network attempt, in seconds.
pub const CONNECT_TIMEOUT_SECS: u64 = 10;

/// Read budget per network attempt, in seconds.
pub const READ_TIMEOUT_SECS: u64 = 15;

#[verifier::external_type_specification]
#[verifier::external_body]
pub struct ExInstant(std::time::Instant);

/// `Instant::now`: a reading of the monotonic clock; nothing is promised of it.
#[verifier::external_body]
fn instant_now() -> std::time::Instant {
    std::time::Instant::now()
}

/// `Instant::elapsed`: the time since `instant` by the monotonic clock;
/// nothing is promised of it.
#[verifier::external_body]
fn elapsed_since(instant: &std::time::Instant) -> std::time::Duration {
    instant.elapsed()
}

/// `Duration::as_secs`: the whole seconds of a duration. Only applied to clock
/// readings here, so nothing is promised of the value.
#[verifier::external_body]
fn whole_seconds(duration: &std::time::Duration) -> u64 {
    duration.as_secs()
}

/// Where a resolved URL came from.
#[derive(Debug, Clone, Copy, PartialEq, Eq, Structural)]
pub enum SourceOrigin {
    Ncm,
    Unm,
    LocalFile,
}

/// A playable source for a track.
#[derive(Debug)]
pub struct ResolvedSource {
    pub identity: TrackIdentity,
    pub uri: String,
    pub origin: SourceOrigin,
    resolved_at: std::time::Instant,
    /// Lifetime in seconds; a local path has none.
    ttl_secs: Option<u64>,
}

/// What a resolved source is, leaving out when it was resolved.
pub struct SourceView {
    pub identity: TrackIdentity,
    pub uri: Seq<char>,
    pub origin: SourceOrigin,
    /// Assumed lifetime in seconds, `None` for a source that never expires.
    pub lifetime: Option<u64>,
}

impl View for ResolvedSource {
    type V = SourceView;

    closed spec fn view(&self) -> SourceView {
        SourceView {
            identity: self.identity,
            uri: self.uri@,
            origin: self.origin,
            lifetime: self.ttl_secs,
        }
    }
}

/// Whether a source with lifetime `ttl_secs` is stale `elapsed_secs` after
/// it was resolved.
pub fn stale_after(ttl_secs: u64, elapsed_secs: u64) -> (stale: bool)
    ensures
        stale == (elapsed_secs >= ttl_secs),
{
    elapsed_secs >= ttl_secs
}

impl ResolvedSource {
    /// A file on disk: it does not expire.
    pub fn local(identity: TrackIdentity, path: String) -> (source: ResolvedSource)
        ensures
            source@ == (SourceView { identity, uri: path@, origin: SourceOrigin::LocalFile, lifetime: None }),
    {
        ResolvedSource {
            identity,
            uri: path,
            origin: SourceOrigin::LocalFile,
            resolved_at: instant_now(),
            ttl_secs: None,
        }
    }

    /// A remote URL, assumed good for `ASSUMED_URL_TTL_SECS` from now.
    pub fn remote(identity: TrackIdentity, uri: String, origin: SourceOrigin) -> (source: ResolvedSource)
        ensures
            source@ == (SourceView { identity, uri: uri@, origin, lifetime: Some(ASSUMED_URL_TTL_SECS) }),
    {
        ResolvedSource {
            identity,
            uri,
            origin,
            resolved_at: instant_now(),
            ttl_secs: Some(ASSUMED_URL_TTL_SECS),
        }
    }

    /// Whether the source is past its assumed lifetime. A source without a
    /// lifetime is never stale; otherwise it depends on the clock.
    pub fn is_stale(&self) -> (stale: bool)
        ensures
            self@.lifetime is None ==> !stale,
    {
        self.stale_at(self.elapsed_secs())
    }

    /// Whole seconds since the source was resolved, by the monotonic clock.
    /// Depends on the clock, so nothing is promised of the value.
    pub fn elapsed_secs(&self) -> u64 {
        whole_seconds(&elapsed_since(&self.resolved_at))
    }

    /// Whether the source is stale `elapsed_secs` after it was resolved: a
    /// source with a lifetime is once that many seconds have passed, one
    /// without never is.
    pub fn stale_at(&self, elapsed_secs: u64) -> (stale: bool)
        ensures
            stale == match self@.lifetime {
                Some(ttl) => elapsed_secs >= ttl,
                None => false,
            },
    {
        match self.ttl_secs {
            Some(ttl) => stale_after(ttl, elapsed_secs),
            None => false,
        }
    }

    /// The identity of the track this source plays.
    pub fn track(&self) -> (identity: &TrackIdentity)
        ensures
            *identity == self@.identity,
    {
        &self.identity
    }

    /// A copy that verified code knows to describe the same source.
    pub fn duplicate(&self) -> (copy: ResolvedSource)
        ensures
            copy@ == self@,
    {
        ResolvedSource {
            identity: self.identity.duplicate(),
            uri: self.uri.clone(),
            origin: self.origin,
            resolved_at: self.resolved_at,
            ttl_secs: self.ttl_secs,
        }
    }
}

/// Classification of a resolve failure, used by the planner's bounded
/// skip/retry policy.
#[derive(Debug, Clone, Copy, PartialEq, Eq, Structural)]
pub enum ResolveErrorKind {
    /// Network, 5xx or timeout: worth a retry.
    Transient,
    /// 401/403: credentials rejected.
    Auth,
    /// Resolved to nothing playable (region-locked, taken down, trial only).
    Unavailable,
    /// The local file is gone.
    LocalMissing,
    /// The resolver is not configured.
    NotConfigured,
}

/// A resolve failure; the message is safe to log and to show.
#[derive(Debug, Clone)]
pub struct ResolveError {
    pub kind: ResolveErrorKind,
    pub message: String,
}

impl View for ResolveError {
    type V = (ResolveErrorKind, Seq<char>);

    open spec fn view(&self) -> (ResolveErrorKind, Seq<char>) {
        (self.kind, self.message@)
    }
}

/// The name of an error kind, as its variant is spelled.
pub open spec fn kind_name(kind: ResolveErrorKind) -> Seq<char> {
    match kind {
        ResolveErrorKind::Transient => "Transient"@,
        ResolveErrorKind::Auth => "Auth"@,
        ResolveErrorKind::Unavailable => "Unavailable"@,
        ResolveErrorKind::LocalMissing => "LocalMissing"@,
        ResolveErrorKind::NotConfigured => "NotConfigured"@,
    }
}

impl ResolveError {
    pub fn new(kind: ResolveErrorKind, message: &str) -> (error: ResolveError)
        ensures
            error@ == (kind, message@),
    {
        ResolveError { kind, message: String::from_str(message) }
    }

    /// Only transient failures are worth retrying.
    pub fn is_retryable(&self) -> (retryable: bool)
        ensures
            retryable == (self.kind == ResolveErrorKind::Transient),
    {
        self.kind == ResolveErrorKind::Transient
    }

    /// `<kind>: <message>`, the way the error is displayed.
    pub fn to_text(&self) -> (text: String)
        ensures
            text@ == kind_name(self.kind) + ": "@ + self.message@,
    {
        let name = match self.kind {
            ResolveErrorKind::Transient => "Transient",
            ResolveErrorKind::Auth => "Auth",
            ResolveErrorKind::Unavailable => "Unavailable",
            ResolveErrorKind::LocalMissing => "LocalMissing",
            ResolveErrorKind::NotConfigured => "NotConfigured",
        };
        String::from_str(name).concat(": ").concat(self.message.as_str())
    }

    /// A copy with the same kind and message.
    pub fn duplicate(&self) -> (copy: ResolveError)
        ensures
            copy@ == self@,
    {
        ResolveError { kind: self.kind, message: self.message.clone() }
    }
}

// ── Pure policy ──────────────────────────────────────────────────

/// What the resolver should try, in order.
#[derive(Debug, Clone, Copy, PartialEq, Eq, Structural)]
pub enum ResolutionPlan {
    /// Local path: nothing to fetch.
    LocalPath,
    /// NCM first, UNM as fallback when enabled.
    NcmThenUnm { unm_enabled: bool },
    /// VIP/paid pre-check hit: skip NCM and go straight to UNM.
    UnmOnly,
}

/// UNM is enabled and has a non-blank base URL.
pub open spec fn unm_available(config: NativeResolverConfig) -> bool {
    config.unm_enabled && (config.unm_base_url matches Some(base) && trimmed(base@).len() > 0)
}

/// The VIP pre-check: fee 1 (VIP) or 4 (paid album), not a cloud upload.
pub open spec fn vip_locked(entry: NativeManifestEntry) -> bool {
    (entry.fee == Some(1i64) || entry.fee == Some(4i64)) && !entry.has_pc
}

/// The resolution strategy for an entry.
pub open spec fn resolution_plan(entry: NativeManifestEntry, config: NativeResolverConfig) -> ResolutionPlan {
    if entry.identity is Local {
        ResolutionPlan::LocalPath
    } else if unm_available(config) && vip_locked(entry) {
        ResolutionPlan::UnmOnly
    } else {
        ResolutionPlan::NcmThenUnm { unm_enabled: unm_available(config) }
    }
}

/// Decide the resolution strategy for `entry`.
pub fn plan_resolution(entry: &NativeManifestEntry, config: &NativeResolverConfig) -> (plan: ResolutionPlan)
    ensures
        plan == resolution_plan(*entry, *config),
{
    if let TrackIdentity::Local { .. } = entry.identity {
        return ResolutionPlan::LocalPath;
    }
    let unm_enabled = config.unm_enabled && match &config.unm_base_url {
        Some(base) => !is_blank(base.as_str()),
        None => false,
    };
    let vip = match entry.fee {
        Some(fee) => fee == 1 || fee == 4,
        None => false,
    } && !entry.has_pc;
    if unm_enabled && vip {
        return ResolutionPlan::UnmOnly;
    }
    ResolutionPlan::NcmThenUnm { unm_enabled }
}

/// `s` with a leading `http://` replaced by `https://`.
pub open spec fn https_upgraded(s: Seq<char>) -> Seq<char> {
    if has_prefix(s, "http://"@) {
        "https://"@ + s.skip("http://"@.len() as int)
    } else {
        s
    }
}

/// Replace a leading `http://` with `https://`.
pub fn upgrade_to_https(url: &str) -> (upgraded: String)
    ensures
        upgraded@ == https_upgraded(url@),
{
    let plain = "http://";
    if starts_with(url, plain) {
        let n = plain.unicode_len();
        let len = url.unicode_len();
        let rest = url.substring_char(n, len);
        assert(rest@ =~= url@.skip(n as int));
        String::from_str("https://").concat(rest)
    } else {
        String::from_str(url)
    }
}

/// The optional text as a character sequence.
pub open spec fn opt_text(text: Option<&str>) -> Option<Seq<char>> {
    match text {
        Some(t) => Some(t@),
        None => None,
    }
}

/// The playable URL in an NCM `/song/url/v1` answer: trimmed, upgraded to
/// https, and absent when blank or a trial clip.
pub open spec fn ncm_url_verdict(raw: Option<Seq<char>>) -> Option<Seq<char>> {
    match raw {
        None => None,
        Some(r) => {
            let t = trimmed(r);
            if t.len() == 0 {
                None
            } else if contains_text(https_upgraded(t), "jd-musicrep-ts"@) {
                None
            } else {
                Some(https_upgraded(t))
            }
        },
    }
}

/// Normalize and validate a URL returned by NCM. `None` when the answer
/// carries nothing playable, the trial-clip case included.
pub fn classify_ncm_url(raw: Option<&str>) -> (url: Option<String>)
    ensures
        url.deep_view() == ncm_url_verdict(opt_text(raw)),
{
    let raw = match raw {
        Some(r) => trim(r),
        None => return None,
    };
    if raw.unicode_len() == 0 {
        return None;
    }
    let upgraded = upgrade_to_https(raw);
    if contains(upgraded.as_str(), "jd-musicrep-ts") {
        return None;
    }
    Some(upgraded)
}

/// The URL to play from a UNM answer: trimmed and upgraded to https, except
/// that a kuwo.cn URL (any case) gives way to a non-blank proxy URL.
pub open spec fn unm_url_verdict(url: Option<Seq<char>>, proxy: Option<Seq<char>>) -> Option<Seq<char>> {
    match url {
        None => None,
        Some(u) => {
            let t = trimmed(u);
            if t.len() == 0 {
                None
            } else if contains_text(lower_text(https_upgraded(t)), "kuwo.cn"@) && (proxy matches Some(p)
                && trimmed(p).len() > 0) {
                Some(trimmed(proxy->0))
            } else {
                Some(https_upgraded(t))
            }
        },
    }
}

/// Apply the kuwo proxy rule to a UNM answer.
pub fn pick_unm_url(url: Option<&str>, proxy_url: Option<&str>) -> (picked: Option<String>)
    ensures
        picked.deep_view() == unm_url_verdict(opt_text(url), opt_text(proxy_url)),
{
    let url = match url {
        Some(u) => trim(u),
        None => return None,
    };
    if url.unicode_len() == 0 {
        return None;
    }
    let upgraded = upgrade_to_https(url);
    if contains_ascii_folded(upgraded.as_str(), "kuwo.cn") {
        if let Some(proxy) = proxy_url {
            let proxy = trim(proxy);
            if proxy.unicode_len() > 0 {
                return Some(String::from_str(proxy));
            }
        }
    }
    Some(upgraded)
}

/// Length of `s.take(j)` once trailing `/` are removed.
pub open spec fn slash_back(s: Seq<char>, j: int) -> int
    decreases j,
{
    if j <= 0 {
        0
    } else if s[j - 1] == '/' {
        slash_back(s, j - 1)
    } else {
        j
    }
}

/// First index at or after `i` that holds no `/`.
pub open spec fn slash_front(s: Seq<char>, i: int) -> int
    decreases s.len() - i,
{
    if i >= s.len() {
        s.len() as int
    } else if s[i] == '/' {
        slash_front(s, i + 1)
    } else {
        i
    }
}

proof fn lemma_slash_back(s: Seq<char>, j: int)
    requires
        0 <= j <= s.len(),
    ensures
        0 <= slash_back(s, j) <= j,
    decreases j,
{
    if j > 0 && s[j - 1] == '/' {
        lemma_slash_back(s, j - 1);
    }
}

proof fn lemma_slash_front(s: Seq<char>, i: int)
    requires
        0 <= i <= s.len(),
    ensures
        i <= slash_front(s, i) <= s.len(),
    decreases s.len() - i,
{
    if i < s.len() && s[i] == '/' {
        lemma_slash_front(s, i + 1);
    }
}

/// The base (trimmed, trailing `/` removed), a `/`, and the path (leading
/// `/` removed).
pub open spec fn joined_url(base: Seq<char>, path: Seq<char>) -> Seq<char> {
    let b = trimmed(base);
    b.take(slash_back(b, b.len() as int)) + "/"@ + path.skip(slash_front(path, 0))
}

/// Join an API base with a path, tolerating a trailing slash on the base and
/// a leading one on the path.
pub fn join_url(base: &str, path: &str) -> (url: String)
    ensures
        url@ == joined_url(base@, path@),
{
    let b = trim(base);
    let mut j = b.unicode_len();
    while j > 0
        invariant
            j <= b@.len(),
            slash_back(b@, j as int) == slash_back(b@, b@.len() as int),
        ensures
            j == slash_back(b@, b@.len() as int),
        decreases j,
    {
        if b.get_char(j - 1) != '/' {
            break;
        }
        j = j - 1;
    }
    let plen = path.unicode_len();
    let mut i: usize = 0;
    while i < plen
        invariant
            plen == path@.len(),
            i <= plen,
            slash_front(path@, i as int) == slash_front(path@, 0),
        ensures
            i == slash_front(path@, 0),
        decreases plen - i,
    {
        if path.get_char(i) != '/' {
            break;
        }
        i = i + 1;
    }
    let head = b.substring_char(0, j);
    let tail = path.substring_char(i, plen);
    assert(head@ =~= b@.take(j as int));
    assert(tail@ =~= path@.skip(i as int));
    String::from_str(head).concat("/").concat(tail)
}

/// A word that looks like it carries a credential.
pub open spec fn is_secret_word(w: Seq<char>) -> bool {
    let l = lower_text(w);
    contains_text(l, "music_u"@) || contains_text(l, "cookie"@) || contains_text(l, "csrf"@)
        || contains_text(l, "token"@)
}

/// The word as it appears in redacted text.
pub open spec fn masked_word(w: Seq<char>) -> Seq<char> {
    if is_secret_word(w) {
        "[redacted]"@
    } else {
        w
    }
}

/// The whitespace-separated words of `s` from index `i` on.
pub open spec fn words_from(s: Seq<char>, i: int) -> Seq<Seq<char>>
    decreases s.len() - i,
{
    if i < 0 || i >= s.len() {
        Seq::empty()
    } else {
        let a = skip_white(s, i);
        if a >= s.len() {
            Seq::empty()
        } else {
            proof {
                lemma_skip_white(s, i);
                lemma_word_end(s, a + 1);
            }
            let b = word_end(s, a);
            seq![s.subrange(a, b)] + words_from(s, b)
        }
    }
}

/// Words joined by single spaces.
pub open spec fn spaced(words: Seq<Seq<char>>) -> Seq<char>
    decreases words.len(),
{
    if words.len() == 0 {
        Seq::empty()
    } else if words.len() == 1 {
        words[0]
    } else {
        spaced(words.drop_last()) + " "@ + words.last()
    }
}

/// `text` with every credential-shaped word replaced by `[redacted]` and
/// whitespace runs collapsed to single spaces.
pub open spec fn redacted(text: Seq<char>) -> Seq<char> {
    spaced(masked_words(text))
}

/// The words of `text`, each masked.
pub open spec fn masked_words(text: Seq<char>) -> Seq<Seq<char>> {
    words_from(text, 0).map_values(|w: Seq<char>| masked_word(w))
}

fn is_secret(word: &str) -> (secret: bool)
    ensures
        secret == is_secret_word(word@),
{
    contains_ascii_folded(word, "music_u") || contains_ascii_folded(word, "cookie")
        || contains_ascii_folded(word, "csrf") || contains_ascii_folded(word, "token")
}

/// Strip anything credential-shaped out of a text before it is logged or
/// emitted.
pub fn redact(text: &str) -> (clean: String)
    ensures
        clean@ == redacted(text@),
{
    let len = text.unicode_len();
    let mut out = String::new();
    let mut pos: usize = 0;
    let mut first = true;
    let ghost mut done: Seq<Seq<char>> = Seq::empty();
    proof {
        assert(done + words_from(text@, 0) =~= words_from(text@, 0));
    }
    loop
        invariant
            len == text@.len(),
            pos <= len,
            first == (done.len() == 0),
            words_from(text@, 0) == done + words_from(text@, pos as int),
            out@ == spaced(done.map_values(|w: Seq<char>| masked_word(w))),
        ensures
            out@ == redacted(text@),
        decreases len - pos,
    {
        let a = skip_white_from(text, pos);
        proof {
            lemma_skip_white(text@, pos as int);
        }
        if a >= len {
            proof {
                assert(words_from(text@, pos as int) =~= Seq::<Seq<char>>::empty());
                assert(done + Seq::<Seq<char>>::empty() =~= done);
                assert(words_from(text@, 0) == done);
            }
            break;
        }
        let b = word_end_from(text, a);
        proof {
            lemma_word_end(text@, a + 1);
        }
        let word = text.substring_char(a, b);
        let ghost prev = done.map_values(|w: Seq<char>| masked_word(w));
        if !first {
            out.append(" ");
        }
        if is_secret(word) {
            out.append("[redacted]");
        } else {
            out.append(word);
        }
        proof {
            let w = text@.subrange(a as int, b as int);
            assert(word@ == w);
            assert(words_from(text@, pos as int) == seq![w] + words_from(text@, b as int));
            assert(done + words_from(text@, pos as int) =~= done.push(w) + words_from(text@, b as int));
            let next = done.push(w).map_values(|v: Seq<char>| masked_word(v));
            assert(next =~= prev.push(masked_word(w)));
            assert(next.drop_last() =~= prev);
            done = done.push(w);
        }
        first = false;
        pos = b;
    }
    out
}

/// No word of redacted text is credential-shaped, except the placeholder.
pub proof fn lemma_redaction_hides_secrets(text: Seq<char>)
    ensures
        forall|i: int|
            0 <= i < masked_words(text).len() ==> #[trigger] masked_words(text)[i] == "[redacted]"@
                || !is_secret_word(masked_words(text)[i]),
{
}

/// A nonempty run of characters none of which is whitespace.
pub open spec fn is_word(w: Seq<char>) -> bool {
    w.len() > 0 && forall|k: int| 0 <= k < w.len() ==> !is_white_space(#[trigger] w[k])
}

proof fn lemma_skip_white_shift(p: Seq<char>, t: Seq<char>, j: int)
    requires
        0 <= j <= t.len(),
    ensures
        skip_white(p + t, p.len() + j) == p.len() + skip_white(t, j),
    decreases t.len() - j,
{
    if j < t.len() {
        assert((p + t)[p.len() + j] == t[j]);
        if is_white_space(t[j]) {
            lemma_skip_white_shift(p, t, j + 1);
        }
    }
}

proof fn lemma_word_end_shift(p: Seq<char>, t: Seq<char>, j: int)
    requires
        0 <= j <= t.len(),
    ensures
        word_end(p + t, p.len() + j) == p.len() + word_end(t, j),
    decreases t.len() - j,
{
    if j < t.len() {
        assert((p + t)[p.len() + j] == t[j]);
        if !is_white_space(t[j]) {
            lemma_word_end_shift(p, t, j + 1);
        }
    }
}

/// The word starting at a non-whitespace character ends past it.
proof fn lemma_word_past(s: Seq<char>, a: int)
    requires
        0 <= a < s.len(),
        !is_white_space(s[a]),
    ensures
        a < word_end(s, a) <= s.len(),
        forall|k: int| a <= k < word_end(s, a) ==> !is_white_space(#[trigger] s[k]),
{
    lemma_word_end(s, a + 1);
    lemma_word_end(s, a);
}

/// The words of `p + t` from inside `t` are those of `t`.
proof fn lemma_words_shift(p: Seq<char>, t: Seq<char>, j: int)
    requires
        0 <= j <= t.len(),
    ensures
        words_from(p + t, p.len() + j) == words_from(t, j),
    decreases t.len() - j,
{
    if j < t.len() {
        lemma_skip_white_shift(p, t, j);
        lemma_skip_white(t, j);
        let a = skip_white(t, j);
        if a < t.len() {
            lemma_word_end_shift(p, t, a);
            lemma_word_past(t, a);
            let b = word_end(t, a);
            assert((p + t).subrange(p.len() + a, p.len() + b) =~= t.subrange(a, b));
            lemma_words_shift(p, t, b);
        }
    }
}

proof fn lemma_skip_white_prefix(s1: Seq<char>, t: Seq<char>, i: int)
    requires
        0 <= i <= s1.len(),
    ensures
        skip_white(s1, i) < s1.len() ==> skip_white(s1 + t, i) == skip_white(s1, i),
        skip_white(s1, i) >= s1.len() ==> skip_white(s1 + t, i) == skip_white(s1 + t, s1.len() as int),
    decreases s1.len() - i,
{
    if i < s1.len() {
        assert((s1 + t)[i] == s1[i]);
        if is_white_space(s1[i]) {
            lemma_skip_white_prefix(s1, t, i + 1);
        }
    }
}

proof fn lemma_word_end_prefix(s1: Seq<char>, t: Seq<char>, a: int)
    requires
        0 <= a <= s1.len(),
        t.len() > 0,
        is_white_space(t[0]),
    ensures
        word_end(s1 + t, a) == word_end(s1, a),
    decreases s1.len() - a,
{
    if a < s1.len() {
        assert((s1 + t)[a] == s1[a]);
        if !is_white_space(s1[a]) {
            lemma_word_end_prefix(s1, t, a + 1);
        }
    } else {
        assert((s1 + t)[a] == t[0]);
    }
}

/// The words of `s1 + t`, where `t` starts with whitespace, are those of
/// `s1` followed by those of `t`.
proof fn lemma_words_append(s1: Seq<char>, t: Seq<char>, i: int)
    requires
        0 <= i <= s1.len(),
        t.len() > 0,
        is_white_space(t[0]),
    ensures
        words_from(s1 + t, i) == words_from(s1, i) + words_from(t, 0),
    decreases s1.len() - i,
{
    let s = s1 + t;
    lemma_skip_white(s1, i);
    lemma_skip_white_prefix(s1, t, i);
    lemma_words_shift(s1, t, 0);
    assert(s1.len() + 0 == s1.len());
    let a = skip_white(s1, i);
    if a < s1.len() {
        lemma_word_end_prefix(s1, t, a);
        lemma_word_past(s1, a);
        let b = word_end(s1, a);
        assert(s.subrange(a, b) =~= s1.subrange(a, b));
        lemma_words_append(s1, t, b);
        let w = s1.subrange(a, b);
        assert(seq![w] + (words_from(s1, b) + words_from(t, 0)) =~= (seq![w] + words_from(s1, b))
            + words_from(t, 0));
    } else {
        lemma_skip_white(s, s1.len() as int);
        assert(words_from(s1, i) =~= Seq::<Seq<char>>::empty());
        assert(words_from(s, i) == words_from(s, s1.len() as int));
        assert(words_from(s1, i) + words_from(t, 0) =~= words_from(t, 0));
    }
}

/// A single word reads back as itself, with or without a space in front.
proof fn lemma_words_of_word(w: Seq<char>)
    requires
        is_word(w),
    ensures
        words_from(w, 0) == seq![w],
        words_from(" "@ + w, 0) == seq![w],
{
    reveal_strlit(" ");
    lemma_word_past(w, 0);
    lemma_word_end(w, 0);
    assert(word_end(w, 0) == w.len());
    assert(w.subrange(0, w.len() as int) =~= w);
    assert(!is_white_space(w[0]));
    assert(skip_white(w, 0) == 0);
    assert(words_from(w, w.len() as int) =~= Seq::<Seq<char>>::empty());
    assert(words_from(w, 0) == seq![w.subrange(0, w.len() as int)] + words_from(w, w.len() as int));
    assert(words_from(w, 0) =~= seq![w]);
    let sp = " "@;
    assert(sp.len() == 1 && sp[0] == ' ');
    lemma_skip_white_shift(sp, w, 0);
    lemma_words_shift(sp, w, 0);
    assert(is_white_space((sp + w)[0]));
    assert(skip_white(sp + w, 0) == skip_white(sp + w, 1));
    assert(words_from(sp + w, 0) == words_from(sp + w, 1));
}

/// Words joined by single spaces read back as the same words.
proof fn lemma_words_of_spaced(ws: Seq<Seq<char>>)
    requires
        forall|k: int| 0 <= k < ws.len() ==> is_word(#[trigger] ws[k]),
    ensures
        words_from(spaced(ws), 0) == ws,
    decreases ws.len(),
{
    reveal_strlit(" ");
    if ws.len() == 0 {
        assert(words_from(spaced(ws), 0) =~= ws);
    } else if ws.len() == 1 {
        lemma_words_of_word(ws[0]);
        assert(seq![ws[0]] =~= ws);
    } else {
        let init = ws.drop_last();
        assert forall|k: int| 0 <= k < init.len() implies is_word(#[trigger] init[k]) by {
            assert(init[k] == ws[k]);
        }
        lemma_words_of_spaced(init);
        let last = ws[ws.len() - 1];
        assert(is_word(last));
        let t = " "@ + last;
        assert(spaced(ws) =~= spaced(init) + t);
        assert(t[0] == ' ');
        lemma_words_append(spaced(init), t, 0);
        lemma_words_of_word(last);
        assert(init + seq![last] =~= ws);
    }
}

/// Every word that `words_from` yields is a word.
proof fn lemma_words_are_words(s: Seq<char>, i: int)
    requires
        0 <= i,
    ensures
        forall|k: int| 0 <= k < words_from(s, i).len() ==> is_word(#[trigger] words_from(s, i)[k]),
    decreases s.len() - i,
{
    if i < s.len() {
        lemma_skip_white(s, i);
        let a = skip_white(s, i);
        if a < s.len() {
            lemma_word_past(s, a);
            let b = word_end(s, a);
            lemma_words_are_words(s, b);
            let w = s.subrange(a, b);
            assert(is_word(w)) by {
                assert forall|k: int| 0 <= k < w.len() implies !is_white_space(#[trigger] w[k]) by {
                    assert(w[k] == s[a + k]);
                }
            }
            let rest = words_from(s, b);
            assert forall|k: int| 0 <= k < words_from(s, i).len() implies is_word(
                #[trigger] words_from(s, i)[k],
            ) by {
                if k > 0 {
                    assert(words_from(s, i)[k] == rest[k - 1]);
                }
            }
        }
    }
}

/// No occurrence of `p` in `s` starts at a character that differs from `p`'s
/// first, or continues with one that differs from `p`'s second.
proof fn lemma_no_occurrence(s: Seq<char>, p: Seq<char>)
    requires
        p.len() >= 2,
        forall|i: int| 0 <= i && i + p.len() <= s.len() ==> #[trigger] s[i] != p[0] || s[i + 1] != p[1],
    ensures
        !contains_text(s, p),
{
    if contains_text(s, p) {
        let i = choose|i: int| occurs_at(s, p, i);
        assert(s.subrange(i, i + p.len())[0] == s[i]);
        assert(s.subrange(i, i + p.len())[1] == s[i + 1]);
    }
}

/// The placeholder is a word and is not itself credential-shaped.
proof fn lemma_placeholder_is_plain()
    ensures
        is_word("[redacted]"@),
        !is_secret_word("[redacted]"@),
{
    reveal_strlit("[redacted]");
    reveal_strlit("music_u");
    reveal_strlit("cookie");
    reveal_strlit("csrf");
    reveal_strlit("token");
    let r = "[redacted]"@;
    assert(r.len() == 10);
    assert(r[0] == '[' && r[1] == 'r' && r[2] == 'e' && r[3] == 'd' && r[4] == 'a' && r[5] == 'c'
        && r[6] == 't' && r[7] == 'e' && r[8] == 'd' && r[9] == ']');
    assert forall|k: int| 0 <= k < r.len() implies !is_white_space(#[trigger] r[k]) by {
        assert(k == 0 || k == 1 || k == 2 || k == 3 || k == 4 || k == 5 || k == 6 || k == 7 || k == 8
            || k == 9);
    }
    assert forall|k: int| 0 <= k < r.len() implies #[trigger] ascii_lower(r[k]) == r[k] by {
        assert(k == 0 || k == 1 || k == 2 || k == 3 || k == 4 || k == 5 || k == 6 || k == 7 || k == 8
            || k == 9);
    }
    assert(lower_text(r) =~= r);
    assert forall|i: int| 0 <= i && i + "music_u"@.len() <= r.len() implies #[trigger] r[i] != "music_u"@[0]
        || r[i + 1] != "music_u"@[1] by {
        assert(i == 0 || i == 1 || i == 2 || i == 3 || i == 4 || i == 5 || i == 6 || i == 7 || i == 8);
    }
    lemma_no_occurrence(r, "music_u"@);
    assert forall|i: int| 0 <= i && i + "cookie"@.len() <= r.len() implies #[trigger] r[i] != "cookie"@[0]
        || r[i + 1] != "cookie"@[1] by {
        assert(i == 0 || i == 1 || i == 2 || i == 3 || i == 4 || i == 5 || i == 6 || i == 7 || i == 8);
    }
    lemma_no_occurrence(r, "cookie"@);
    assert forall|i: int| 0 <= i && i + "csrf"@.len() <= r.len() implies #[trigger] r[i] != "csrf"@[0]
        || r[i + 1] != "csrf"@[1] by {
        assert(i == 0 || i == 1 || i == 2 || i == 3 || i == 4 || i == 5 || i == 6 || i == 7 || i == 8);
    }
    lemma_no_occurrence(r, "csrf"@);
    assert forall|i: int| 0 <= i && i + "token"@.len() <= r.len() implies #[trigger] r[i] != "token"@[0]
        || r[i + 1] != "token"@[1] by {
        assert(i == 0 || i == 1 || i == 2 || i == 3 || i == 4 || i == 5 || i == 6 || i == 7 || i == 8);
    }
    lemma_no_occurrence(r, "token"@);
}

/// Redacting twice changes nothing more than redacting once: the words of a
/// redacted text are its masked words, and the placeholder is no secret.
pub proof fn lemma_redaction_is_idempotent(text: Seq<char>)
    ensures
        redacted(redacted(text)) == redacted(text),
{
    let ws = masked_words(text);
    lemma_words_are_words(text, 0);
    lemma_placeholder_is_plain();
    assert forall|k: int| 0 <= k < ws.len() implies is_word(#[trigger] ws[k]) by {
        assert(is_word(words_from(text, 0)[k]));
    }
    lemma_words_of_spaced(ws);
    assert(masked_words(redacted(text)) =~= ws) by {
        assert forall|k: int| 0 <= k < ws.len() implies masked_word(#[trigger] ws[k]) == ws[k] by {
            let w = words_from(text, 0)[k];
            if is_secret_word(w) {
                assert(ws[k] == "[redacted]"@);
            }
        }
    }
}

/// Only VIP (fee 1) and paid-album (fee 4) tracks that are not cloud uploads
/// skip NCM, and only when UNM is there to take them; every other Netease
/// track, whatever its fee (none, 0, 8, ...), asks NCM first, with UNM as the
/// fallback exactly when UNM is enabled with a base URL.
pub proof fn lemma_only_vip_tracks_skip_ncm(entry: NativeManifestEntry, config: NativeResolverConfig)
    requires
        entry.identity is Netease,
    ensures
        resolution_plan(entry, config) == ResolutionPlan::UnmOnly <==> (config.unm_enabled
            && (config.unm_base_url matches Some(b) && trimmed(b@).len() > 0) && !entry.has_pc && (
        entry.fee == Some(1i64) || entry.fee == Some(4i64))),
        !(entry.fee == Some(1i64) || entry.fee == Some(4i64)) ==> resolution_plan(entry, config)
            == (ResolutionPlan::NcmThenUnm {
            unm_enabled: config.unm_enabled && (config.unm_base_url matches Some(b) && trimmed(b@).len()
                > 0),
        }),
{
}

/// A trial clip is never played from NCM: whenever the trimmed URL contains
/// `jd-musicrep-ts`, whatever its scheme, there is no playable URL, and an
/// accepted URL never contains it.
pub proof fn lemma_trial_clips_are_rejected(raw: Seq<char>)
    ensures
        contains_text(trimmed(raw), "jd-musicrep-ts"@) ==> ncm_url_verdict(Some(raw)) is None,
        ncm_url_verdict(Some(raw)) matches Some(u) ==> !contains_text(u, "jd-musicrep-ts"@),
{
    reveal_strlit("http://");
    reveal_strlit("https://");
    reveal_strlit("jd-musicrep-ts");
    let t = trimmed(raw);
    let x = "jd-musicrep-ts"@;
    if contains_text(t, x) && has_prefix(t, "http://"@) {
        let i = choose|i: int| occurs_at(t, x, i);
        let h = "http://"@;
        assert(t.subrange(0, 7) == h);
        assert(t.subrange(i, i + x.len())[0] == t[i]);
        assert(t[i] == 'j');
        if i < 7 {
            assert(t[i] == t.subrange(0, 7)[i]);
            assert(i == 0 || i == 1 || i == 2 || i == 3 || i == 4 || i == 5 || i == 6);
        }
        let u = https_upgraded(t);
        assert(u =~= "https://"@ + t.skip(7));
        assert(u.subrange(i + 1, i + 1 + x.len()) =~= t.subrange(i, i + x.len()));
        assert(occurs_at(u, x, i + 1));
    }
}

/// Any other URL NCM returns is played: a blank one gives no URL, and one
/// that is not a trial clip is accepted trimmed, with a leading `http://`
/// upgraded to `https://` and otherwise unchanged.
pub proof fn lemma_plain_urls_are_accepted(raw: Seq<char>)
    ensures
        trimmed(raw).len() == 0 ==> ncm_url_verdict(Some(raw)) is None,
        trimmed(raw).len() > 0 && !contains_text(trimmed(raw), "jd-musicrep-ts"@) ==> ncm_url_verdict(
            Some(raw),
        ) == Some(
            if has_prefix(trimmed(raw), "http://"@) {
                "https://"@ + trimmed(raw).skip(7)
            } else {
                trimmed(raw)
            },
        ),
{
    reveal_strlit("http://");
    reveal_strlit("https://");
    reveal_strlit("jd-musicrep-ts");
    let t = trimmed(raw);
    let x = "jd-musicrep-ts"@;
    let u = https_upgraded(t);
    if t.len() > 0 && !contains_text(t, x) && contains_text(u, x) {
        let i = choose|i: int| occurs_at(u, x, i);
        assert(u.subrange(i, i + x.len())[0] == u[i]);
        assert(u[i] == 'j');
        if has_prefix(t, "http://"@) {
            assert(u =~= "https://"@ + t.skip(7));
            if i < 8 {
                assert(i == 0 || i == 1 || i == 2 || i == 3 || i == 4 || i == 5 || i == 6 || i == 7);
            }
            assert(t.subrange(i - 1, i - 1 + x.len()) =~= u.subrange(i, i + x.len()));
            assert(occurs_at(t, x, i - 1));
        } else {
            assert(occurs_at(t, x, i));
        }
    }
}

/// Swapping a prefix for another one, neither of which holds the first
/// character of `x`, does not change whether `x` occurs.
proof fn lemma_marker_ignores_prefix(p1: Seq<char>, p2: Seq<char>, r: Seq<char>, x: Seq<char>)
    requires
        x.len() > 0,
        forall|k: int| 0 <= k < p1.len() ==> #[trigger] p1[k] != x[0],
        forall|k: int| 0 <= k < p2.len() ==> #[trigger] p2[k] != x[0],
    ensures
        contains_text(p1 + r, x) ==> contains_text(p2 + r, x),
{
    if contains_text(p1 + r, x) {
        let i = choose|i: int| occurs_at(p1 + r, x, i);
        assert((p1 + r).subrange(i, i + x.len())[0] == (p1 + r)[i]);
        if i < p1.len() {
            assert((p1 + r)[i] == p1[i]);
        }
        let j = i - p1.len() + p2.len();
        assert((p2 + r).subrange(j, j + x.len()) =~= (p1 + r).subrange(i, i + x.len()));
        assert(occurs_at(p2 + r, x, j));
    }
}

/// A kuwo.cn link gives way to the proxy: when the trimmed UNM URL contains
/// `kuwo.cn` in any letter case and a non-blank proxy URL came with it, the
/// trimmed proxy URL is played; otherwise the trimmed URL is, with a leading
/// `http://` upgraded to `https://`; a blank URL gives none.
pub proof fn lemma_kuwo_links_prefer_the_proxy(url: Seq<char>, proxy: Option<Seq<char>>)
    ensures
        trimmed(url).len() == 0 ==> unm_url_verdict(Some(url), proxy) is None,
        trimmed(url).len() > 0 && contains_text(lower_text(trimmed(url)), "kuwo.cn"@) && (proxy matches Some(
            p,
        ) && trimmed(p).len() > 0) ==> unm_url_verdict(Some(url), proxy) == Some(trimmed(proxy->0)),
        trimmed(url).len() > 0 && !(contains_text(lower_text(trimmed(url)), "kuwo.cn"@) && (proxy matches Some(
            p,
        ) && trimmed(p).len() > 0)) ==> unm_url_verdict(Some(url), proxy) == Some(
            if has_prefix(trimmed(url), "http://"@) {
                "https://"@ + trimmed(url).skip(7)
            } else {
                trimmed(url)
            },
        ),
{
    reveal_strlit("http://");
    reveal_strlit("https://");
    reveal_strlit("kuwo.cn");
    let t = trimmed(url);
    let k = "kuwo.cn"@;
    if t.len() > 0 && has_prefix(t, "http://"@) {
        let rest = lower_text(t.skip(7));
        assert(t.subrange(0, 7) == "http://"@);
        assert(lower_text(t) =~= "http://"@ + rest) by {
            assert forall|i: int| 0 <= i < 7 implies #[trigger] t[i] == "http://"@[i] by {
                assert(t[i] == t.subrange(0, 7)[i]);
            }
        }
        assert(lower_text(https_upgraded(t)) =~= "https://"@ + rest);
        assert forall|q: int| 0 <= q < 7 implies #[trigger] "http://"@[q] != k[0] by {
            assert(q == 0 || q == 1 || q == 2 || q == 3 || q == 4 || q == 5 || q == 6);
        }
        assert forall|q: int| 0 <= q < 8 implies #[trigger] "https://"@[q] != k[0] by {
            assert(q == 0 || q == 1 || q == 2 || q == 3 || q == 4 || q == 5 || q == 6 || q == 7);
        }
        lemma_marker_ignores_prefix("http://"@, "https://"@, rest, k);
        lemma_marker_ignores_prefix("https://"@, "http://"@, rest, k);
    }
}

/// Local tracks never hit the network, and the VIP pre-check only skips NCM
/// when UNM is there to take over.
pub proof fn lemma_plan_respects_availability(entry: NativeManifestEntry, config: NativeResolverConfig)
    ensures
        entry.identity is Local ==> resolution_plan(entry, config) == ResolutionPlan::LocalPath,
        resolution_plan(entry, config) == ResolutionPlan::UnmOnly ==> unm_available(config) && vip_locked(entry),
{
}

/// The decimal spelling of `n`.
pub open spec fn decimal(n: nat) -> Seq<char>
    decreases n,
{
    let digit = seq!['0', '1', '2', '3', '4', '5', '6', '7', '8', '9'][(n % 10) as int];
    if n < 10 {
        seq![digit]
    } else {
        decimal(n / 10) + seq![digit]
    }
}

fn digit_text(d: u16) -> (text: &'static str)
    requires
        d < 10,
    ensures
        text@ == seq![seq!['0', '1', '2', '3', '4', '5', '6', '7', '8', '9'][d as int]],
{
    let t = match d {
        0 => "0",
        1 => "1",
        2 => "2",
        3 => "3",
        4 => "4",
        5 => "5",
        6 => "6",
        7 => "7",
        8 => "8",
        _ => "9",
    };
    proof {
        reveal_strlit("0");
        reveal_strlit("1");
        reveal_strlit("2");
        reveal_strlit("3");
        reveal_strlit("4");
        reveal_strlit("5");
        reveal_strlit("6");
        reveal_strlit("7");
        reveal_strlit("8");
        reveal_strlit("9");
    }
    assert(t@ =~= seq![seq!['0', '1', '2', '3', '4', '5', '6', '7', '8', '9'][d as int]]);
    t
}

fn append_decimal(out: &mut String, n: u16)
    ensures
        final(out)@ == old(out)@ + decimal(n as nat),
    decreases n,
{
    if n >= 10 {
        append_decimal(out, n / 10);
    }
    out.append(digit_text(n % 10));
    assert(final(out)@ =~= old(out)@ + decimal(n as nat));
}

// ── Exchanges with the APIs ──────────────────────────────────────

/// An HTTP GET to send: URL, query parameters and headers, in order.
#[derive(Debug, Clone, PartialEq, Eq)]
pub struct HttpRequest {
    pub url: String,
    pub query: Vec<(String, String)>,
    pub headers: Vec<(String, String)>,
}

/// What came of sending a request.
#[derive(Debug, Clone, PartialEq, Eq)]
pub enum HttpReply {
    /// A success status and the body read as text.
    Body(String),
    /// A success status, but the body could not be read.
    BodyUnreadable,
    /// An error status.
    Status(u16),
    /// No answer (connection, TLS, timeout). Its details can carry a signed
    /// URL and are not kept.
    Transport,
}

/// The error kind an HTTP error status maps to.
pub open spec fn status_kind(status: u16) -> ResolveErrorKind {
    if status == 401 || status == 403 {
        ResolveErrorKind::Auth
    } else if status == 404 || status == 410 {
        ResolveErrorKind::Unavailable
    } else {
        ResolveErrorKind::Transient
    }
}

/// The body of a reply, or the error it amounts to.
pub open spec fn reply_body(reply: HttpReply) -> Result<Seq<char>, (ResolveErrorKind, Seq<char>)> {
    match reply {
        HttpReply::Body(body) => Ok(body@),
        HttpReply::BodyUnreadable => Err((ResolveErrorKind::Transient, "failed to read response body"@)),
        HttpReply::Status(status) => Err((status_kind(status), "HTTP "@ + decimal(status as nat))),
        HttpReply::Transport => Err((ResolveErrorKind::Transient, "transport error"@)),
    }
}

/// Map an error status to its kind.
pub fn classify_status(status: u16) -> (kind: ResolveErrorKind)
    ensures
        kind == status_kind(status),
{
    if status == 401 || status == 403 {
        ResolveErrorKind::Auth
    } else if status == 404 || status == 410 {
        ResolveErrorKind::Unavailable
    } else {
        ResolveErrorKind::Transient
    }
}

/// The body of a reply, or the error it amounts to.
pub fn read_reply(reply: HttpReply) -> (body: Result<String, ResolveError>)
    ensures
        match (body, reply_body(reply)) {
            (Ok(b), Ok(v)) => b@ == v,
            (Err(e), Err(v)) => e@ == v,
            _ => false,
        },
{
    match reply {
        HttpReply::Body(body) => Ok(body),
        HttpReply::BodyUnreadable => Err(
            ResolveError::new(ResolveErrorKind::Transient, "failed to read response body"),
        ),
        HttpReply::Status(status) => {
            let mut message = String::from_str("HTTP ");
            append_decimal(&mut message, status);
            Err(ResolveError { kind: classify_status(status), message })
        },
        HttpReply::Transport => Err(ResolveError::new(ResolveErrorKind::Transient, "transport error")),
    }
}

/// The fields the resolver reads from a JSON reply body, as serde_json reads
/// them: `data[0].url` (NCM `/song/url/v1`), then `code`, `data.url` and
/// `data.proxyUrl` (UNM `/match`). `None` when the body is not JSON; a field
/// is `None` when it is missing or of another type (`data[0]` needs `data` to
/// be an array).
pub uninterp spec fn reply_fields(body: Seq<char>) -> Option<
    (Option<Seq<char>>, Option<i64>, Option<Seq<char>>, Option<Seq<char>>),
>;

/// `serde_json::from_str` into a `serde_json::Value`, then the four fields
/// read with `Value::get` (by key, and by index for `data[0]`),
/// `Value::as_str` and `Value::as_i64`. Claimed: the result is a function of
/// the body alone, named `reply_fields`.
#[verifier::external_body]
fn read_reply_fields(body: &str) -> (fields: Option<(Option<String>, Option<i64>, Option<String>, Option<String>)>)
    ensures
        fields.deep_view() == reply_fields(body@),
{
    let parsed: serde_json::Value = match serde_json::from_str(body) {
        Ok(value) => value,
        Err(_) => return None,
    };
    let data = parsed.get("data");
    Some((
        data.and_then(|d| d.get(0)).and_then(|f| f.get("url")).and_then(|u| u.as_str()).map(|u| u.to_string()),
        parsed.get("code").and_then(|c| c.as_i64()),
        data.and_then(|d| d.get("url")).and_then(|u| u.as_str()).map(|u| u.to_string()),
        data.and_then(|d| d.get("proxyUrl")).and_then(|u| u.as_str()).map(|u| u.to_string()),
    ))
}

/// `data[0].url` of an NCM reply body (`None` when the body is not JSON).
pub open spec fn ncm_reply_url(body: Seq<char>) -> Option<Option<Seq<char>>> {
    match reply_fields(body) {
        Some((url, _, _, _)) => Some(url),
        None => None,
    }
}

/// `code`, `data.url` and `data.proxyUrl` of a UNM reply body (`None` when the
/// body is not JSON).
pub open spec fn unm_reply_fields(body: Seq<char>) -> Option<(Option<i64>, Option<Seq<char>>, Option<Seq<char>>)> {
    match reply_fields(body) {
        Some((_, code, url, proxy)) => Some((code, url, proxy)),
        None => None,
    }
}

/// A resolution outcome, leaving out when the source was resolved.
pub open spec fn outcome_view(outcome: Result<ResolvedSource, ResolveError>) -> Result<SourceView, (ResolveErrorKind, Seq<char>)> {
    match outcome {
        Ok(source) => Ok(source@),
        Err(error) => Err(error@),
    }
}

/// A remote source for `identity`.
pub open spec fn remote_view(identity: TrackIdentity, uri: Seq<char>, origin: SourceOrigin) -> SourceView {
    SourceView { identity, uri, origin, lifetime: Some(ASSUMED_URL_TTL_SECS) }
}

/// What an NCM reply (as read from its JSON) amounts to.
pub open spec fn ncm_outcome(identity: TrackIdentity, reply: Option<Option<Seq<char>>>) -> Result<SourceView, (ResolveErrorKind, Seq<char>)> {
    match reply {
        None => Err((ResolveErrorKind::Transient, "malformed NCM JSON"@)),
        Some(raw) => match ncm_url_verdict(raw) {
            Some(url) => Ok(remote_view(identity, url, SourceOrigin::Ncm)),
            None => Err((ResolveErrorKind::Unavailable, "NCM returned no playable URL"@)),
        },
    }
}

/// What a UNM reply (as read from its JSON) amounts to.
pub open spec fn unm_outcome(
    identity: TrackIdentity,
    reply: Option<(Option<i64>, Option<Seq<char>>, Option<Seq<char>>)>,
) -> Result<SourceView, (ResolveErrorKind, Seq<char>)> {
    match reply {
        None => Err((ResolveErrorKind::Transient, "malformed UNM JSON"@)),
        Some((code, url, proxy)) => if code != Some(200i64) {
            Err((ResolveErrorKind::Unavailable, "UNM reported no match"@))
        } else {
            match unm_url_verdict(url, proxy) {
                Some(u) => Ok(remote_view(identity, u, SourceOrigin::Unm)),
                None => Err((ResolveErrorKind::Unavailable, "UNM returned no playable URL"@)),
            }
        },
    }
}

fn as_text(text: &Option<String>) -> (r: Option<&str>)
    ensures
        opt_text(r) == text.deep_view(),
{
    match text {
        Some(t) => Some(t.as_str()),
        None => None,
    }
}

/// The source an NCM reply names, given the reply's `data[0].url`.
pub fn ncm_source_from_reply(identity: &TrackIdentity, reply: Option<Option<String>>) -> (outcome: Result<ResolvedSource, ResolveError>)
    ensures
        outcome_view(outcome) == ncm_outcome(*identity, reply.deep_view()),
{
    let raw = match reply {
        Some(raw) => raw,
        None => return Err(ResolveError::new(ResolveErrorKind::Transient, "malformed NCM JSON")),
    };
    match classify_ncm_url(as_text(&raw)) {
        Some(url) => Ok(ResolvedSource::remote(identity.duplicate(), url, SourceOrigin::Ncm)),
        None => Err(ResolveError::new(ResolveErrorKind::Unavailable, "NCM returned no playable URL")),
    }
}

/// The source an NCM reply body names.
pub fn ncm_source_from_body(identity: &TrackIdentity, body: &str) -> (outcome: Result<ResolvedSource, ResolveError>)
    ensures
        outcome_view(outcome) == ncm_outcome(*identity, ncm_reply_url(body@)),
{
    let reply = match read_reply_fields(body) {
        Some((url, _, _, _)) => Some(url),
        None => None,
    };
    ncm_source_from_reply(identity, reply)
}

/// The source a UNM reply names, given its `code`, `data.url` and `data.proxyUrl`.
pub fn unm_source_from_reply(
    identity: &TrackIdentity,
    reply: Option<(Option<i64>, Option<String>, Option<String>)>,
) -> (outcome: Result<ResolvedSource, ResolveError>)
    ensures
        outcome_view(outcome) == unm_outcome(*identity, reply.deep_view()),
{
    let (code, url, proxy) = match reply {
        Some(fields) => fields,
        None => return Err(ResolveError::new(ResolveErrorKind::Transient, "malformed UNM JSON")),
    };
    let code_ok = match code {
        Some(c) => c == 200,
        None => false,
    };
    if !code_ok {
        return Err(ResolveError::new(ResolveErrorKind::Unavailable, "UNM reported no match"));
    }
    match pick_unm_url(as_text(&url), as_text(&proxy)) {
        Some(u) => Ok(ResolvedSource::remote(identity.duplicate(), u, SourceOrigin::Unm)),
        None => Err(ResolveError::new(ResolveErrorKind::Unavailable, "UNM returned no playable URL")),
    }
}

/// The source a UNM reply body names.
pub fn unm_source_from_body(identity: &TrackIdentity, body: &str) -> (outcome: Result<ResolvedSource, ResolveError>)
    ensures
        outcome_view(outcome) == unm_outcome(*identity, unm_reply_fields(body@)),
{
    let reply = match read_reply_fields(body) {
        Some((_, code, url, proxy)) => Some((code, url, proxy)),
        None => None,
    };
    unm_source_from_reply(identity, reply)
}

} // verus!
