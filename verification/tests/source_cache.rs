use gmplayer::source_cache::{PrefetchResult, SourceCache};
use gmplayer::source_resolver::{ResolveError, ResolveErrorKind, ResolvedSource, SourceOrigin};
use gmplayer::types::TrackIdentity;

fn identity(id: &str) -> TrackIdentity {
    TrackIdentity::Netease { id: id.to_string() }
}

fn source(id: &str) -> ResolvedSource {
    ResolvedSource::remote(
        identity(id),
        format!("https://cdn.example.com/{id}.mp3"),
        SourceOrigin::Ncm,
    )
}

fn ok_result(generation: u64, position: usize, id: &str) -> PrefetchResult {
    PrefetchResult {
        generation,
        manifest_revision: 1,
        position,
        outcome: Ok(source(id)),
    }
}

#[test]
fn accepts_a_current_generation_result() {
    let mut cache = SourceCache::new();
    let generation = cache.begin_prefetch();
    assert!(cache.is_in_flight());

    assert!(cache.accept(ok_result(generation, 4, "a")));
    assert!(!cache.is_in_flight());
    assert!(cache.has_fresh_for(4));
    assert_eq!(cache.prepared_position(), Some(4));
}

#[test]
fn discards_results_from_a_superseded_generation() {
    let mut cache = SourceCache::new();
    let stale_generation = cache.begin_prefetch();
    cache.invalidate();

    assert!(
        !cache.accept(ok_result(stale_generation, 4, "a")),
        "a result from before the edit must not be adopted"
    );
    assert!(cache.prepared_identity().is_none());
}

#[test]
fn invalidate_drops_a_prepared_source() {
    let mut cache = SourceCache::new();
    let generation = cache.begin_prefetch();
    cache.accept(ok_result(generation, 2, "a"));
    assert!(cache.has_fresh_for(2));

    cache.invalidate();
    assert!(!cache.has_fresh_for(2));
    assert!(cache.take_for(2).is_none());
}

#[test]
fn take_only_returns_the_matching_position() {
    let mut cache = SourceCache::new();
    let generation = cache.begin_prefetch();
    cache.accept(ok_result(generation, 7, "a"));

    assert!(cache.take_for(8).is_none(), "wrong position must not match");
    let taken = cache.take_for(7).expect("matching position");
    assert_eq!(taken.identity.key(), "netease:a");
    assert!(cache.take_for(7).is_none(), "take must consume");
}

#[test]
fn a_failed_prefetch_clears_in_flight_without_preparing() {
    let mut cache = SourceCache::new();
    let generation = cache.begin_prefetch();

    assert!(cache.accept(PrefetchResult {
        generation,
        manifest_revision: 1,
        position: 3,
        outcome: Err(ResolveError {
            kind: ResolveErrorKind::Unavailable,
            message: "gone".into(),
        }),
    }));
    assert!(!cache.is_in_flight());
    assert!(!cache.has_fresh_for(3));
}

#[test]
fn each_prefetch_supersedes_the_previous_one() {
    let mut cache = SourceCache::new();
    let first = cache.begin_prefetch();
    let second = cache.begin_prefetch();
    assert_ne!(first, second);

    assert!(!cache.accept(ok_result(first, 1, "a")));
    assert!(cache.accept(ok_result(second, 2, "b")));
    assert_eq!(cache.prepared_position(), Some(2));
}

#[test]
fn in_flight_follows_the_last_call_that_sets_it() {
    let mut cache = SourceCache::new();
    assert!(!cache.is_in_flight());
    let first = cache.begin_prefetch();
    let second = cache.begin_prefetch();
    assert!(!cache.accept(ok_result(first, 1, "a")));
    assert!(cache.is_in_flight(), "a superseded result leaves the prefetch in flight");
    assert!(cache.take_for(1).is_none());
    assert!(!cache.has_fresh_for(1));
    assert!(cache.is_in_flight());
    assert!(cache.accept(ok_result(second, 2, "b")));
    assert!(!cache.is_in_flight());
    assert!(cache.take_for(2).is_some());
    assert!(!cache.is_in_flight());
    cache.begin_prefetch();
    cache.invalidate();
    assert!(!cache.is_in_flight());
}

#[test]
fn a_remote_source_is_fresh_until_its_lifetime() {
    let mut cache = SourceCache::new();
    let generation = cache.begin_prefetch();
    assert!(cache.accept(ok_result(generation, 3, "a")));
    assert!(cache.has_fresh_for_at(3, 0));
    assert!(cache.has_fresh_for_at(3, 599));
    assert!(!cache.has_fresh_for_at(3, 600));
    assert!(!cache.has_fresh_for_at(4, 0));
    assert!(cache.take_for_at(4, 0).is_none());
    assert_eq!(cache.prepared_position(), Some(3));
    let taken = cache.take_for_at(3, 10).unwrap();
    assert_eq!(taken.identity.key(), "netease:a");
    assert_eq!(cache.prepared_position(), None);
}

#[test]
fn an_expired_source_is_dropped_not_handed_out() {
    let mut cache = SourceCache::new();
    let generation = cache.begin_prefetch();
    assert!(cache.accept(ok_result(generation, 3, "a")));
    assert!(cache.take_for_at(3, 600).is_none());
    assert_eq!(cache.prepared_position(), None);
    assert!(!cache.is_in_flight());
}
