use std::collections::HashSet;

use gmplayer::manifest::ManifestStore;
use gmplayer::planner::{Planner, MAX_CONSECUTIVE_FAILURES};
use gmplayer::types::{NativeManifestEntry, NativePlaybackManifest, NativePlaybackMode, TrackIdentity};

fn entry(id: &str, playlist_index: usize) -> NativeManifestEntry {
    NativeManifestEntry {
        identity: TrackIdentity::Netease { id: id.to_string() },
        playlist_index,
        title: None,
        artist: None,
        duration_ms: None,
        fee: None,
        has_pc: false,
    }
}

fn store(ids: &[&str], mode: NativePlaybackMode, repeat_list: bool) -> ManifestStore {
    let mut store = ManifestStore::new();
    store.set(NativePlaybackManifest {
        schema_version: 1,
        revision: 1,
        entries: ids.iter().enumerate().map(|(i, id)| entry(id, i)).collect(),
        order: Vec::new(),
        cursor_identity: None,
        cursor_index: 0,
        mode,
        repeat_list,
        random_seed: Some(1234),
    });
    store
}

fn planner_at(store: &ManifestStore, key: &str) -> Planner {
    let mut planner = Planner::new();
    planner.reset_for_new_manifest(store);
    assert!(planner.anchor_to_key(store, key));
    planner
}

#[test]
fn normal_mode_advances_in_order() {
    let mut store = store(&["a", "b", "c"], NativePlaybackMode::Normal, true);
    let mut planner = planner_at(&store, "netease:a");

    let next = planner.peek_next(&mut store).expect("advance");
    assert_eq!(next.identity.key(), "netease:b");
    assert_eq!(next.playlist_index, 1);
}

#[test]
fn normal_mode_wraps_only_when_repeat_list() {
    let mut wrapping = store(&["a", "b"], NativePlaybackMode::Normal, true);
    let mut planner = planner_at(&wrapping, "netease:b");
    assert_eq!(
        planner.peek_next(&mut wrapping).map(|t| t.identity.key()),
        Some("netease:a".to_string())
    );

    let mut stopping = store(&["a", "b"], NativePlaybackMode::Normal, false);
    let mut planner = planner_at(&stopping, "netease:b");
    assert!(
        planner.peek_next(&mut stopping).is_none(),
        "end of list without repeat must stop"
    );
}

#[test]
fn single_mode_repeats_current() {
    let mut store = store(&["a", "b"], NativePlaybackMode::Single, true);
    let mut planner = planner_at(&store, "netease:b");
    assert_eq!(
        planner.peek_next(&mut store).map(|t| t.identity.key()),
        Some("netease:b".to_string())
    );
}

#[test]
fn failed_positions_are_skipped() {
    let mut store = store(&["a", "b", "c"], NativePlaybackMode::Normal, true);
    let mut planner = planner_at(&store, "netease:a");

    planner.mark_failed(1, &store, true);
    assert_eq!(
        planner.peek_next(&mut store).map(|t| t.identity.key()),
        Some("netease:c".to_string()),
        "the broken track must be stepped over"
    );
}

#[test]
fn planner_exhausts_when_every_track_fails() {
    let mut store = store(&["a", "b", "c"], NativePlaybackMode::Normal, true);
    let mut planner = planner_at(&store, "netease:a");

    assert!(!planner.mark_failed(0, &store, true));
    assert!(!planner.mark_failed(1, &store, true));
    assert!(
        planner.mark_failed(2, &store, true),
        "all tracks failed must exhaust"
    );
    assert!(planner.is_exhausted());
    assert!(
        planner.peek_next(&mut store).is_none(),
        "an exhausted planner must stop, not loop"
    );
}

#[test]
fn consecutive_failure_cap_stops_request_storms() {
    let ids: Vec<String> = (0..50).map(|i| i.to_string()).collect();
    let refs: Vec<&str> = ids.iter().map(|s| s.as_str()).collect();
    let store = store(&refs, NativePlaybackMode::Normal, true);
    let mut planner = planner_at(&store, "netease:0");

    let mut exhausted_at = None;
    for position in 0..50 {
        if planner.mark_failed(position, &store, true) {
            exhausted_at = Some(position);
            break;
        }
    }
    assert_eq!(
        exhausted_at,
        Some(MAX_CONSECUTIVE_FAILURES - 1),
        "must stop after the consecutive cap, not after all 50"
    );
}

#[test]
fn a_successful_start_clears_the_failure_streak() {
    let store = store(&["a", "b", "c"], NativePlaybackMode::Normal, true);
    let mut planner = planner_at(&store, "netease:a");

    planner.mark_failed(0, &store, true);
    planner.mark_failed(1, &store, true);
    planner.mark_started(2);

    assert_eq!(planner.failure_count(), 2, "history is kept for skipping");
    assert!(!planner.mark_failed(0, &store, true));
    assert!(!planner.is_exhausted());
}

#[test]
fn new_manifest_revives_an_exhausted_planner() {
    let old = store(&["a"], NativePlaybackMode::Normal, true);
    let mut planner = planner_at(&old, "netease:a");
    planner.mark_failed(0, &old, true);
    assert!(planner.is_exhausted());

    let fresh = store(&["a", "b"], NativePlaybackMode::Normal, true);
    planner.reset_for_new_manifest(&fresh);
    assert!(!planner.is_exhausted());
    assert_eq!(planner.failure_count(), 0);
}

#[test]
fn disabled_planner_never_advances() {
    let mut store = store(&["a", "b"], NativePlaybackMode::Normal, true);
    let mut planner = planner_at(&store, "netease:a");
    planner.set_enabled(false);
    assert!(
        planner.peek_next(&mut store).is_none(),
        "personal FM / listen-together gate must hold"
    );
}

#[test]
fn random_mode_covers_every_track_once_per_pass() {
    let ids: Vec<String> = (0..25).map(|i| i.to_string()).collect();
    let refs: Vec<&str> = ids.iter().map(|s| s.as_str()).collect();
    let mut store = store(&refs, NativePlaybackMode::Random, true);
    let mut planner = Planner::new();
    planner.reset_for_new_manifest(&store);
    planner.anchor_to_key(&store, "netease:0");

    let mut seen = HashSet::new();
    seen.insert(planner.cursor_position().unwrap());

    for _ in 0..24 {
        let next = planner.peek_next(&mut store).expect("random must advance");
        assert!(
            seen.insert(next.position),
            "random pass repeated position {} before covering the list",
            next.position
        );
        planner.commit(&next);
    }
    assert_eq!(seen.len(), 25, "every track must play once per pass");
}

#[test]
fn random_mode_keeps_advancing_across_pass_boundaries() {
    let ids: Vec<String> = (0..10).map(|i| i.to_string()).collect();
    let refs: Vec<&str> = ids.iter().map(|s| s.as_str()).collect();
    let mut store = store(&refs, NativePlaybackMode::Random, true);
    let mut planner = Planner::new();
    planner.reset_for_new_manifest(&store);
    planner.anchor_to_key(&store, "netease:0");

    for hop in 0..50 {
        let next = planner
            .peek_next(&mut store)
            .unwrap_or_else(|| panic!("random stalled at hop {hop}"));
        planner.commit(&next);
    }
}

#[test]
fn random_wrap_does_not_immediately_replay_the_same_track() {
    let ids: Vec<String> = (0..6).map(|i| i.to_string()).collect();
    let refs: Vec<&str> = ids.iter().map(|s| s.as_str()).collect();

    for seed in 0..32u64 {
        let mut store = ManifestStore::new();
        store.set(NativePlaybackManifest {
            schema_version: 1,
            revision: 1,
            entries: refs.iter().enumerate().map(|(i, id)| entry(id, i)).collect(),
            order: Vec::new(),
            cursor_identity: None,
            cursor_index: 0,
            mode: NativePlaybackMode::Random,
            repeat_list: true,
            random_seed: Some(seed),
        });
        let mut planner = Planner::new();
        planner.reset_for_new_manifest(&store);
        planner.anchor_to_key(&store, "netease:0");

        let mut previous = planner.cursor_position().unwrap();
        for _ in 0..30 {
            let next = planner.peek_next(&mut store).expect("advance");
            assert_ne!(
                next.position, previous,
                "seed {seed}: back-to-back repeat of the same track"
            );
            planner.commit(&next);
            previous = next.position;
        }
    }
}

#[test]
fn random_mode_without_repeat_stops_after_one_pass() {
    let ids: Vec<String> = (0..5).map(|i| i.to_string()).collect();
    let refs: Vec<&str> = ids.iter().map(|s| s.as_str()).collect();
    let mut store = store(&refs, NativePlaybackMode::Random, false);
    let mut planner = Planner::new();
    planner.reset_for_new_manifest(&store);
    planner.anchor_to_key(&store, "netease:0");

    for _ in 0..4 {
        let next = planner.peek_next(&mut store).expect("advance within pass");
        planner.commit(&next);
    }
    assert!(
        planner.peek_next(&mut store).is_none(),
        "no-repeat random must stop at the end of the pass"
    );
}

#[test]
fn anchoring_to_unknown_identity_fails_without_moving_cursor() {
    let store = store(&["a", "b"], NativePlaybackMode::Normal, true);
    let mut planner = planner_at(&store, "netease:b");
    assert!(!planner.anchor_to_key(&store, "netease:zzz"));
    assert_eq!(planner.cursor_position(), Some(1));
}

#[test]
fn empty_manifest_yields_no_plan() {
    let mut store = store(&[], NativePlaybackMode::Normal, true);
    let mut planner = Planner::new();
    assert!(planner.peek_next(&mut store).is_none());
}

#[test]
fn peek_is_stable_across_repeated_calls_in_random_mode() {
    let ids: Vec<String> = (0..6).map(|i| i.to_string()).collect();
    let refs: Vec<&str> = ids.iter().map(|s| s.as_str()).collect();
    let mut store = store(&refs, NativePlaybackMode::Random, true);
    let last_position = store.position_at_slot(store.len() - 1).unwrap();
    let last_key = store.entry_at(last_position).unwrap().identity.key();
    let mut planner = planner_at(&store, &last_key);

    let first = planner.peek_next(&mut store).expect("a wrap must plan");
    for _ in 0..5 {
        assert_eq!(
            planner.peek_next(&mut store),
            Some(first.clone()),
            "peek must be idempotent until the cursor moves"
        );
    }
}

#[test]
fn committing_a_track_replans_the_successor() {
    let mut store = store(&["a", "b", "c"], NativePlaybackMode::Normal, true);
    let mut planner = planner_at(&store, "netease:a");

    let first = planner.peek_next(&mut store).expect("plan");
    assert_eq!(first.identity.key(), "netease:b");
    planner.commit(&first);
    planner.mark_started(first.position);

    assert_eq!(
        planner.peek_next(&mut store).map(|t| t.identity.key()),
        Some("netease:c".to_string()),
        "the memo must be dropped once the cursor moves"
    );
}

#[test]
fn transient_failures_do_not_blacklist_the_track() {
    let mut store = store(&["a", "b", "c"], NativePlaybackMode::Normal, true);
    let mut planner = planner_at(&store, "netease:a");

    assert!(!planner.mark_failed(1, &store, false));
    assert_eq!(
        planner.failure_count(),
        0,
        "transient failures are not sticky"
    );
    assert_eq!(
        planner.peek_next(&mut store).map(|t| t.identity.key()),
        Some("netease:b".to_string()),
        "a transient failure must remain retryable"
    );
}

#[test]
fn transient_failures_still_bound_the_retry_storm() {
    let store = store(&["a", "b"], NativePlaybackMode::Normal, true);
    let mut planner = planner_at(&store, "netease:a");

    let mut exhausted = false;
    for _ in 0..MAX_CONSECUTIVE_FAILURES {
        exhausted = planner.mark_failed(1, &store, false);
    }
    assert!(
        exhausted,
        "unbounded transient retries would become a request storm"
    );
}

#[test]
fn short_playlist_survives_a_single_failure() {
    let store = store(&["only"], NativePlaybackMode::Normal, true);
    let mut planner = planner_at(&store, "netease:only");
    assert!(
        !planner.mark_failed(0, &store, false),
        "one transient failure must not end a single-track list"
    );
    assert!(!planner.is_exhausted());
}
