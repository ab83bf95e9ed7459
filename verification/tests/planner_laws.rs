use gmplayer::manifest::ManifestStore;
use gmplayer::planner::{Planner, MAX_CONSECUTIVE_FAILURES};
use gmplayer::types::{NativeManifestEntry, NativePlaybackManifest, NativePlaybackMode, TrackIdentity};

fn store_of(n: usize, mode: NativePlaybackMode, repeat_list: bool, seed: u64) -> ManifestStore {
    let mut store = ManifestStore::new();
    store.set(NativePlaybackManifest {
        schema_version: 1,
        revision: 2,
        entries: (0..n)
            .map(|i| NativeManifestEntry {
                identity: TrackIdentity::Netease { id: i.to_string() },
                playlist_index: i,
                title: None,
                artist: None,
                duration_ms: None,
                fee: None,
                has_pc: false,
            })
            .collect(),
        order: Vec::new(),
        cursor_identity: None,
        cursor_index: 0,
        mode,
        repeat_list,
        random_seed: Some(seed),
    });
    store
}

#[test]
fn random_advance_follows_the_traversal_order() {
    let mut store = store_of(7, NativePlaybackMode::Random, true, 5);
    let mut planner = Planner::new();
    planner.reset_for_new_manifest(&store);
    for slot in 0..6 {
        let next = planner.peek_next(&mut store).unwrap();
        assert_eq!(Some(next.position), store.position_at_slot(slot + 1));
        planner.commit(&next);
    }
}

#[test]
fn a_planned_track_is_repeated_until_committed() {
    let mut store = store_of(3, NativePlaybackMode::Normal, true, 0);
    let mut planner = Planner::new();
    planner.reset_for_new_manifest(&store);
    let first = planner.peek_next(&mut store).unwrap();
    assert_eq!(first.position, 1);
    assert_eq!(planner.peek_next(&mut store), Some(first.clone()));
    planner.invalidate_plan();
    assert_eq!(planner.peek_next(&mut store), Some(first));
}

#[test]
fn a_memo_for_a_replaced_manifest_is_recomputed() {
    let mut store = store_of(3, NativePlaybackMode::Normal, true, 0);
    let mut planner = Planner::new();
    planner.reset_for_new_manifest(&store);
    let first = planner.peek_next(&mut store).unwrap();
    assert_eq!(first.identity.key(), "netease:1");

    let mut other = ManifestStore::new();
    other.set(NativePlaybackManifest {
        schema_version: 1,
        revision: 3,
        entries: ["x", "y", "z"]
            .iter()
            .enumerate()
            .map(|(i, id)| NativeManifestEntry {
                identity: TrackIdentity::Netease { id: id.to_string() },
                playlist_index: i,
                title: None,
                artist: None,
                duration_ms: None,
                fee: None,
                has_pc: false,
            })
            .collect(),
        order: Vec::new(),
        cursor_identity: None,
        cursor_index: 0,
        mode: NativePlaybackMode::Normal,
        repeat_list: true,
        random_seed: None,
    });
    let replanned = planner.peek_next(&mut other).unwrap();
    assert_eq!(replanned.identity.key(), "netease:y");
}

#[test]
fn a_planner_without_cursor_starts_at_the_first_slot() {
    let mut store = store_of(3, NativePlaybackMode::Normal, false, 0);
    let mut planner = Planner::new();
    let next = planner.peek_next(&mut store).unwrap();
    assert_eq!(next.position, 0);
    assert!(planner.cursor(&store).is_none());
}

#[test]
fn the_cursor_track_is_reported() {
    let store = store_of(3, NativePlaybackMode::Normal, false, 0);
    let mut planner = Planner::new();
    assert!(planner.anchor_to_key(&store, "netease:2"));
    let cursor = planner.cursor(&store).unwrap();
    assert_eq!(cursor.position, 2);
    assert_eq!(cursor.playlist_index, 2);
    assert!(planner.is_enabled());
}

#[test]
fn single_mode_without_cursor_plans_nothing() {
    let mut store = store_of(3, NativePlaybackMode::Single, true, 0);
    let mut planner = Planner::new();
    assert!(planner.peek_next(&mut store).is_none());
}

#[test]
fn normal_wrap_skips_failed_tracks_and_can_land_on_the_current_one() {
    let mut store = store_of(3, NativePlaybackMode::Normal, true, 0);
    let mut planner = Planner::new();
    assert!(planner.anchor_to_key(&store, "netease:2"));
    planner.mark_failed(0, &store, true);
    planner.mark_failed(1, &store, true);
    assert!(!planner.is_exhausted());
    let next = planner.peek_next(&mut store).unwrap();
    assert_eq!(next.position, 2, "only the current track is left");
}

#[test]
fn anchoring_clears_the_anchored_tracks_failure() {
    let store = store_of(4, NativePlaybackMode::Normal, true, 0);
    let mut planner = Planner::new();
    planner.mark_failed(1, &store, true);
    planner.mark_failed(2, &store, true);
    assert_eq!(planner.failure_count(), 2);
    assert!(planner.anchor_to_key(&store, "netease:2"));
    assert_eq!(planner.failure_count(), 1);
    assert_eq!(planner.cursor_position(), Some(2));
}

#[test]
fn repeated_permanent_failures_count_once() {
    let store = store_of(4, NativePlaybackMode::Normal, true, 0);
    let mut planner = Planner::new();
    planner.mark_failed(3, &store, true);
    planner.mark_failed(3, &store, true);
    assert_eq!(planner.failure_count(), 1);
}

#[test]
fn a_random_pass_plays_every_track_once() {
    let mut store = store_of(9, NativePlaybackMode::Random, true, 11);
    let mut planner = Planner::new();
    planner.reset_for_new_manifest(&store);
    let mut seen = vec![planner.cursor_position().unwrap()];
    for _ in 0..8 {
        let next = planner.peek_next(&mut store).unwrap();
        seen.push(next.position);
        planner.commit(&next);
    }
    seen.sort();
    assert_eq!(seen, (0..9).collect::<Vec<usize>>());
}

#[test]
fn only_the_failure_that_exhausts_reports_it() {
    let store = store_of(3, NativePlaybackMode::Normal, true, 0);
    let mut planner = Planner::new();
    planner.reset_for_new_manifest(&store);
    let mut reports = Vec::new();
    for _ in 0..MAX_CONSECUTIVE_FAILURES + 3 {
        reports.push(planner.mark_failed(1, &store, false));
    }
    assert_eq!(reports.iter().filter(|r| **r).count(), 1);
    assert!(reports[MAX_CONSECUTIVE_FAILURES - 1]);
    assert!(planner.is_exhausted());
}

#[test]
fn a_repeating_list_with_one_live_track_keeps_planning() {
    let mut store = store_of(4, NativePlaybackMode::Random, true, 3);
    let mut planner = Planner::new();
    planner.reset_for_new_manifest(&store);
    planner.mark_failed(0, &store, true);
    planner.mark_failed(1, &store, true);
    planner.mark_failed(2, &store, true);
    planner.mark_started(3);
    for _ in 0..10 {
        let next = planner.peek_next(&mut store).unwrap();
        assert_eq!(next.position, 3);
        planner.commit(&next);
    }
}
