//! Playback planner: owns the cursor, the failure policy and the decision of
//! what plays next, independent of how a track is resolved to a playable
//! source.
//!
//! The planner walks the manifest's traversal order, so random mode is a full
//! permutation traversal rather than a per-hop dice roll: every track plays
//! once per pass, and wrapping reshuffles deterministically.

use vstd::prelude::*;

use crate::manifest::{is_permutation, lemma_permutation_covers, lemma_reshuffled_valid, lemma_slot_of_order, shuffle_pass, lemma_shuffle_pass_permutation, ManifestStore, ManifestView};
use crate::types::{identity_key, NativePlaybackMode, TrackIdentity};

verus! {

/// How many consecutive resolve/playback failures are tolerated within one
/// manifest revision before the planner declares itself exhausted. A fixed
/// number, not scaled to the list length, so it bounds request storms without
/// ending a one-track list on its first failure.
pub const MAX_CONSECUTIVE_FAILURES: usize = 8;

/// A track the planner decided on.
#[derive(Debug, Clone, PartialEq, Eq)]
pub struct PlannedTrack {
    pub identity: TrackIdentity,
    pub playlist_index: usize,
    /// Position within the manifest's entries.
    pub position: usize,
}

impl PlannedTrack {
    /// A copy that verified code knows to be equal to this one.
    pub fn duplicate(&self) -> (copy: PlannedTrack)
        ensures
            copy == *self,
    {
        PlannedTrack {
            identity: self.identity.duplicate(),
            playlist_index: self.playlist_index,
            position: self.position,
        }
    }
}

/// The track at `position` of `m`, if there is one.
pub open spec fn planned_at(m: ManifestView, position: usize) -> Option<PlannedTrack> {
    if position < m.entries.len() {
        Some(
            PlannedTrack {
                identity: m.entries[position as int].identity,
                playlist_index: m.entries[position as int].playlist_index,
                position,
            },
        )
    } else {
        None
    }
}

/// The abstract state of a planner.
pub struct PlannerView {
    /// Current position within the entries, or `None` before anchoring.
    pub cursor: Option<usize>,
    /// Memoized successor of the cursor.
    pub pending: Option<PlannedTrack>,
    /// Positions that failed permanently within the current revision.
    pub failed: Set<usize>,
    /// Consecutive failures since the last successful start.
    pub streak: usize,
    pub exhausted: bool,
    pub enabled: bool,
}

/// First slot in `from..to` whose position has not failed.
pub open spec fn first_open_slot(order: Seq<usize>, failed: Set<usize>, from: int, to: int) -> Option<int>
    decreases to - from,
{
    if from >= to {
        None
    } else if !failed.contains(order[from]) {
        Some(from)
    } else {
        first_open_slot(order, failed, from + 1, to)
    }
}

pub proof fn lemma_first_open_slot_range(order: Seq<usize>, failed: Set<usize>, from: int, to: int)
    ensures
        first_open_slot(order, failed, from, to) matches Some(s) ==> from <= s < to && !failed.contains(order[s]),
    decreases to - from,
{
    if from < to && failed.contains(order[from]) {
        lemma_first_open_slot_range(order, failed, from + 1, to);
    }
}

/// The search stops at the nearest open slot: every slot it passes holds a
/// failed position, and when it finds none, every slot of the range does.
proof fn lemma_first_open_slot_nearest(order: Seq<usize>, failed: Set<usize>, from: int, to: int)
    ensures
        match first_open_slot(order, failed, from, to) {
            Some(t) => from <= t < to && !failed.contains(order[t]) && forall|u: int|
                from <= u < t ==> failed.contains(#[trigger] order[u]),
            None => forall|u: int| from <= u < to ==> failed.contains(#[trigger] order[u]),
        },
    decreases to - from,
{
    if from < to && failed.contains(order[from]) {
        lemma_first_open_slot_nearest(order, failed, from + 1, to);
    }
}

/// The slot after the cursor's, or 0 when the cursor is unset or unknown.
pub open spec fn start_slot(p: PlannerView, m: ManifestView) -> int {
    match p.cursor {
        Some(c) => match m.slot_of(c) {
            Some(s) => s + 1,
            None => 0,
        },
        None => 0,
    }
}

/// The track in the first open slot of `from..to`, if any.
pub open spec fn open_track(m: ManifestView, failed: Set<usize>, from: int, to: int) -> Option<PlannedTrack> {
    match first_open_slot(m.order, failed, from, to) {
        Some(s) => planned_at(m, m.order[s]),
        None => None,
    }
}

/// The successor of the cursor and the manifest after deciding it.
///
/// Single mode repeats the cursor. Otherwise the walk goes forward through the
/// traversal order from the slot after the cursor, skipping failed positions.
/// Past the end it stops unless the list repeats; a repeating normal list goes
/// on from slot 0, and a repeating random list is reshuffled (keeping the
/// cursor off the front) and walked from the new slot 0.
pub open spec fn successor(p: PlannerView, m: ManifestView) -> (Option<PlannedTrack>, ManifestView) {
    if m.mode == NativePlaybackMode::Single {
        (
            match p.cursor {
                Some(c) => planned_at(m, c),
                None => None,
            },
            m,
        )
    } else {
        let len = m.len() as int;
        let start = start_slot(p, m);
        match first_open_slot(m.order, p.failed, start, len) {
            Some(s) => (planned_at(m, m.order[s]), m),
            None => if start == 0 || !m.repeat_list {
                (None, m)
            } else if m.mode == NativePlaybackMode::Random {
                let r = m.reshuffled(p.cursor);
                (open_track(r, p.failed, 0, len), r)
            } else {
                (open_track(m, p.failed, 0, start), m)
            },
        }
    }
}

/// The memoized plan still names the entry at its position.
pub open spec fn memo_holds(pending: Option<PlannedTrack>, m: ManifestView) -> bool {
    match pending {
        Some(t) => t.position < m.len() && identity_key(m.entries[t.position as int].identity)
            == identity_key(t.identity),
        None => false,
    }
}

/// Result of `peek_next`: the planned track, the planner and the manifest after.
pub open spec fn peek_outcome(p: PlannerView, m: ManifestView) -> (
    Option<PlannedTrack>,
    PlannerView,
    ManifestView,
) {
    if !p.enabled || p.exhausted || m.len() == 0 {
        (None, p, m)
    } else if memo_holds(p.pending, m) {
        (p.pending, p, m)
    } else {
        let (next, m2) = successor(p, m);
        (next, PlannerView { pending: next, ..p }, m2)
    }
}

/// Failures after `mark_failed(position, permanent)`, and whether that call
/// has just made the planner exhausted (an already exhausted planner stays
/// exhausted and reports `false`).
pub open spec fn failure_outcome(p: PlannerView, m: ManifestView, position: usize, permanent: bool) -> (
    PlannerView,
    bool,
) {
    let failed = if permanent {
        p.failed.insert(position)
    } else {
        p.failed
    };
    let streak = (p.streak + 1) as usize;
    let exhaust = streak >= MAX_CONSECUTIVE_FAILURES || (m.len() > 0 && failed.len() >= m.len());
    (
        PlannerView {
            failed,
            streak,
            pending: None,
            exhausted: if exhaust {
                true
            } else {
                p.exhausted
            },
            ..p
        },
        exhaust && !p.exhausted,
    )
}

/// The track in an open slot of a valid manifest exists and is the entry at
/// that slot's position.
pub proof fn lemma_open_track(m: ManifestView, failed: Set<usize>, from: int, to: int)
    requires
        m.valid(),
        0 <= from,
        to <= m.len(),
    ensures
        first_open_slot(m.order, failed, from, to) matches Some(s) ==> open_track(m, failed, from, to)
            == planned_at(m, m.order[s]) && m.order[s] < m.len(),
        first_open_slot(m.order, failed, from, to) is None ==> open_track(m, failed, from, to) is None,
        open_track(m, failed, from, to) matches Some(t) ==> memo_holds(Some(t), m),
{
    lemma_first_open_slot_range(m.order, failed, from, to);
}

/// Deciding what plays next is stable: once `peek_next` has planned a track,
/// asking again returns the same track and changes nothing, however the plan
/// was reached (a reshuffle at a random-mode pass boundary included).
pub proof fn lemma_peek_is_stable(p: PlannerView, m: ManifestView)
    requires
        m.valid(),
        peek_outcome(p, m).0 is Some,
    ensures
        peek_outcome(peek_outcome(p, m).1, peek_outcome(p, m).2) == peek_outcome(p, m),
{
    if !p.enabled || p.exhausted || m.len() == 0 || memo_holds(p.pending, m) {
    } else if m.mode == NativePlaybackMode::Single {
    } else {
        let len = m.len() as int;
        let start = start_slot(p, m);
        lemma_first_open_slot_range(m.order, p.failed, start, len);
        if let Some(c) = p.cursor {
            if m.order.contains(c) {
                let s = choose|t: int| 0 <= t < m.order.len() && m.order[t] == c;
            }
        }
        if first_open_slot(m.order, p.failed, start, len) is None && start != 0 && m.repeat_list
            && m.mode == NativePlaybackMode::Random {
            lemma_reshuffled_valid(m, p.cursor);
            lemma_open_track(m.reshuffled(p.cursor), p.failed, 0, len);
        } else if first_open_slot(m.order, p.failed, start, len) is None && start != 0 && m.repeat_list {
            lemma_open_track(m, p.failed, 0, start);
        }
    }
}

/// Within a pass the walk follows the traversal order: with the cursor at
/// slot `s` and the next slot's track not failed, the successor is that track
/// and the manifest is left as it is. Since the order is a permutation, a pass
/// plays every track once.
pub proof fn lemma_advance_follows_order(p: PlannerView, m: ManifestView, s: int)
    requires
        m.valid(),
        m.mode != NativePlaybackMode::Single,
        0 <= s,
        s + 1 < m.len(),
        p.cursor == Some(m.order[s]),
        !p.failed.contains(m.order[s + 1]),
    ensures
        successor(p, m) == (planned_at(m, m.order[s + 1]), m),
{
    lemma_slot_of_order(m, s);
}

/// At the end of a repeating random pass the list is reshuffled, and the next
/// track is never the one that just finished (lists of two or more tracks, no
/// failures).
pub proof fn lemma_random_wrap_never_replays(p: PlannerView, m: ManifestView)
    requires
        m.valid(),
        m.mode == NativePlaybackMode::Random,
        m.repeat_list,
        m.len() > 1,
        p.cursor == Some(m.order[m.len() - 1]),
        p.failed.is_empty(),
    ensures
        successor(p, m).1 == m.reshuffled(p.cursor),
        successor(p, m).0 matches Some(t) && t.position != m.order[m.len() - 1],
{
    let len = m.len() as int;
    lemma_slot_of_order(m, len - 1);
    lemma_reshuffled_valid(m, p.cursor);
    let r = m.reshuffled(p.cursor);
    assert(!p.failed.contains(r.order[0]));
    let c = m.order[len - 1];
    lemma_shuffle_pass_permutation(m.order, m.shuffle_state, m.order.len(), m.entries.len());
    let o = shuffle_pass(m.order, m.shuffle_state, m.order.len()).0;
    if o[0] == c {
        assert(r.order[0] == o[len - 1]);
    }
}

/// A normal list that repeats goes from its last slot back to slot 0.
pub proof fn lemma_normal_wraps_when_repeating(p: PlannerView, m: ManifestView)
    requires
        m.valid(),
        m.mode == NativePlaybackMode::Normal,
        m.repeat_list,
        m.len() > 0,
        p.cursor == Some(m.order[m.len() - 1]),
        !p.failed.contains(m.order[0]),
    ensures
        successor(p, m) == (planned_at(m, m.order[0]), m),
{
    lemma_slot_of_order(m, m.len() - 1);
}

/// A list that does not repeat stops at its last slot.
pub proof fn lemma_stops_at_end_without_repeat(p: PlannerView, m: ManifestView)
    requires
        m.valid(),
        m.mode != NativePlaybackMode::Single,
        !m.repeat_list,
        m.len() > 0,
        p.cursor == Some(m.order[m.len() - 1]),
    ensures
        successor(p, m) == (None::<PlannedTrack>, m),
{
    lemma_slot_of_order(m, m.len() - 1);
}

/// Single mode repeats the track under the cursor.
pub proof fn lemma_single_repeats_current(p: PlannerView, m: ManifestView, c: usize)
    requires
        m.mode == NativePlaybackMode::Single,
        p.cursor == Some(c),
        c < m.len(),
    ensures
        successor(p, m) == (planned_at(m, c), m),
        successor(p, m).0 matches Some(t) && t.position == c,
{
}

/// A disabled or exhausted planner never advances and changes nothing.
pub proof fn lemma_gated_planner_never_advances(p: PlannerView, m: ManifestView)
    requires
        !p.enabled || p.exhausted,
    ensures
        peek_outcome(p, m) == (None::<PlannedTrack>, p, m),
{
}

/// A transient failure counts toward the streak but never blacklists the track.
pub proof fn lemma_transient_failure_keeps_track(p: PlannerView, m: ManifestView, position: usize)
    requires
        p.streak < usize::MAX,
    ensures
        failure_outcome(p, m, position, false).0.failed == p.failed,
        failure_outcome(p, m, position, false).0.streak == p.streak + 1,
{
}

/// Reaching the consecutive-failure cap always exhausts the planner, and the
/// call reports it exactly when the planner was not exhausted before.
pub proof fn lemma_failure_cap_exhausts(p: PlannerView, m: ManifestView, position: usize, permanent: bool)
    requires
        p.streak < usize::MAX,
        p.streak + 1 >= MAX_CONSECUTIVE_FAILURES,
    ensures
        failure_outcome(p, m, position, permanent).1 == !p.exhausted,
        failure_outcome(p, m, position, permanent).0.exhausted,
{
}

/// When some slot of `from..to` is open, the search finds one.
proof fn lemma_open_slot_found(order: Seq<usize>, failed: Set<usize>, from: int, to: int, s: int)
    requires
        from <= s < to,
        !failed.contains(order[s]),
    ensures
        first_open_slot(order, failed, from, to) is Some,
    decreases to - from,
{
    if failed.contains(order[from]) {
        lemma_open_slot_found(order, failed, from + 1, to, s);
    }
}

/// The slot after the cursor's lies in `0..=len`.
proof fn lemma_start_slot_range(p: PlannerView, m: ManifestView)
    requires
        m.valid(),
    ensures
        0 <= start_slot(p, m) <= m.len(),
        match p.cursor {
            Some(c) => match m.slot_of(c) {
                Some(s) => 0 <= s < m.len() && m.order[s] == c && start_slot(p, m) == s + 1,
                None => start_slot(p, m) == 0 && !m.order.contains(c),
            },
            None => start_slot(p, m) == 0,
        },
{
    if let Some(c) = p.cursor {
        if m.order.contains(c) {
            let k = choose|s: int| 0 <= s < m.order.len() && m.order[s] == c;
            assert(m.slot_of(c) == Some(k));
            assert(0 <= k < m.len() && m.order[k] == c);
        }
    }
}

/// A repeating list that is not in single mode never stalls: an enabled
/// planner that is not exhausted, with at least one position of the list not
/// marked failed, always plans a track, so alternating `peek_next` and
/// `commit` goes on across pass boundaries.
pub proof fn lemma_repeating_list_always_plans(p: PlannerView, m: ManifestView, q: usize)
    requires
        m.valid(),
        m.mode != NativePlaybackMode::Single,
        m.repeat_list,
        p.enabled,
        !p.exhausted,
        q < m.len(),
        !p.failed.contains(q),
    ensures
        peek_outcome(p, m).0 is Some,
{
    if !memo_holds(p.pending, m) {
        let len = m.len() as int;
        lemma_permutation_covers(m.order, m.len(), q);
        let sq = choose|s: int| 0 <= s < m.order.len() && m.order[s] == q;
        lemma_start_slot_range(p, m);
        let start = start_slot(p, m);
        lemma_first_open_slot_range(m.order, p.failed, start, len);
        if let Some(s) = first_open_slot(m.order, p.failed, start, len) {
            assert(m.order[s] < m.len());
        } else {
            if sq >= start {
                lemma_open_slot_found(m.order, p.failed, start, len, sq);
            }
            assert(start > 0);
            if m.mode == NativePlaybackMode::Random {
                let r = m.reshuffled(p.cursor);
                lemma_reshuffled_valid(m, p.cursor);
                lemma_permutation_covers(r.order, r.len(), q);
                let sr = choose|s: int| 0 <= s < r.order.len() && r.order[s] == q;
                lemma_open_slot_found(r.order, p.failed, 0, len, sr);
                lemma_open_track(r, p.failed, 0, len);
            } else {
                lemma_open_slot_found(m.order, p.failed, 0, start, sq);
                lemma_open_track(m, p.failed, 0, start);
            }
        }
    }
}

/// No back-to-back repeat in random mode: with a repeating list of two or
/// more tracks and no failed positions, the track planned after cursor `c` is
/// never `c` itself, inside a pass and across the reshuffle at its end alike.
/// Planning keeps this true of the state it leaves (a memoized plan never
/// names the cursor, the manifest stays a valid repeating random list of the
/// same length), and `commit` drops the plan, so it holds at every step of
/// alternating `peek_next` and `commit`. Left out: a memoized plan that
/// already names the cursor, which planning in random mode never leaves.
pub proof fn lemma_random_never_repeats_back_to_back(p: PlannerView, m: ManifestView, c: usize)
    requires
        m.valid(),
        m.mode == NativePlaybackMode::Random,
        m.repeat_list,
        m.len() >= 2,
        p.failed.is_empty(),
        p.enabled,
        !p.exhausted,
        p.cursor == Some(c),
        p.pending matches Some(t) ==> t.position != c,
    ensures
        peek_outcome(p, m).0 matches Some(t) && t.position != c,
        peek_outcome(p, m).1.cursor == p.cursor,
        peek_outcome(p, m).1.failed == p.failed,
        peek_outcome(p, m).1.pending matches Some(t) ==> t.position != c,
        peek_outcome(p, m).2.valid(),
        peek_outcome(p, m).2.mode == NativePlaybackMode::Random,
        peek_outcome(p, m).2.repeat_list,
        peek_outcome(p, m).2.len() == m.len(),
{
    if !memo_holds(p.pending, m) {
        let len = m.len() as int;
        lemma_start_slot_range(p, m);
        lemma_reshuffled_valid(m, p.cursor);
        match m.slot_of(c) {
            Some(s) => {
                if s + 1 < len {
                    assert(!p.failed.contains(m.order[s + 1]));
                    assert(m.order[s + 1] != m.order[s]);
                    assert(m.order[s + 1] < m.len());
                } else {
                    lemma_random_wrap_never_replays(p, m);
                }
            },
            None => {
                assert(!p.failed.contains(m.order[0]));
                assert(m.order[0] < m.len());
                assert(!m.order.contains(c));
                assert(m.order[0] != c);
            },
        }
    }
}

/// Inside a pass the planner skips exactly the failed tracks: with the cursor
/// on slot `s` of the traversal order (normal or random mode) and no plan
/// remembered, the planned track is the entry at the nearest later slot `t`
/// whose position has not failed, every slot strictly between them holding a
/// failed position, and the manifest is left as it was.
pub proof fn lemma_next_is_nearest_open_slot(p: PlannerView, m: ManifestView, s: int, t: int)
    requires
        m.valid(),
        m.mode != NativePlaybackMode::Single,
        p.enabled,
        !p.exhausted,
        p.pending is None,
        0 <= s < t < m.len(),
        p.cursor == Some(m.order[s]),
        !p.failed.contains(m.order[t]),
        forall|u: int| s < u < t ==> p.failed.contains(#[trigger] m.order[u]),
    ensures
        peek_outcome(p, m).0 == Some(
            PlannedTrack {
                identity: m.entries[m.order[t] as int].identity,
                playlist_index: m.entries[m.order[t] as int].playlist_index,
                position: m.order[t],
            },
        ),
        peek_outcome(p, m).2 == m,
{
    lemma_slot_of_order(m, s);
    lemma_start_slot_range(p, m);
    let len = m.len() as int;
    lemma_first_open_slot_nearest(m.order, p.failed, s + 1, len);
    match first_open_slot(m.order, p.failed, s + 1, len) {
        Some(f) => {
            if f < t {
                assert(p.failed.contains(m.order[f]));
            }
            if t < f {
                assert(p.failed.contains(m.order[t]));
            }
            assert(f == t);
        },
        None => {
            assert(p.failed.contains(m.order[t]));
        },
    }
    assert(m.order[t] < m.len());
}

/// At the end of a pass in normal mode: with every slot after the cursor's
/// holding a failed position, a repeating list goes on from the nearest open
/// slot `t` counted from the start of the order (the cursor's own slot
/// included), and a list that does not repeat plans nothing; the manifest is
/// left as it was.
pub proof fn lemma_normal_pass_end(p: PlannerView, m: ManifestView, s: int)
    requires
        m.valid(),
        m.mode == NativePlaybackMode::Normal,
        p.enabled,
        !p.exhausted,
        p.pending is None,
        0 <= s < m.len(),
        p.cursor == Some(m.order[s]),
        forall|u: int| s < u < m.len() ==> p.failed.contains(#[trigger] m.order[u]),
    ensures
        !m.repeat_list ==> peek_outcome(p, m).0 is None,
        forall|t: int|
            0 <= t <= s && !p.failed.contains(#[trigger] m.order[t]) && (forall|u: int|
                0 <= u < t ==> p.failed.contains(#[trigger] m.order[u])) && m.repeat_list
                ==> peek_outcome(p, m).0 == Some(
                PlannedTrack {
                    identity: m.entries[m.order[t] as int].identity,
                    playlist_index: m.entries[m.order[t] as int].playlist_index,
                    position: m.order[t],
                },
            ),
        peek_outcome(p, m).2 == m,
{
    lemma_slot_of_order(m, s);
    lemma_start_slot_range(p, m);
    let len = m.len() as int;
    lemma_first_open_slot_nearest(m.order, p.failed, s + 1, len);
    lemma_first_open_slot_nearest(m.order, p.failed, 0, s + 1);
    if let Some(f) = first_open_slot(m.order, p.failed, s + 1, len) {
        assert(p.failed.contains(m.order[f]));
    }
    assert forall|t: int|
        0 <= t <= s && !p.failed.contains(#[trigger] m.order[t]) && (forall|u: int|
            0 <= u < t ==> p.failed.contains(#[trigger] m.order[u])) && m.repeat_list
            implies peek_outcome(p, m).0 == Some(
            PlannedTrack {
                identity: m.entries[m.order[t] as int].identity,
                playlist_index: m.entries[m.order[t] as int].playlist_index,
                position: m.order[t],
            },
        ) by {
        match first_open_slot(m.order, p.failed, 0, s + 1) {
            Some(f) => {
                if f < t {
                    assert(p.failed.contains(m.order[f]));
                }
                if t < f {
                    assert(p.failed.contains(m.order[t]));
                }
                assert(m.order[t] < m.len());
            },
            None => {
                assert(p.failed.contains(m.order[t]));
            },
        }
    }
}

/// Positions played by `k` rounds of `peek_next` followed by `commit` of the
/// planned track; the rounds stop early when nothing is planned.
pub open spec fn played_after(p: PlannerView, m: ManifestView, k: nat) -> Seq<usize>
    decreases k,
{
    if k == 0 {
        Seq::empty()
    } else {
        let (next, p2, m2) = peek_outcome(p, m);
        match next {
            Some(t) => seq![t.position] + played_after(
                PlannerView { cursor: Some(t.position), pending: None, ..p2 },
                m2,
                (k - 1) as nat,
            ),
            None => Seq::empty(),
        }
    }
}

/// From slot `s`, the remaining rounds of a pass walk the rest of the order.
proof fn lemma_rest_of_pass(p: PlannerView, m: ManifestView, s: int)
    requires
        m.valid(),
        m.mode != NativePlaybackMode::Single,
        0 <= s < m.len(),
        p.cursor == Some(m.order[s]),
        p.pending is None,
        p.failed.is_empty(),
        p.enabled,
        !p.exhausted,
    ensures
        played_after(p, m, (m.len() - 1 - s) as nat) == m.order.subrange(s + 1, m.len() as int),
    decreases m.len() - s,
{
    let len = m.len() as int;
    if s + 1 < len {
        lemma_advance_follows_order(p, m, s);
        let next = m.order[s + 1];
        assert(next < m.len());
        let p3 = PlannerView { cursor: Some(next), pending: None, ..p };
        assert(peek_outcome(p, m) == (planned_at(m, next), PlannerView { pending: planned_at(m, next), ..p }, m));
        lemma_rest_of_pass(p3, m, s + 1);
        assert(played_after(p, m, (len - 1 - s) as nat) == seq![next] + played_after(p3, m, (len - 1 - (s + 1)) as nat));
        assert(seq![next] + m.order.subrange(s + 2, len) =~= m.order.subrange(s + 1, len));
    } else {
        assert(m.order.subrange(s + 1, len) =~= Seq::<usize>::empty());
    }
}

/// Every track plays once per pass: a planner on the first slot of the
/// traversal order, with no failures, plays the rest of the order in the next
/// `len - 1` rounds, so the pass covers every entry exactly once. Single mode
/// repeats the current track and is left out.
pub proof fn lemma_pass_plays_every_track_once(p: PlannerView, m: ManifestView)
    requires
        m.valid(),
        m.mode != NativePlaybackMode::Single,
        m.len() > 0,
        p.cursor == Some(m.order[0]),
        p.pending is None,
        p.failed.is_empty(),
        p.enabled,
        !p.exhausted,
    ensures
        seq![m.order[0]] + played_after(p, m, (m.len() - 1) as nat) == m.order,
        is_permutation(seq![m.order[0]] + played_after(p, m, (m.len() - 1) as nat), m.len()),
{
    lemma_rest_of_pass(p, m, 0);
    assert(seq![m.order[0]] + m.order.subrange(1, m.len() as int) =~= m.order);
}

/// Whether `v` holds `p`.
fn holds_position(v: &Vec<usize>, p: usize) -> (r: bool)
    ensures
        r == v@.contains(p),
{
    let mut i: usize = 0;
    while i < v.len()
        invariant
            i <= v@.len(),
            forall|k: int| 0 <= k < i ==> v@[k] != p,
        decreases v@.len() - i,
    {
        if v[i] == p {
            return true;
        }
        i = i + 1;
    }
    false
}

/// `v` without `p`.
fn without_position(v: &Vec<usize>, p: usize) -> (r: Vec<usize>)
    requires
        v@.no_duplicates(),
    ensures
        r@.no_duplicates(),
        r@.to_set() == v@.to_set().remove(p),
{
    broadcast use vstd::seq_lib::group_seq_properties;

    let mut r: Vec<usize> = Vec::new();
    let mut i: usize = 0;
    while i < v.len()
        invariant
            i <= v@.len(),
            v@.no_duplicates(),
            r@.no_duplicates(),
            forall|x: usize| r@.contains(x) <==> (x != p && v@.subrange(0, i as int).contains(x)),
        decreases v@.len() - i,
    {
        let x = v[i];
        let ghost before = r@;
        let ghost seen = v@.subrange(0, i as int);
        let ghost seen2 = v@.subrange(0, i + 1);
        assert(seen2 =~= seen.push(x));
        if x != p {
            proof {
                if r@.contains(x) {
                    let k = choose|k: int| 0 <= k < seen.len() && #[trigger] seen[k] == x;
                    assert(v@[k] == v@[i as int]);
                }
            }
            r.push(x);
        }
        proof {
            assert forall|y: usize| r@.contains(y) <==> (y != p && v@.subrange(0, i + 1).contains(y)) by {
                if r@.contains(y) {
                    let j = choose|j: int| 0 <= j < r@.len() && #[trigger] r@[j] == y;
                    if x != p && j == r@.len() - 1 {
                        assert(seen2[i as int] == y);
                    } else {
                        assert(before[j] == y);
                        assert(before.contains(y));
                        let k = choose|k: int| 0 <= k < seen.len() && #[trigger] seen[k] == y;
                        assert(seen2[k] == y);
                    }
                }
                if y != p && seen2.contains(y) {
                    let k = choose|k: int| 0 <= k < seen2.len() && #[trigger] seen2[k] == y;
                    if k == i {
                        assert(r@[r@.len() - 1] == y);
                    } else {
                        assert(seen[k] == y);
                        assert(before.contains(y));
                        let j = choose|j: int| 0 <= j < before.len() && #[trigger] before[j] == y;
                        assert(r@[j] == y);
                    }
                }
            }
        }
        i = i + 1;
    }
    proof {
        assert(v@.subrange(0, v@.len() as int) =~= v@);
        assert(r@.to_set() =~= v@.to_set().remove(p));
    }
    r
}

/// Playback planner: cursor, memoized successor and failure bookkeeping.
#[derive(Debug)]
pub struct Planner {
    cursor_position: Option<usize>,
    pending_next: Option<PlannedTrack>,
    failed: Vec<usize>,
    consecutive_failures: usize,
    exhausted: bool,
    enabled: bool,
}

impl View for Planner {
    type V = PlannerView;

    closed spec fn view(&self) -> PlannerView {
        PlannerView {
            cursor: self.cursor_position,
            pending: self.pending_next,
            failed: self.failed@.to_set(),
            streak: self.consecutive_failures,
            exhausted: self.exhausted,
            enabled: self.enabled,
        }
    }
}

impl Planner {
    /// Failed positions are recorded once each.
    #[verifier::type_invariant]
    closed spec fn failed_unique(&self) -> bool {
        self.failed@.no_duplicates()
    }

    /// A fresh planner: no cursor, no plan, no failures, enabled.
    pub fn new() -> (planner: Planner)
        ensures
            planner@ == (PlannerView {
                cursor: None,
                pending: None,
                failed: Set::empty(),
                streak: 0,
                exhausted: false,
                enabled: true,
            }),
    {
        let planner = Planner {
            cursor_position: None,
            pending_next: None,
            failed: Vec::new(),
            consecutive_failures: 0,
            exhausted: false,
            enabled: true,
        };
        assert(planner.failed@.to_set() =~= Set::empty());
        planner
    }

    pub fn is_enabled(&self) -> (enabled: bool)
        ensures
            enabled == self@.enabled,
    {
        self.enabled
    }

    /// Gate the planner (personal FM, listen-together).
    pub fn set_enabled(&mut self, enabled: bool)
        ensures
            final(self)@ == (PlannerView { enabled, ..old(self)@ }),
    {
        proof {
            use_type_invariant(&*self);
        }
        self.enabled = enabled;
    }

    pub fn is_exhausted(&self) -> (exhausted: bool)
        ensures
            exhausted == self@.exhausted,
    {
        self.exhausted
    }

    /// Number of positions that failed permanently in this revision.
    pub fn failure_count(&self) -> (count: usize)
        ensures
            self@.failed.finite(),
            count == self@.failed.len(),
    {
        proof {
            use_type_invariant(self);
            self.failed@.unique_seq_to_set();
            vstd::seq_lib::seq_to_set_is_finite(self.failed@);
        }
        self.failed.len()
    }

    pub fn cursor_position(&self) -> (position: Option<usize>)
        ensures
            position == self@.cursor,
    {
        self.cursor_position
    }

    /// The track under the cursor, if the cursor is set and inside the manifest.
    pub fn cursor(&self, manifest: &ManifestStore) -> (track: Option<PlannedTrack>)
        ensures
            track == match self@.cursor {
                Some(c) => planned_at(manifest@, c),
                None => None,
            },
    {
        let position = match self.cursor_position {
            Some(p) => p,
            None => return None,
        };
        plan_at(manifest, position)
    }

    /// Reset per-revision state when a new manifest is accepted: failures from
    /// the previous revision are forgotten, an exhausted planner comes back to
    /// life, and the cursor moves to the manifest's declared track.
    pub fn reset_for_new_manifest(&mut self, manifest: &ManifestStore)
        ensures
            final(self)@ == (PlannerView {
                cursor: match manifest@.declared_cursor {
                    Some(key) => match manifest@.position_of_key(key) {
                        Some(p) => Some(p as usize),
                        None => None,
                    },
                    None => None,
                },
                pending: None,
                failed: Set::empty(),
                streak: 0,
                exhausted: false,
                enabled: old(self)@.enabled,
            }),
    {
        self.failed = Vec::new();
        self.consecutive_failures = 0;
        self.exhausted = false;
        self.pending_next = None;
        self.cursor_position = match manifest.declared_cursor_key() {
            Some(key) => manifest.position_of_key(key.as_str()),
            None => None,
        };
        assert(self.failed@.to_set() =~= Set::empty());
    }

    /// Re-anchor the cursor onto the track with key `key`. A track that
    /// actually started clears the failure streak and its own failure record.
    /// Returns `false`, changing nothing, when no entry has that key.
    pub fn anchor_to_key(&mut self, manifest: &ManifestStore, key: &str) -> (found: bool)
        ensures
            found == manifest@.position_of_key(key@) is Some,
            !found ==> final(self)@ == old(self)@,
            found ==> final(self)@ == (PlannerView {
                cursor: Some(manifest@.position_of_key(key@)->0 as usize),
                pending: None,
                failed: old(self)@.failed.remove(manifest@.position_of_key(key@)->0 as usize),
                streak: 0,
                exhausted: false,
                ..old(self)@
            }),
    {
        proof {
            use_type_invariant(&*self);
        }
        let position = match manifest.position_of_key(key) {
            Some(p) => p,
            None => return false,
        };
        self.cursor_position = Some(position);
        self.pending_next = None;
        self.consecutive_failures = 0;
        self.exhausted = false;
        self.failed = without_position(&self.failed, position);
        true
    }

    /// Decide the successor of the cursor without moving it. Memoized: the
    /// same track comes back until the cursor moves or the plan is dropped,
    /// so the random-mode reshuffle at a pass boundary happens once.
    pub fn peek_next(&mut self, manifest: &mut ManifestStore) -> (next: Option<PlannedTrack>)
        ensures
            (next, final(self)@, final(manifest)@) == peek_outcome(old(self)@, old(manifest)@),
            final(manifest)@.valid(),
    {
        proof {
            use_type_invariant(&*self);
            use_type_invariant(&*manifest);
        }
        if !self.enabled || self.exhausted || manifest.is_empty() {
            return None;
        }
        match &self.pending_next {
            Some(pending) => {
                let entry = manifest.entry_at(pending.position);
                match entry {
                    Some(entry) => {
                        let current = entry.identity.key();
                        let planned = pending.identity.key();
                        if crate::text::same_text(current.as_str(), planned.as_str()) {
                            return Some(pending.duplicate());
                        }
                    },
                    None => {},
                }
            },
            None => {},
        }
        self.pending_next = None;
        let planned = self.compute_next(manifest);
        self.pending_next = match &planned {
            Some(t) => Some(t.duplicate()),
            None => None,
        };
        planned
    }

    /// First slot in `from..to` whose position has not failed.
    fn first_open(&self, manifest: &ManifestStore, from: usize, to: usize) -> (slot: Option<usize>)
        requires
            from <= to <= manifest@.order.len(),
        ensures
            match first_open_slot(manifest@.order, self@.failed, from as int, to as int) {
                Some(s) => slot == Some(s as usize),
                None => slot is None,
            },
            slot matches Some(s) ==> from <= s < to,
    {
        proof {
            lemma_first_open_slot_range(manifest@.order, self@.failed, from as int, to as int);
        }
        let mut s = from;
        while s < to
            invariant
                from <= s <= to <= manifest@.order.len(),
                first_open_slot(manifest@.order, self@.failed, s as int, to as int)
                    == first_open_slot(manifest@.order, self@.failed, from as int, to as int),
            decreases to - s,
        {
            let position = match manifest.position_at_slot(s) {
                Some(p) => p,
                None => return None,
            };
            if !holds_position(&self.failed, position) {
                proof {
                    use_type_invariant(self);
                }
                return Some(s);
            }
            s = s + 1;
        }
        None
    }

    /// The track in the first open slot of `from..to`, if any.
    fn open_in(&self, manifest: &ManifestStore, from: usize, to: usize) -> (track: Option<PlannedTrack>)
        requires
            manifest@.valid(),
            from <= to <= manifest@.order.len(),
        ensures
            track == open_track(manifest@, self@.failed, from as int, to as int),
    {
        proof {
            lemma_first_open_slot_range(manifest@.order, self@.failed, from as int, to as int);
        }
        match self.first_open(manifest, from, to) {
            Some(s) => {
                let position = match manifest.position_at_slot(s) {
                    Some(p) => p,
                    None => return None,
                };
                plan_at(manifest, position)
            },
            None => None,
        }
    }

    fn compute_next(&self, manifest: &mut ManifestStore) -> (r: Option<PlannedTrack>)
        requires
            old(manifest)@.valid(),
        ensures
            (r, final(manifest)@) == successor(self@, old(manifest)@),
            final(manifest)@.valid(),
    {
        if manifest.mode() == NativePlaybackMode::Single {
            let position = match self.cursor_position {
                Some(p) => p,
                None => return None,
            };
            return plan_at(manifest, position);
        }
        let len = manifest.len();
        let start = match self.cursor_position {
            Some(c) => match manifest.slot_of_position(c) {
                Some(s) => s + 1,
                None => 0,
            },
            None => 0,
        };
        let ahead = self.open_in(manifest, start, len);
        if ahead.is_some() {
            return ahead;
        }
        proof {
            lemma_first_open_slot_range(manifest@.order, self@.failed, start as int, len as int);
        }
        if start == 0 || !manifest.repeat_list() {
            return None;
        }
        if manifest.mode() == NativePlaybackMode::Random {
            // Crossing the pass boundary: a different permutation for the next
            // pass, with the just-finished track kept off the front.
            manifest.reshuffle_random(self.cursor_position);
            return self.open_in(manifest, 0, len);
        }
        self.open_in(manifest, 0, start)
    }

    /// Move the cursor onto `track`, once the backend committed to playing it.
    pub fn commit(&mut self, track: &PlannedTrack)
        ensures
            final(self)@ == (PlannerView { cursor: Some(track.position), pending: None, ..old(self)@ }),
    {
        proof {
            use_type_invariant(&*self);
        }
        self.cursor_position = Some(track.position);
        self.pending_next = None;
    }

    /// Drop the memoized plan without moving the cursor.
    pub fn invalidate_plan(&mut self)
        ensures
            final(self)@ == (PlannerView { pending: None, ..old(self)@ }),
    {
        proof {
            use_type_invariant(&*self);
        }
        self.pending_next = None;
    }

    /// Record that `position` could not be resolved or played; returns `true`
    /// when this call has just made the planner exhausted. A permanent failure blacklists the
    /// position; a transient one only counts toward the streak.
    pub fn mark_failed(&mut self, position: usize, manifest: &ManifestStore, permanent: bool) -> (exhausted: bool)
        requires
            old(self)@.streak < usize::MAX,
        ensures
            (final(self)@, exhausted) == failure_outcome(old(self)@, manifest@, position, permanent),
    {
        proof {
            use_type_invariant(&*self);
        }
        broadcast use vstd::seq_lib::group_seq_properties;

        if permanent && !holds_position(&self.failed, position) {
            let mut failed = self.failed.clone();
            assert(failed@ =~= old(self).failed@);
            failed.push(position);
            self.failed = failed;
            proof {
                assert(self.failed@.to_set() =~= old(self)@.failed.insert(position));
            }
        }
        proof {
            assert(permanent ==> self.failed@.to_set() =~= old(self)@.failed.insert(position));
            self.failed@.unique_seq_to_set();
        }
        self.consecutive_failures = self.consecutive_failures + 1;
        self.pending_next = None;
        if self.consecutive_failures >= MAX_CONSECUTIVE_FAILURES || (!manifest.is_empty()
            && self.failed.len() >= manifest.len()) {
            let newly = !self.exhausted;
            self.exhausted = true;
            return newly;
        }
        false
    }

    /// Clear the failure streak once a track at `position` started playing.
    pub fn mark_started(&mut self, position: usize)
        ensures
            final(self)@ == (PlannerView {
                streak: 0,
                failed: old(self)@.failed.remove(position),
                ..old(self)@
            }),
    {
        proof {
            use_type_invariant(&*self);
        }
        self.consecutive_failures = 0;
        self.failed = without_position(&self.failed, position);
    }
}

/// The track at `position` of `manifest`, if there is one.
fn plan_at(manifest: &ManifestStore, position: usize) -> (track: Option<PlannedTrack>)
    ensures
        track == planned_at(manifest@, position),
{
    match manifest.entry_at(position) {
        Some(entry) => Some(
            PlannedTrack {
                identity: entry.identity.duplicate(),
                playlist_index: entry.playlist_index,
                position,
            },
        ),
        None => None,
    }
}

} // verus!
