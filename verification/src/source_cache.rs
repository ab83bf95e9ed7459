//! One-ahead resolved-source cache.
//!
//! Holds at most one prepared source (the planner's next track). Every
//! prefetch carries the generation it was started under; a result whose
//! generation no longer matches is dropped on arrival, which is what makes
//! list edits, clears and manual skips safe while a resolve is in flight.

use vstd::prelude::*;

use crate::source_resolver::{ResolveError, ResolvedSource, SourceView};
use crate::types::TrackIdentity;

verus! {

/// Outcome of a prefetch task, delivered back to the player loop.
#[derive(Debug)]
pub struct PrefetchResult {
    pub generation: u64,
    pub manifest_revision: u64,
    /// Position in the manifest this prefetch was for.
    pub position: usize,
    pub outcome: Result<ResolvedSource, ResolveError>,
}

#[derive(Debug)]
struct PreparedSource {
    position: usize,
    source: ResolvedSource,
}

/// The abstract state of the cache.
pub struct CacheView {
    /// The prepared source and the manifest position it is for.
    pub prepared: Option<(usize, SourceView)>,
    /// Generation of the newest issued prefetch.
    pub generation: u64,
    /// A prefetch for the current generation is outstanding.
    pub in_flight: bool,
}

/// One-ahead cache of the resolved source for the next track.
#[derive(Debug)]
pub struct SourceCache {
    prepared: Option<PreparedSource>,
    generation: u64,
    in_flight: bool,
}

impl View for SourceCache {
    type V = CacheView;

    closed spec fn view(&self) -> CacheView {
        CacheView {
            prepared: match self.prepared {
                Some(p) => Some((p.position, p.source@)),
                None => None,
            },
            generation: self.generation,
            in_flight: self.in_flight,
        }
    }
}

/// The generation after `g`, wrapping around.
pub open spec fn next_generation(g: u64) -> u64 {
    if g == u64::MAX {
        0
    } else {
        (g + 1) as u64
    }
}

/// The cache after `accept(result)`, and whether the result was adopted.
pub open spec fn accepted(c: CacheView, result: PrefetchResult) -> (CacheView, bool) {
    if result.generation != c.generation {
        (c, false)
    } else {
        (
            CacheView {
                prepared: match result.outcome {
                    Ok(source) => Some((result.position, source@)),
                    Err(_) => None,
                },
                in_flight: false,
                ..c
            },
            true,
        )
    }
}

/// A call that may change the cache: `begin_prefetch`, `invalidate`,
/// `accept` of a result, or `take_for` a position.
pub enum CacheCall {
    BeginPrefetch,
    Invalidate,
    Accept(PrefetchResult),
    TakeFor(usize),
}

/// The cache after `call`.
pub open spec fn after_call(c: CacheView, call: CacheCall) -> CacheView {
    match call {
        CacheCall::BeginPrefetch => CacheView { generation: next_generation(c.generation), in_flight: true, ..c },
        CacheCall::Invalidate => CacheView {
            prepared: None,
            generation: next_generation(c.generation),
            in_flight: false,
        },
        CacheCall::Accept(result) => accepted(c, result).0,
        CacheCall::TakeFor(position) => match c.prepared {
            Some((p, _)) => if p == position {
                CacheView { prepared: None, ..c }
            } else {
                c
            },
            None => c,
        },
    }
}

/// The cache after `calls`, made in order.
pub open spec fn after_calls(c: CacheView, calls: Seq<CacheCall>) -> CacheView
    decreases calls.len(),
{
    if calls.len() == 0 {
        c
    } else {
        after_call(after_calls(c, calls.drop_last()), calls.last())
    }
}

/// Call `i` of `calls` sets the in-flight flag one way or the other: a
/// prefetch begins, the cache is invalidated, or a result is adopted.
pub open spec fn sets_flag(c: CacheView, calls: Seq<CacheCall>, i: int) -> bool {
    match calls[i] {
        CacheCall::BeginPrefetch | CacheCall::Invalidate => true,
        CacheCall::Accept(result) => accepted(after_calls(c, calls.take(i)), result).1,
        CacheCall::TakeFor(_) => false,
    }
}

/// The last call that set the in-flight flag was a `begin_prefetch`.
pub open spec fn last_flag_was_begin(c: CacheView, calls: Seq<CacheCall>) -> bool {
    exists|i: int|
        0 <= i < calls.len() && calls[i] is BeginPrefetch && forall|j: int|
            i < j < calls.len() ==> !#[trigger] sets_flag(c, calls, j)
}

proof fn lemma_sets_flag_prefix(c: CacheView, calls: Seq<CacheCall>, j: int)
    requires
        0 <= j < calls.len() - 1,
    ensures
        sets_flag(c, calls, j) == sets_flag(c, calls.drop_last(), j),
{
    assert(calls.take(j) =~= calls.drop_last().take(j));
}

/// A prefetch is in flight exactly when the last call that set the flag (a
/// `begin_prefetch`, an `invalidate`, or an `accept` that adopted its result)
/// was a `begin_prefetch`; an `accept` of a superseded result, `take_for` and
/// the read-only calls never change it. Holds from any cache with nothing in
/// flight, such as a new one.
pub proof fn lemma_in_flight_follows_the_last_flag_setter(c: CacheView, calls: Seq<CacheCall>)
    requires
        !c.in_flight,
    ensures
        after_calls(c, calls).in_flight == last_flag_was_begin(c, calls),
    decreases calls.len(),
{
    if calls.len() > 0 {
        let n = calls.len() as int;
        let prev = calls.drop_last();
        lemma_in_flight_follows_the_last_flag_setter(c, prev);
        assert(calls.take(n - 1) =~= prev);
        assert forall|j: int| 0 <= j < n - 1 implies #[trigger] sets_flag(c, calls, j) == sets_flag(c, prev, j) by {
            lemma_sets_flag_prefix(c, calls, j);
        }
        if sets_flag(c, calls, n - 1) {
            if calls[n - 1] is BeginPrefetch {
                assert(last_flag_was_begin(c, calls));
            } else {
                if last_flag_was_begin(c, calls) {
                    let i = choose|i: int|
                        0 <= i < calls.len() && calls[i] is BeginPrefetch && forall|j: int|
                            i < j < calls.len() ==> !#[trigger] sets_flag(c, calls, j);
                    assert(!sets_flag(c, calls, n - 1));
                }
            }
        } else {
            if last_flag_was_begin(c, prev) {
                let i = choose|i: int|
                    0 <= i < prev.len() && prev[i] is BeginPrefetch && forall|j: int|
                        i < j < prev.len() ==> !#[trigger] sets_flag(c, prev, j);
                assert forall|j: int| i < j < calls.len() implies !#[trigger] sets_flag(c, calls, j) by {
                    if j < n - 1 {
                        assert(!sets_flag(c, prev, j));
                    }
                }
                assert(last_flag_was_begin(c, calls));
            }
            if last_flag_was_begin(c, calls) {
                let i = choose|i: int|
                    0 <= i < calls.len() && calls[i] is BeginPrefetch && forall|j: int|
                        i < j < calls.len() ==> !#[trigger] sets_flag(c, calls, j);
                assert(i != n - 1);
                assert forall|j: int| i < j < prev.len() implies !#[trigger] sets_flag(c, prev, j) by {
                    assert(!sets_flag(c, calls, j));
                }
                assert(prev[i] is BeginPrefetch);
                assert(last_flag_was_begin(c, prev));
            }
        }
    }
}

impl SourceCache {
    /// An empty cache at generation 0.
    pub fn new() -> (cache: SourceCache)
        ensures
            cache@ == (CacheView { prepared: None, generation: 0, in_flight: false }),
    {
        SourceCache { prepared: None, generation: 0, in_flight: false }
    }

    pub fn is_in_flight(&self) -> (in_flight: bool)
        ensures
            in_flight == self@.in_flight,
    {
        self.in_flight
    }

    /// The position the prepared source is for, if any.
    pub fn prepared_position(&self) -> (position: Option<usize>)
        ensures
            position == match self@.prepared {
                Some((p, _)) => Some(p),
                None => None::<usize>,
            },
    {
        match &self.prepared {
            Some(p) => Some(p.position),
            None => None,
        }
    }

    /// Supersede everything in flight and drop the prepared source. Returns the
    /// new generation.
    pub fn invalidate(&mut self) -> (generation: u64)
        ensures
            generation == next_generation(old(self)@.generation),
            final(self)@ == (CacheView { prepared: None, generation, in_flight: false }),
            final(self)@ == after_call(old(self)@, CacheCall::Invalidate),
    {
        self.generation = self.generation.wrapping_add(1);
        self.prepared = None;
        self.in_flight = false;
        self.generation
    }

    /// Begin a prefetch, superseding any earlier one. Returns the generation to
    /// stamp the task with.
    pub fn begin_prefetch(&mut self) -> (generation: u64)
        ensures
            generation == next_generation(old(self)@.generation),
            final(self)@ == (CacheView { generation, in_flight: true, ..old(self)@ }),
            final(self)@ == after_call(old(self)@, CacheCall::BeginPrefetch),
    {
        self.generation = self.generation.wrapping_add(1);
        self.in_flight = true;
        self.generation
    }

    /// Accept a prefetch result. Returns `false`, changing nothing, when it
    /// belongs to a superseded generation. A failed prefetch leaves nothing
    /// prepared.
    pub fn accept(&mut self, result: PrefetchResult) -> (adopted: bool)
        ensures
            (final(self)@, adopted) == accepted(old(self)@, result),
            final(self)@ == after_call(old(self)@, CacheCall::Accept(result)),
    {
        if result.generation != self.generation {
            return false;
        }
        self.in_flight = false;
        match result.outcome {
            Ok(source) => {
                self.prepared = Some(PreparedSource { position: result.position, source });
                true
            },
            Err(_) => {
                self.prepared = None;
                true
            },
        }
    }

    /// Whether a usable (non-expired) source is prepared for `position`, the
    /// prepared source having been resolved `elapsed_secs` ago: one without a
    /// lifetime always is, a remote one until its lifetime has passed.
    pub fn has_fresh_for_at(&self, position: usize, elapsed_secs: u64) -> (fresh: bool)
        ensures
            fresh == (self@.prepared matches Some((p, s)) && p == position && !(s.lifetime matches Some(
                t,
            ) && elapsed_secs >= t)),
    {
        match &self.prepared {
            Some(prepared) => prepared.position == position && !prepared.source.stale_at(elapsed_secs),
            None => false,
        }
    }

    /// Whether a usable (non-expired) source is prepared for `position`, by
    /// the clock now: `has_fresh_for_at` with the prepared source's age.
    pub fn has_fresh_for(&self, position: usize) -> (fresh: bool)
        ensures
            fresh ==> (self@.prepared matches Some((p, _)) && p == position),
            (self@.prepared matches Some((p, s)) && p == position && s.lifetime is None) ==> fresh,
    {
        match &self.prepared {
            Some(prepared) => {
                let elapsed = prepared.source.elapsed_secs();
                self.has_fresh_for_at(position, elapsed)
            },
            None => false,
        }
    }

    /// The identity of the prepared source, if any.
    pub fn prepared_identity(&self) -> (identity: Option<&TrackIdentity>)
        ensures
            match self@.prepared {
                Some((_, s)) => identity is Some && *identity->0 == s.identity,
                None => identity is None,
            },
    {
        match &self.prepared {
            Some(p) => Some(p.source.track()),
            None => None,
        }
    }

    /// Take the prepared source if it is for `position` and still fresh, the
    /// prepared source having been resolved `elapsed_secs` ago. A stale one is
    /// dropped rather than returned; the caller re-resolves.
    pub fn take_for_at(&mut self, position: usize, elapsed_secs: u64) -> (taken: Option<ResolvedSource>)
        ensures
            match old(self)@.prepared {
                Some((p, s)) if p == position => {
                    &&& final(self)@ == (CacheView { prepared: None, ..old(self)@ })
                    &&& (taken is Some <==> !(s.lifetime matches Some(t) && elapsed_secs >= t))
                    &&& (taken matches Some(x) ==> x@ == s)
                },
                _ => final(self)@ == old(self)@ && taken is None,
            },
            final(self)@ == after_call(old(self)@, CacheCall::TakeFor(position)),
    {
        let matches = match &self.prepared {
            Some(prepared) => prepared.position == position,
            None => false,
        };
        if !matches {
            return None;
        }
        let prepared = self.prepared.take();
        match prepared {
            Some(prepared) => if prepared.source.stale_at(elapsed_secs) {
                None
            } else {
                Some(prepared.source)
            },
            None => None,
        }
    }

    /// Take the prepared source if it is for `position` and still fresh by the
    /// clock now: `take_for_at` with the prepared source's age.
    pub fn take_for(&mut self, position: usize) -> (taken: Option<ResolvedSource>)
        ensures
            match old(self)@.prepared {
                Some((p, s)) if p == position => {
                    &&& final(self)@ == (CacheView { prepared: None, ..old(self)@ })
                    &&& (taken matches Some(t) ==> t@ == s)
                    &&& (s.lifetime is None ==> taken is Some)
                },
                _ => final(self)@ == old(self)@ && taken is None,
            },
            final(self)@ == after_call(old(self)@, CacheCall::TakeFor(position)),
    {
        let elapsed: u64 = match &self.prepared {
            Some(prepared) => if prepared.position == position {
                prepared.source.elapsed_secs()
            } else {
                0
            },
            None => 0,
        };
        self.take_for_at(position, elapsed)
    }
}

/// A result whose generation is not the newest one is dropped and changes
/// nothing: this is what makes list edits, clears and manual skips safe while
/// a resolve is in flight.
pub proof fn lemma_superseded_result_is_dropped(c: CacheView, result: PrefetchResult)
    requires
        result.generation != c.generation,
    ensures
        accepted(c, result) == (c, false),
{
}

/// Every new prefetch or invalidation issues a generation different from the
/// current one, so results stamped before it are dropped on arrival.
pub proof fn lemma_new_generation_supersedes(c: CacheView, result: PrefetchResult)
    requires
        result.generation == c.generation,
    ensures
        next_generation(c.generation) != c.generation,
        accepted(CacheView { generation: next_generation(c.generation), ..c }, result).1 == false,
{
}

/// A result of the newest generation is adopted: it ends the prefetch and
/// leaves exactly its source (or, for a failure, nothing) prepared.
pub proof fn lemma_current_result_is_adopted(c: CacheView, result: PrefetchResult)
    requires
        result.generation == c.generation,
    ensures
        accepted(c, result).1,
        !accepted(c, result).0.in_flight,
        accepted(c, result).0.prepared == match result.outcome {
            Ok(source) => Some((result.position, source@)),
            Err(_) => None,
        },
{
}

} // verus!
