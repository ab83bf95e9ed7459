//! The accepted playback manifest: its entries, the traversal order over them
//! (a permutation of all positions), and the deterministic reshuffle that
//! random mode performs on every pass.

use vstd::prelude::*;
use vstd::wrapping::u64_specs;

use crate::text::same_text;
use crate::types::{identity_key, NativeManifestEntry, NativePlaybackManifest, NativePlaybackMode};

verus! {

/// Increment of the splitmix64 generator that drives the reshuffle.
pub const MIX_GAMMA: u64 = 0x9e37_79b9_7f4a_7c15;

/// First multiplier of the splitmix64 finaliser.
pub const MIX_MUL_A: u64 = 0xbf58_476d_1ce4_e5b9;

/// Second multiplier of the splitmix64 finaliser.
pub const MIX_MUL_B: u64 = 0x94d0_49bb_1331_11eb;

/// One splitmix64 step: the advanced state and the value drawn.
pub open spec fn mix_step(state: u64) -> (u64, u64) {
    let s = u64_specs::wrapping_add(state, MIX_GAMMA);
    let a = u64_specs::wrapping_mul(s ^ (s >> 30u64), MIX_MUL_A);
    let b = u64_specs::wrapping_mul(a ^ (a >> 27u64), MIX_MUL_B);
    (s, b ^ (b >> 31u64))
}

/// `order` holds every position below `n` exactly once.
pub open spec fn is_permutation(order: Seq<usize>, n: nat) -> bool {
    &&& order.len() == n
    &&& forall|i: int| 0 <= i < n ==> #[trigger] order[i] < n
    &&& forall|i: int, j: int| 0 <= i < n && 0 <= j < n && i != j ==> order[i] != order[j]
}

/// The order `0, 1, …, n - 1`.
pub open spec fn identity_order(n: nat) -> Seq<usize> {
    Seq::new(n, |i: int| i as usize)
}

/// `order` with the elements at `a` and `b` exchanged.
pub open spec fn swapped(order: Seq<usize>, a: int, b: int) -> Seq<usize> {
    order.update(a, order[b]).update(b, order[a])
}

/// Fisher–Yates over the first `i` slots: for `k = i - 1` down to `1`, draw
/// `r` and exchange slots `k` and `r % (k + 1)`. Yields the order and the
/// generator state after the pass.
pub open spec fn shuffle_pass(order: Seq<usize>, state: u64, i: nat) -> (Seq<usize>, u64)
    decreases i,
{
    if i <= 1 || i > order.len() || i > u64::MAX {
        (order, state)
    } else {
        let (next, r) = mix_step(state);
        let j = (r % (i as u64)) as int;
        shuffle_pass(swapped(order, i - 1, j), next, (i - 1) as nat)
    }
}

/// Keep `pinned` away from slot 0 by exchanging it with the last slot.
pub open spec fn pin_away(order: Seq<usize>, pinned: Option<usize>) -> Seq<usize> {
    match pinned {
        Some(p) => if order.len() > 1 && order[0] == p {
            swapped(order, 0, order.len() - 1)
        } else {
            order
        },
        None => order,
    }
}

/// Bring `position` to slot 0 by exchanging it with whatever slot it is in.
pub open spec fn lead_with(order: Seq<usize>, position: Option<usize>) -> Seq<usize> {
    match position {
        Some(p) => if order.contains(p) {
            swapped(order, 0, choose|s: int| 0 <= s < order.len() && order[s] == p)
        } else {
            order
        },
        None => order,
    }
}

/// First position at or after `i` whose identity has the key `key`.
pub open spec fn first_key_from(entries: Seq<NativeManifestEntry>, key: Seq<char>, i: int) -> Option<int>
    decreases entries.len() - i,
{
    if i < 0 || i >= entries.len() {
        None
    } else if identity_key(entries[i].identity) == key {
        Some(i)
    } else {
        first_key_from(entries, key, i + 1)
    }
}

/// The abstract state of a manifest store.
pub struct ManifestView {
    pub entries: Seq<NativeManifestEntry>,
    /// Traversal order: slot → position.
    pub order: Seq<usize>,
    pub mode: NativePlaybackMode,
    pub repeat_list: bool,
    pub revision: u64,
    /// Key of the track the frontend declared current.
    pub declared_cursor: Option<Seq<char>>,
    /// State of the reshuffle generator.
    pub shuffle_state: u64,
}

impl ManifestView {
    pub open spec fn len(self) -> nat {
        self.entries.len()
    }

    /// The traversal order covers every position exactly once.
    pub open spec fn valid(self) -> bool {
        is_permutation(self.order, self.entries.len())
    }

    /// The slot that holds `position`.
    pub open spec fn slot_of(self, position: usize) -> Option<int> {
        if self.order.contains(position) {
            Some(choose|s: int| 0 <= s < self.order.len() && self.order[s] == position)
        } else {
            None
        }
    }

    /// The first position whose identity has the key `key`.
    pub open spec fn position_of_key(self, key: Seq<char>) -> Option<int> {
        first_key_from(self.entries, key, 0)
    }

    /// The store after a reshuffle that keeps `pinned` away from slot 0.
    pub open spec fn reshuffled(self, pinned: Option<usize>) -> ManifestView {
        let (order, state) = shuffle_pass(self.order, self.shuffle_state, self.order.len());
        ManifestView { order: pin_away(order, pinned), shuffle_state: state, ..self }
    }
}

/// Key of the track the manifest declares current: `cursor_identity`, or
/// else the entry at `cursor_index`.
pub open spec fn declared_key(m: NativePlaybackManifest) -> Option<Seq<char>> {
    match m.cursor_identity {
        Some(identity) => Some(identity_key(identity)),
        None => if m.cursor_index < m.entries@.len() {
            Some(identity_key(m.entries@[m.cursor_index as int].identity))
        } else {
            None
        },
    }
}

/// The generator seed of a manifest: its own seed, or else its revision.
pub open spec fn seed_of(m: NativePlaybackManifest) -> u64 {
    match m.random_seed {
        Some(seed) => seed,
        None => m.revision,
    }
}

/// The store state once `m` is accepted. A supplied order is kept when it is a
/// permutation; otherwise normal and single modes walk the entries in list
/// order, and random mode walks a seeded shuffle that starts at the declared
/// cursor.
pub open spec fn loaded(m: NativePlaybackManifest) -> ManifestView {
    let n = m.entries@.len();
    let declared = declared_key(m);
    let shuffled = shuffle_pass(identity_order(n), seed_of(m), n);
    let cursor = match declared {
        Some(key) => match first_key_from(m.entries@, key, 0) {
            Some(p) => Some(p as usize),
            None => None,
        },
        None => None,
    };
    let (order, state) = if is_permutation(m.order@, n) {
        (m.order@, seed_of(m))
    } else if m.mode == NativePlaybackMode::Random {
        (lead_with(shuffled.0, cursor), shuffled.1)
    } else {
        (identity_order(n), seed_of(m))
    };
    ManifestView {
        entries: m.entries@,
        order,
        mode: m.mode,
        repeat_list: m.repeat_list,
        revision: m.revision,
        declared_cursor: declared,
        shuffle_state: state,
    }
}

pub proof fn lemma_swapped_permutation(order: Seq<usize>, n: nat, a: int, b: int)
    requires
        is_permutation(order, n),
        0 <= a < n,
        0 <= b < n,
    ensures
        is_permutation(swapped(order, a, b), n),
{
    let o = swapped(order, a, b);
    assert forall|i: int, j: int| 0 <= i < n && 0 <= j < n && i != j implies o[i] != o[j] by {
        let si = if i == b { a } else if i == a { b } else { i };
        let sj = if j == b { a } else if j == a { b } else { j };
        assert(o[i] == order[si]);
        assert(o[j] == order[sj]);
    }
}

pub proof fn lemma_shuffle_pass_permutation(order: Seq<usize>, state: u64, i: nat, n: nat)
    requires
        is_permutation(order, n),
    ensures
        is_permutation(shuffle_pass(order, state, i).0, n),
    decreases i,
{
    if i <= 1 || i > order.len() || i > u64::MAX {
    } else {
        let (next, r) = mix_step(state);
        let iu = i as u64;
        let j = (r % iu) as int;
        assert(r % iu < iu) by (nonlinear_arith)
            requires
                iu > 1,
        ;
        lemma_swapped_permutation(order, n, i - 1, j);
        lemma_shuffle_pass_permutation(swapped(order, i - 1, j), next, (i - 1) as nat, n);
    }
}

pub proof fn lemma_identity_permutation(n: nat)
    requires
        n <= usize::MAX,
    ensures
        is_permutation(identity_order(n), n),
{
}

/// Reshuffling keeps the traversal order a permutation and touches nothing
/// but the order and the generator state.
pub proof fn lemma_reshuffled_valid(m: ManifestView, pinned: Option<usize>)
    requires
        m.valid(),
    ensures
        m.reshuffled(pinned).valid(),
        m.reshuffled(pinned).entries == m.entries,
        m.reshuffled(pinned).mode == m.mode,
        m.reshuffled(pinned).repeat_list == m.repeat_list,
{
    let n = m.entries.len();
    lemma_shuffle_pass_permutation(m.order, m.shuffle_state, m.order.len(), n);
    let o = shuffle_pass(m.order, m.shuffle_state, m.order.len()).0;
    if let Some(p) = pinned {
        if o.len() > 1 && o[0] == p {
            lemma_swapped_permutation(o, n, 0, o.len() - 1);
        }
    }
}

/// In a permutation, the slot that holds the position at slot `s` is `s`.
pub proof fn lemma_slot_of_order(m: ManifestView, s: int)
    requires
        m.valid(),
        0 <= s < m.order.len(),
    ensures
        m.slot_of(m.order[s]) == Some(s),
{
    assert(m.order.contains(m.order[s]));
    let c = choose|t: int| 0 <= t < m.order.len() && m.order[t] == m.order[s];
    assert(m.order[c] == m.order[s]);
}

/// A permutation of `0..n` holds every position below `n`.
pub proof fn lemma_permutation_covers(order: Seq<usize>, n: nat, q: usize)
    requires
        is_permutation(order, n),
        q < n,
    ensures
        order.contains(q),
{
    broadcast use vstd::seq_lib::group_seq_properties;

    let ints = order.map_values(|x: usize| x as int);
    assert forall|i: int, j: int| 0 <= i < ints.len() && 0 <= j < ints.len() && i != j implies ints[i]
        != ints[j] by {
        assert(order[i] != order[j]);
    }
    assert(ints.no_duplicates());
    ints.unique_seq_to_set();
    let x = ints.to_set();
    let r = vstd::set_lib::set_int_range(0, n as int);
    vstd::set_lib::lemma_int_range(0, n as int);
    assert forall|v: int| x.contains(v) implies r.contains(v) by {
        let i = choose|i: int| 0 <= i < ints.len() && ints[i] == v;
        assert(order[i] < n);
    }
    vstd::set_lib::lemma_subset_equality(x, r);
    assert(r.contains(q as int));
    assert(x.contains(q as int));
    let i = choose|i: int| 0 <= i < ints.len() && ints[i] == q as int;
    assert(order[i] == q);
}

/// The accepted playback manifest and its traversal order.
pub struct ManifestStore {
    entries: Vec<NativeManifestEntry>,
    order: Vec<usize>,
    mode: NativePlaybackMode,
    repeat_list: bool,
    revision: u64,
    declared_cursor: Option<String>,
    shuffle_state: u64,
}

impl View for ManifestStore {
    type V = ManifestView;

    closed spec fn view(&self) -> ManifestView {
        ManifestView {
            entries: self.entries@,
            order: self.order@,
            mode: self.mode,
            repeat_list: self.repeat_list,
            revision: self.revision,
            declared_cursor: match self.declared_cursor {
                Some(key) => Some(key@),
                None => None,
            },
            shuffle_state: self.shuffle_state,
        }
    }
}

/// One splitmix64 step.
fn mix(state: u64) -> (r: (u64, u64))
    ensures
        r == mix_step(state),
{
    let s = state.wrapping_add(MIX_GAMMA);
    let a = (s ^ (s >> 30u64)).wrapping_mul(MIX_MUL_A);
    let b = (a ^ (a >> 27u64)).wrapping_mul(MIX_MUL_B);
    (s, b ^ (b >> 31u64))
}

/// Exchange two slots of an order.
fn swap_slots(order: &mut Vec<usize>, a: usize, b: usize)
    requires
        a < old(order)@.len(),
        b < old(order)@.len(),
    ensures
        final(order)@ == swapped(old(order)@, a as int, b as int),
{
    let x = order[a];
    let y = order[b];
    order.set(a, y);
    order.set(b, x);
}

/// Run a full Fisher–Yates pass over `order`.
fn shuffle(order: &mut Vec<usize>, state: u64) -> (next: u64)
    ensures
        (final(order)@, next) == shuffle_pass(old(order)@, state, old(order)@.len()),
{
    let n = order.len();
    let ghost target = shuffle_pass(order@, state, n as nat);
    let mut i = n;
    let mut st = state;
    while i > 1
        invariant
            order@.len() == n,
            i <= n,
            shuffle_pass(order@, st, i as nat) == target,
        decreases i,
    {
        let (next, r) = mix(st);
        let j = (r % (i as u64)) as usize;
        swap_slots(order, i - 1, j);
        st = next;
        i = i - 1;
    }
    st
}

/// The order `0, 1, …, n - 1`.
fn identity(n: usize) -> (order: Vec<usize>)
    ensures
        order@ == identity_order(n as nat),
{
    let mut order: Vec<usize> = Vec::new();
    let mut i: usize = 0;
    while i < n
        invariant
            i <= n,
            order@ == identity_order(i as nat),
        decreases n - i,
    {
        order.push(i);
        i = i + 1;
        assert(order@ =~= identity_order(i as nat));
    }
    order
}

/// Whether `order` is a permutation of the positions below `n`.
fn check_permutation(order: &Vec<usize>, n: usize) -> (r: bool)
    ensures
        r == is_permutation(order@, n as nat),
{
    if order.len() != n {
        return false;
    }
    let mut seen: Vec<bool> = Vec::new();
    let mut k: usize = 0;
    while k < n
        invariant
            k <= n,
            seen@.len() == k,
            forall|q: int| 0 <= q < k ==> !seen@[q],
        decreases n - k,
    {
        seen.push(false);
        k = k + 1;
    }
    let mut i: usize = 0;
    while i < n
        invariant
            order@.len() == n,
            seen@.len() == n,
            i <= n,
            forall|s: int| 0 <= s < i ==> #[trigger] order@[s] < n,
            forall|s: int, t: int| 0 <= s < i && 0 <= t < i && s != t ==> order@[s] != order@[t],
            forall|q: int| 0 <= q < n ==> (seen@[q] <==> exists|s: int| 0 <= s < i && order@[s] == q),
        decreases n - i,
    {
        let p = order[i];
        if p >= n {
            return false;
        }
        if seen[p] {
            proof {
                let s = choose|s: int| 0 <= s < i && order@[s] == p;
                assert(order@[s] == order@[i as int]);
            }
            return false;
        }
        seen.set(p, true);
        i = i + 1;
    }
    true
}

/// Position of `p` in `order`, when present.
fn find_slot(order: &Vec<usize>, p: usize) -> (r: Option<usize>)
    ensures
        match r {
            Some(s) => s < order@.len() && order@[s as int] == p,
            None => !order@.contains(p),
        },
{
    let mut s: usize = 0;
    while s < order.len()
        invariant
            s <= order@.len(),
            forall|t: int| 0 <= t < s ==> order@[t] != p,
        decreases order@.len() - s,
    {
        if order[s] == p {
            return Some(s);
        }
        s = s + 1;
    }
    None
}

/// First position at or after 0 whose identity has the key `key`.
fn find_key(entries: &Vec<NativeManifestEntry>, key: &str) -> (r: Option<usize>)
    ensures
        match first_key_from(entries@, key@, 0) {
            Some(p) => r == Some(p as usize),
            None => r is None,
        },
{
    let mut i: usize = 0;
    while i < entries.len()
        invariant
            i <= entries@.len(),
            first_key_from(entries@, key@, i as int) == first_key_from(entries@, key@, 0),
        decreases entries@.len() - i,
    {
        let k = entries[i].identity.key();
        if same_text(k.as_str(), key) {
            return Some(i);
        }
        i = i + 1;
    }
    None
}

impl ManifestStore {
    /// Every store keeps its traversal order a permutation of its entries.
    #[verifier::type_invariant]
    pub open spec fn well_ordered(&self) -> bool {
        self@.valid()
    }

    /// An empty store.
    pub fn new() -> (store: ManifestStore)
        ensures
            store@.entries.len() == 0,
            store@.order.len() == 0,
            store@.mode == NativePlaybackMode::Normal,
            !store@.repeat_list,
            store@.revision == 0,
            store@.declared_cursor is None,
            store@.shuffle_state == 0,
            store@.valid(),
    {
        ManifestStore {
            entries: Vec::new(),
            order: Vec::new(),
            mode: NativePlaybackMode::Normal,
            repeat_list: false,
            revision: 0,
            declared_cursor: None,
            shuffle_state: 0,
        }
    }

    /// Accept a new manifest, replacing the previous one.
    pub fn set(&mut self, manifest: NativePlaybackManifest)
        ensures
            final(self)@ == loaded(manifest),
            final(self)@.valid(),
    {
        let ghost m = manifest;
        let n = manifest.entries.len();
        let declared: Option<String> = match &manifest.cursor_identity {
            Some(identity) => Some(identity.key()),
            None => if manifest.cursor_index < n {
                Some(manifest.entries[manifest.cursor_index].identity.key())
            } else {
                None
            },
        };
        let seed = match manifest.random_seed {
            Some(seed) => seed,
            None => manifest.revision,
        };
        let cursor: Option<usize> = match &declared {
            Some(key) => find_key(&manifest.entries, key.as_str()),
            None => None,
        };
        let supplied_ok = check_permutation(&manifest.order, n);
        let mut state = seed;
        let order = if supplied_ok {
            manifest.order
        } else if manifest.mode == NativePlaybackMode::Random {
            let mut order = identity(n);
            proof {
                lemma_identity_permutation(n as nat);
            }
            state = shuffle(&mut order, seed);
            proof {
                lemma_shuffle_pass_permutation(identity_order(n as nat), seed, n as nat, n as nat);
            }
            match cursor {
                Some(p) => {
                    let slot = find_slot(&order, p);
                    match slot {
                        Some(s) => {
                            proof {
                                let c = choose|t: int| 0 <= t < order@.len() && order@[t] == p;
                                assert(order@[c] == order@[s as int]);
                            }
                            swap_slots(&mut order, 0, s);
                        },
                        None => {},
                    }
                },
                None => {},
            }
            order
        } else {
            identity(n)
        };
        *self = ManifestStore {
            entries: manifest.entries,
            order,
            mode: manifest.mode,
            repeat_list: manifest.repeat_list,
            revision: manifest.revision,
            declared_cursor: declared,
            shuffle_state: state,
        };
        proof {
            assert(self@ =~= loaded(m));
        }
    }

    pub fn len(&self) -> (n: usize)
        ensures
            n == self@.entries.len(),
    {
        self.entries.len()
    }

    pub fn is_empty(&self) -> (empty: bool)
        ensures
            empty == (self@.entries.len() == 0),
    {
        self.entries.len() == 0
    }

    pub fn mode(&self) -> (mode: NativePlaybackMode)
        ensures
            mode == self@.mode,
    {
        self.mode
    }

    pub fn repeat_list(&self) -> (repeat: bool)
        ensures
            repeat == self@.repeat_list,
    {
        self.repeat_list
    }

    pub fn revision(&self) -> (revision: u64)
        ensures
            revision == self@.revision,
    {
        self.revision
    }

    /// The entry at `position`, if any.
    pub fn entry_at(&self, position: usize) -> (entry: Option<&NativeManifestEntry>)
        ensures
            position < self@.entries.len() ==> entry == Some(&self@.entries[position as int]),
            position >= self@.entries.len() ==> entry is None,
    {
        if position < self.entries.len() {
            Some(&self.entries[position])
        } else {
            None
        }
    }

    /// The position in traversal slot `slot`, if any.
    pub fn position_at_slot(&self, slot: usize) -> (position: Option<usize>)
        ensures
            slot < self@.order.len() ==> position == Some(self@.order[slot as int]),
            slot >= self@.order.len() ==> position is None,
    {
        if slot < self.order.len() {
            Some(self.order[slot])
        } else {
            None
        }
    }

    /// The traversal slot that holds `position`, if any.
    pub fn slot_of_position(&self, position: usize) -> (slot: Option<usize>)
        ensures
            match self@.slot_of(position) {
                Some(s) => slot == Some(s as usize),
                None => slot is None,
            },
    {
        proof {
            use_type_invariant(self);
        }
        let r = find_slot(&self.order, position);
        proof {
            if let Some(s) = r {
                let c = choose|t: int| 0 <= t < self@.order.len() && self@.order[t] == position;
                assert(self@.order[c] == self@.order[s as int]);
            }
        }
        r
    }

    /// The first position whose identity has the key `key`.
    pub fn position_of_key(&self, key: &str) -> (position: Option<usize>)
        ensures
            match self@.position_of_key(key@) {
                Some(p) => position == Some(p as usize),
                None => position is None,
            },
    {
        find_key(&self.entries, key)
    }

    /// Key of the track the manifest declared current.
    pub fn declared_cursor_key(&self) -> (key: Option<String>)
        ensures
            match self@.declared_cursor {
                Some(k) => key is Some && key->0@ == k,
                None => key is None,
            },
    {
        match &self.declared_cursor {
            Some(key) => Some(key.clone()),
            None => None,
        }
    }

    /// Rebuild the traversal order for the next random pass, keeping `pinned`
    /// (the track that just finished) away from the front.
    pub fn reshuffle_random(&mut self, pinned: Option<usize>)
        ensures
            final(self)@ == old(self)@.reshuffled(pinned),
            final(self)@.valid(),
    {
        proof {
            use_type_invariant(&*self);
        }
        let ghost before = self@;
        let mut order = self.order.clone();
        assert(order@ == before.order);
        let state = shuffle(&mut order, self.shuffle_state);
        proof {
            lemma_shuffle_pass_permutation(before.order, before.shuffle_state, before.order.len(), before.entries.len());
        }
        let n = order.len();
        match pinned {
            Some(p) => {
                if n > 1 && order[0] == p {
                    swap_slots(&mut order, 0, n - 1);
                    proof {
                        let o = shuffle_pass(before.order, before.shuffle_state, before.order.len()).0;
                        lemma_swapped_permutation(o, before.entries.len(), 0, n - 1);
                    }
                }
            },
            None => {},
        }
        self.order = order;
        self.shuffle_state = state;
        proof {
            assert(self@ =~= before.reshuffled(pinned));
        }
    }
}

} // verus!
