//! Registry of the DirectComposition host-backdrop instances, one per window,
//! and the cached verdict that the OS build does not support them.
//!
//! The DWM shared-visual API is build-dependent; once construction has failed
//! it is not retried, since repeated construction and teardown of a
//! composition target can leave the fallback material stuck.

use vstd::prelude::*;

use crate::hwnd_map::HwndMap;

verus! {

/// What applying the host backdrop to a window comes down to.
#[derive(Debug, Clone, Copy, PartialEq, Eq, Structural)]
pub enum ApplyStep {
    /// The window has an instance: refresh its colors and coordinates.
    UpdateExisting,
    /// Construction failed before on this OS build: report it, do not retry.
    RejectUnsupported,
    /// Build a new instance for the window.
    Construct,
}

/// The abstract state of the registry.
pub struct BackdropsView<T> {
    pub instances: Map<isize, T>,
    /// Construction has failed on this OS build.
    pub unsupported: bool,
}

/// The step for applying the backdrop to `hwnd`.
pub open spec fn apply_step_spec<T>(r: BackdropsView<T>, hwnd: isize) -> ApplyStep {
    if r.instances.contains_key(hwnd) {
        ApplyStep::UpdateExisting
    } else if r.unsupported {
        ApplyStep::RejectUnsupported
    } else {
        ApplyStep::Construct
    }
}

/// The host-backdrop instances by window, and the unsupported verdict.
#[derive(Debug)]
pub struct HostBackdrops<T> {
    instances: HwndMap<T>,
    unsupported: bool,
}

impl<T> View for HostBackdrops<T> {
    type V = BackdropsView<T>;

    closed spec fn view(&self) -> BackdropsView<T> {
        BackdropsView { instances: self.instances@, unsupported: self.unsupported }
    }
}

impl<T> HostBackdrops<T> {
    /// No instance, no failure yet.
    pub fn new() -> (registry: HostBackdrops<T>)
        ensures
            registry@.instances == Map::<isize, T>::empty(),
            !registry@.unsupported,
    {
        HostBackdrops { instances: HwndMap::new(), unsupported: false }
    }

    /// What applying the backdrop to `hwnd` comes down to.
    pub fn apply_step(&self, hwnd: isize) -> (step: ApplyStep)
        ensures
            step == apply_step_spec(self@, hwnd),
    {
        if self.instances.contains(hwnd) {
            ApplyStep::UpdateExisting
        } else if self.unsupported {
            ApplyStep::RejectUnsupported
        } else {
            ApplyStep::Construct
        }
    }

    /// A new instance was built for `hwnd`.
    pub fn record_constructed(&mut self, hwnd: isize, instance: T)
        ensures
            final(self)@.instances == old(self)@.instances.insert(hwnd, instance),
            final(self)@.unsupported == old(self)@.unsupported,
    {
        self.instances.insert(hwnd, instance);
    }

    /// Construction failed: remember that this OS build is unsupported.
    pub fn record_construction_failed(&mut self)
        ensures
            final(self)@.instances == old(self)@.instances,
            final(self)@.unsupported,
    {
        self.unsupported = true;
    }

    /// Whether construction has already failed on this OS build.
    pub fn unsupported(&self) -> (unsupported: bool)
        ensures
            unsupported == self@.unsupported,
    {
        self.unsupported
    }

    /// Whether `hwnd` has an instance.
    pub fn contains(&self, hwnd: isize) -> (present: bool)
        ensures
            present == self@.instances.contains_key(hwnd),
    {
        self.instances.contains(hwnd)
    }

    /// Lend out the instance of `hwnd` for painting; give it back with
    /// `restore`.
    pub fn take(&mut self, hwnd: isize) -> (instance: Option<T>)
        ensures
            final(self)@.instances == old(self)@.instances.remove(hwnd),
            final(self)@.unsupported == old(self)@.unsupported,
            match instance {
                Some(i) => old(self)@.instances.contains_key(hwnd) && i == old(self)@.instances[hwnd],
                None => !old(self)@.instances.contains_key(hwnd),
            },
    {
        self.instances.remove(hwnd)
    }

    /// Give back an instance lent out by `take`.
    pub fn restore(&mut self, hwnd: isize, instance: T)
        ensures
            final(self)@.instances == old(self)@.instances.insert(hwnd, instance),
            final(self)@.unsupported == old(self)@.unsupported,
    {
        self.instances.insert(hwnd, instance);
    }

    /// Drop the instance of a destroyed window. Returns `true` when one existed.
    pub fn remove(&mut self, hwnd: isize) -> (existed: bool)
        ensures
            existed == old(self)@.instances.contains_key(hwnd),
            final(self)@.instances == old(self)@.instances.remove(hwnd),
            final(self)@.unsupported == old(self)@.unsupported,
    {
        self.instances.remove(hwnd).is_some()
    }
}

/// Construction is never retried once it failed: every window without an
/// instance is rejected from then on, whatever is built or dropped later.
pub proof fn lemma_failure_is_cached<T>(r: BackdropsView<T>, hwnd: isize)
    requires
        r.unsupported,
        !r.instances.contains_key(hwnd),
    ensures
        apply_step_spec(r, hwnd) == ApplyStep::RejectUnsupported,
{
}

/// Lending an instance out and giving it back changes nothing.
pub proof fn lemma_take_restore<T>(r: BackdropsView<T>, hwnd: isize)
    requires
        r.instances.contains_key(hwnd),
    ensures
        r.instances.remove(hwnd).insert(hwnd, r.instances[hwnd]) == r.instances,
{
    assert(r.instances.remove(hwnd).insert(hwnd, r.instances[hwnd]) =~= r.instances);
}

} // verus!
