//! Idle-memory policy for managed WebView2 windows: which engine knobs a
//! window gets when it is hidden and shown again, and the record of which
//! windows are believed to be on screen.
//!
//! `MemoryUsageTargetLevel` goes low for every hidden window; `IsVisible`
//! goes false only for windows whose page has nothing to do while hidden; and
//! `TrySuspend` is applied only to the tray popup, after `IsVisible` is false
//! (WebView2 requires an invisible controller).

use vstd::prelude::*;

use crate::text::same_text;

verus! {

/// Windows whose page may be told it is off screen while hidden. `main` is
/// absent on purpose: it keeps driving playback from the tray.
pub open spec fn idle_when_hidden_spec(label: Seq<char>) -> bool {
    label == "tray-popup"@ || label == "desktop-lyrics-controls"@
}

/// Windows that are additionally suspended while hidden.
pub open spec fn suspend_when_hidden_spec(label: Seq<char>) -> bool {
    label == "tray-popup"@
}

/// Whether the window `label` may be told it is off screen while hidden.
pub fn idle_when_hidden(label: &str) -> (idle: bool)
    ensures
        idle == idle_when_hidden_spec(label@),
{
    same_text(label, "tray-popup") || same_text(label, "desktop-lyrics-controls")
}

/// Whether the window `label` is suspended while hidden.
pub fn suspend_when_hidden(label: &str) -> (suspend: bool)
    ensures
        suspend == suspend_when_hidden_spec(label@),
{
    same_text(label, "tray-popup")
}

/// What to do to a window's engine when it is shown: resume it (always),
/// restore control visibility, and set the memory target back to normal.
#[derive(Debug, Clone, Copy, PartialEq, Eq, Structural)]
pub struct WakePlan {
    pub restore_visible: bool,
}

/// What to do to a window's engine when it is hidden: hide the control, set
/// the memory target low (always), then suspend, in that order.
#[derive(Debug, Clone, Copy, PartialEq, Eq, Structural)]
pub struct SleepPlan {
    pub hide_control: bool,
    pub suspend: bool,
}

/// The labels as character sequences.
pub open spec fn names(labels: Seq<String>) -> Seq<Seq<char>> {
    labels.map_values(|l: String| l@)
}

/// The labels of managed windows believed to be on screen.
#[derive(Debug)]
pub struct AwakeWindows {
    labels: Vec<String>,
}

impl View for AwakeWindows {
    type V = Set<Seq<char>>;

    closed spec fn view(&self) -> Set<Seq<char>> {
        names(self.labels@).to_set()
    }
}

impl AwakeWindows {
    /// Nobody is known to be on screen.
    pub fn new() -> (awake: AwakeWindows)
        ensures
            awake@ == Set::<Seq<char>>::empty(),
    {
        let awake = AwakeWindows { labels: Vec::new() };
        assert(awake@ =~= Set::<Seq<char>>::empty());
        awake
    }

    fn position(&self, label: &str) -> (at: Option<usize>)
        ensures
            match at {
                Some(i) => i < self.labels@.len() && self.labels@[i as int]@ == label@,
                None => forall|i: int| 0 <= i < self.labels@.len() ==> self.labels@[i]@ != label@,
            },
    {
        let mut i: usize = 0;
        while i < self.labels.len()
            invariant
                i <= self.labels@.len(),
                forall|j: int| 0 <= j < i ==> self.labels@[j]@ != label@,
            decreases self.labels@.len() - i,
        {
            if same_text(self.labels[i].as_str(), label) {
                return Some(i);
            }
            i = i + 1;
        }
        None
    }

    /// Whether `label` is believed to be on screen.
    pub fn is_awake(&self, label: &str) -> (awake: bool)
        ensures
            awake == self@.contains(label@),
    {
        let r = self.position(label).is_some();
        proof {
            if r {
                let i = choose|i: int| 0 <= i < self.labels@.len() && self.labels@[i]@ == label@;
                assert(names(self.labels@)[i] == label@);
            } else {
                if self@.contains(label@) {
                    let listed = names(self.labels@);
                    let i = choose|i: int| 0 <= i < listed.len() && listed[i] == label@;
                    assert(self.labels@[i]@ == label@);
                }
            }
        }
        r
    }

    /// Record that `label` is on screen.
    pub fn mark_awake(&mut self, label: &str)
        ensures
            final(self)@ == old(self)@.insert(label@),
    {
        if self.is_awake(label) {
            assert(old(self)@.insert(label@) =~= old(self)@);
            return;
        }
        let ghost before = self.labels@;
        self.labels.push(String::from_str(label));
        proof {
            let listed = names(self.labels@);
            let old_listed = names(before);
            assert(listed =~= old_listed.push(label@));
            assert forall|x: Seq<char>| listed.contains(x) <==> (old_listed.contains(x) || x == label@) by {
                if listed.contains(x) && x != label@ {
                    let i = choose|i: int| 0 <= i < listed.len() && listed[i] == x;
                    assert(old_listed[i] == x);
                }
                if old_listed.contains(x) {
                    let i = choose|i: int| 0 <= i < old_listed.len() && old_listed[i] == x;
                    assert(listed[i] == x);
                }
                if x == label@ {
                    assert(listed[listed.len() - 1] == x);
                }
            }
            assert(self@ =~= old(self)@.insert(label@));
        }
    }

    /// Record that `label` is no longer on screen.
    pub fn mark_asleep(&mut self, label: &str)
        ensures
            final(self)@ == old(self)@.remove(label@),
    {
        let ghost before = self.labels@;
        let mut kept: Vec<String> = Vec::new();
        let mut i: usize = 0;
        while i < self.labels.len()
            invariant
                before == self.labels@,
                i <= before.len(),
                forall|x: Seq<char>| #[trigger] names(kept@).contains(x) <==> (x != label@
                    && names(before.subrange(0, i as int)).contains(x)),
            decreases before.len() - i,
        {
            let ghost kept_before = kept@;
            let ghost seen = names(before.subrange(0, i as int));
            let ghost seen2 = names(before.subrange(0, i + 1));
            assert(seen2 =~= seen.push(before[i as int]@));
            if !same_text(self.labels[i].as_str(), label) {
                kept.push(self.labels[i].clone());
            }
            proof {
                let listed = names(kept@);
                let old_listed = names(kept_before);
                assert forall|x: Seq<char>| listed.contains(x) <==> (x != label@ && seen2.contains(x)) by {
                    if listed.contains(x) {
                        let j = choose|j: int| 0 <= j < listed.len() && listed[j] == x;
                        if j < old_listed.len() {
                            assert(old_listed[j] == x);
                            assert(old_listed.contains(x));
                            let k = choose|k: int| 0 <= k < seen.len() && seen[k] == x;
                            assert(seen2[k] == x);
                        } else {
                            assert(seen2[i as int] == x);
                        }
                    }
                    if x != label@ && seen2.contains(x) {
                        let k = choose|k: int| 0 <= k < seen2.len() && seen2[k] == x;
                        if k < i {
                            assert(seen[k] == x);
                            assert(old_listed.contains(x));
                            let j = choose|j: int| 0 <= j < old_listed.len() && old_listed[j] == x;
                            assert(listed[j] == x);
                        } else {
                            assert(listed[listed.len() - 1] == x);
                        }
                    }
                }
            }
            i = i + 1;
        }
        self.labels = kept;
        proof {
            assert(before.subrange(0, before.len() as int) =~= before);
            assert(self@ =~= old(self)@.remove(label@));
        }
    }

    /// Drop a destroyed window from the record.
    pub fn forget(&mut self, label: &str)
        ensures
            final(self)@ == old(self)@.remove(label@),
    {
        self.mark_asleep(label);
    }

    /// The window `label` is about to be shown: record it as on screen and
    /// say what to undo of its idle state.
    pub fn wake(&mut self, label: &str) -> (plan: WakePlan)
        ensures
            final(self)@ == old(self)@.insert(label@),
            plan.restore_visible == idle_when_hidden_spec(label@),
    {
        self.mark_awake(label);
        WakePlan { restore_visible: idle_when_hidden(label) }
    }

    /// The window `label` was hidden but kept alive: record it as off screen
    /// and say which knobs to apply.
    pub fn sleep(&mut self, label: &str) -> (plan: SleepPlan)
        ensures
            final(self)@ == old(self)@.remove(label@),
            plan.hide_control == idle_when_hidden_spec(label@),
            plan.suspend == suspend_when_hidden_spec(label@),
    {
        self.mark_asleep(label);
        SleepPlan { hide_control: idle_when_hidden(label), suspend: suspend_when_hidden(label) }
    }

    /// A window created hidden finished loading: put it to sleep, unless it
    /// was shown in the meantime.
    pub fn sleep_if_untouched(&mut self, label: &str) -> (plan: Option<SleepPlan>)
        ensures
            old(self)@.contains(label@) ==> plan is None && final(self)@ == old(self)@,
            !old(self)@.contains(label@) ==> final(self)@ == old(self)@ && plan == Some(
                SleepPlan {
                    hide_control: idle_when_hidden_spec(label@),
                    suspend: suspend_when_hidden_spec(label@),
                },
            ),
    {
        if self.is_awake(label) {
            return None;
        }
        let plan = self.sleep(label);
        assert(old(self)@.remove(label@) =~= old(self)@);
        Some(plan)
    }
}

/// A window that is suspended while hidden is also told it is off screen:
/// `TrySuspend` only works on an invisible controller.
pub proof fn lemma_suspend_implies_hidden(label: Seq<char>)
    ensures
        suspend_when_hidden_spec(label) ==> idle_when_hidden_spec(label),
{
}

} // verus!
