//! Discovery-cycle state: change detection against the active path, the
//! per-category session slot with its monotonic version ratchet, the
//! consecutive-failure tracker, and the connectivity watcher's
//! diagnostic gating.

use vstd::prelude::*;

use crate::catalog::{spec_best_index, spec_vcs_or_zero, DebugTarget, TargetData};
use crate::text::{last_segment, spec_last_segment, str_eq};

verus! {

/// Outcome of comparing a discovery cycle's selection against the
/// currently proxied path.
#[derive(Debug)]
pub enum TargetChange {
    /// A first usable target appeared: adopt its path, no restart.
    Initial { path: String, vcs: u32 },
    /// The backing target moved: a restart must swap the paths.
    Changed { old_path: String, new_path: String, vcs: u32 },
    /// Nothing to do; the ratchet may still rise.
    Unchanged { vcs: u32 },
}

/// Mathematical model of a change-detection outcome.
pub enum ChangeData {
    Initial { path: Seq<char>, vcs: u32 },
    Changed { old_path: Seq<char>, new_path: Seq<char>, vcs: u32 },
    Unchanged { vcs: u32 },
}

impl View for TargetChange {
    type V = ChangeData;

    open spec fn view(&self) -> ChangeData {
        match self {
            TargetChange::Initial { path, vcs } => ChangeData::Initial {
                path: path@,
                vcs: *vcs,
            },
            TargetChange::Changed { old_path, new_path, vcs } => ChangeData::Changed {
                old_path: old_path@,
                new_path: new_path@,
                vcs: *vcs,
            },
            TargetChange::Unchanged { vcs } => ChangeData::Unchanged { vcs: *vcs },
        }
    }
}

/// What change detection decides, given the selector's result and the
/// currently proxied path: the path token is the final `/`-delimited
/// segment of the selected target's socket address; an empty token
/// means no usable target.
pub open spec fn spec_check_change(
    result: Option<(TargetData, u32)>,
    current: Option<Seq<char>>,
) -> ChangeData {
    match result {
        Option::None => ChangeData::Unchanged { vcs: 0u32 },
        Option::Some((t, v)) => {
            let token = spec_last_segment(t.web_socket_debugger_url);
            if token.len() == 0 {
                ChangeData::Unchanged { vcs: v }
            } else if current == Option::Some(token) {
                ChangeData::Unchanged { vcs: v }
            } else {
                match current {
                    Option::Some(old) => ChangeData::Changed {
                        old_path: old,
                        new_path: token,
                        vcs: v,
                    },
                    Option::None => ChangeData::Initial { path: token, vcs: v },
                }
            }
        },
    }
}

/// Compares the selector's result against the currently proxied path.
/// The derived token is the final `/`-delimited segment of the selected
/// target's socket address; an empty token counts as no usable target
/// and leaves the path untouched while the version still propagates.
pub fn check_target_change(
    result: Option<(DebugTarget, u32)>,
    current_path: &Option<String>,
) -> (r: TargetChange)
    ensures
        r@ == spec_check_change(result.deep_view(), current_path.deep_view()),
{
    match result {
        Option::None => TargetChange::Unchanged { vcs: 0 },
        Option::Some((t, v)) => {
            let token = last_segment(t.web_socket_debugger_url.as_str());
            if token.unicode_len() == 0 {
                TargetChange::Unchanged { vcs: v }
            } else {
                match current_path {
                    Option::Some(cur) => {
                        if str_eq(cur.as_str(), token.as_str()) {
                            TargetChange::Unchanged { vcs: v }
                        } else {
                            TargetChange::Changed {
                                old_path: cur.clone(),
                                new_path: token,
                                vcs: v,
                            }
                        }
                    },
                    Option::None => TargetChange::Initial { path: token, vcs: v },
                }
            }
        },
    }
}

/// Per-category long-lived state: the upstream path currently proxied
/// to and the highest version ever observed.
pub struct SessionSlot {
    pub active_path: Option<String>,
    pub highest_version: u32,
}

/// Mathematical model of a session slot.
pub struct SlotData {
    pub active_path: Option<Seq<char>>,
    pub highest_version: u32,
}

impl View for SessionSlot {
    type V = SlotData;

    open spec fn view(&self) -> SlotData {
        SlotData { active_path: self.active_path.deep_view(), highest_version: self.highest_version }
    }
}

/// Slot state and restart request after applying a detected change:
/// an initial discovery adopts the path directly, a change leaves the
/// path swap to the restart sequence, and the ratchet only rises when
/// the reported version is positive.
pub open spec fn spec_apply_change(slot: SlotData, change: ChangeData) -> (SlotData, Option<
    (Seq<char>, Seq<char>),
>) {
    match change {
        ChangeData::Initial { path, vcs } => (
            SlotData { active_path: Option::Some(path), highest_version: vcs },
            Option::None,
        ),
        ChangeData::Changed { old_path, new_path, vcs } => (
            SlotData { active_path: slot.active_path, highest_version: vcs },
            Option::Some((old_path, new_path)),
        ),
        ChangeData::Unchanged { vcs } => (
            SlotData {
                active_path: slot.active_path,
                highest_version: if vcs > 0 {
                    vcs
                } else {
                    slot.highest_version
                },
            },
            Option::None,
        ),
    }
}

impl SessionSlot {
    /// A slot starts with no target and a zero ratchet.
    pub fn new() -> (r: Self)
        ensures
            r@.active_path is None,
            r@.highest_version == 0,
    {
        SessionSlot { active_path: None, highest_version: 0 }
    }

    /// Applies a detected change to this slot; the returned pair of old
    /// and new path, when present, asks the orchestrator for a restart.
    pub fn apply_change(&mut self, change: TargetChange) -> (restart: Option<(String, String)>)
        ensures
            final(self)@ == spec_apply_change(old(self)@, change@).0,
            restart.deep_view() == spec_apply_change(old(self)@, change@).1,
    {
        match change {
            TargetChange::Initial { path, vcs } => {
                self.highest_version = vcs;
                self.active_path = Some(path);
                None
            },
            TargetChange::Changed { old_path, new_path, vcs } => {
                self.highest_version = vcs;
                Some((old_path, new_path))
            },
            TargetChange::Unchanged { vcs } => {
                if vcs > 0 {
                    self.highest_version = vcs;
                }
                None
            },
        }
    }
}

/// The snapshot a newly accepted relay session takes of its category's
/// slot: the active path to proxy to, or nothing when no target is
/// available yet — in which case the session must refuse to proxy.
pub fn relay_target(slot: &SessionSlot) -> (r: Option<String>)
    ensures
        r.deep_view() == slot@.active_path,
        r is Some <==> slot@.active_path is Some,
{
    match &slot.active_path {
        Option::Some(p) => Some(p.clone()),
        Option::None => None,
    }
}

/// The selector as a function: nothing from an empty candidate list,
/// otherwise the winning candidate and the raised ratchet.
pub open spec fn spec_selection(cands: Seq<TargetData>, current_vcs: u32) -> Option<
    (TargetData, u32),
> {
    if cands.len() == 0 {
        Option::None
    } else {
        let t = cands[spec_best_index(cands)];
        let v = if spec_vcs_or_zero(t.title) > current_vcs {
            spec_vcs_or_zero(t.title)
        } else {
            current_vcs
        };
        Option::Some((t, v))
    }
}

/// One full discovery cycle for one category, as a function of the
/// slot and the category's candidates.
pub open spec fn spec_update_slot(slot: SlotData, cands: Seq<TargetData>) -> (SlotData, Option<
    (Seq<char>, Seq<char>),
>) {
    spec_apply_change(
        slot,
        spec_check_change(spec_selection(cands, slot.highest_version), slot.active_path),
    )
}

/// A discovery cycle never lowers the ratchet and never abandons an
/// already active path on its own.
pub proof fn lemma_update_slot_ratchet(slot: SlotData, cands: Seq<TargetData>)
    ensures
        spec_update_slot(slot, cands).0.highest_version >= slot.highest_version,
        slot.active_path is Some ==> spec_update_slot(slot, cands).0.active_path
            == slot.active_path,
{
}

/// Runs one discovery cycle for one category: selection, change
/// detection, and the slot update. The returned pair of old and new
/// path, when present, asks the orchestrator for a restart. The
/// version ratchet never decreases, and an already active path is only
/// ever replaced by the restart sequence, not here.
pub fn update_category(slot: &mut SessionSlot, candidates: &Vec<DebugTarget>) -> (restart: Option<
    (String, String),
>)
    ensures
        final(slot)@ == spec_update_slot(old(slot)@, candidates.deep_view()).0,
        restart.deep_view() == spec_update_slot(old(slot)@, candidates.deep_view()).1,
        final(slot)@.highest_version >= old(slot)@.highest_version,
        old(slot)@.active_path is Some ==> final(slot)@.active_path == old(slot)@.active_path,
{
    let selection = crate::catalog::select_best_target(candidates, slot.highest_version);
    proof {
        assert(selection.deep_view() == spec_selection(
            candidates.deep_view(),
            old(slot)@.highest_version,
        ));
    }
    let change = check_target_change(selection, &slot.active_path);
    slot.apply_change(change)
}

/// Slot state after a sequence of discovery cycles, applied in order.
pub open spec fn spec_slot_after_cycles(slot: SlotData, cycles: Seq<Seq<TargetData>>) -> SlotData
    decreases cycles.len(),
{
    if cycles.len() == 0 {
        slot
    } else {
        spec_update_slot(spec_slot_after_cycles(slot, cycles.drop_last()), cycles.last()).0
    }
}

/// The ratchet is non-decreasing across any sequence of discovery
/// cycles, whatever candidate lists the cycles present.
pub proof fn lemma_ratchet_monotonic(slot: SlotData, cycles: Seq<Seq<TargetData>>, i: int, j: int)
    requires
        0 <= i <= j <= cycles.len(),
    ensures
        spec_slot_after_cycles(slot, cycles.take(i)).highest_version <= spec_slot_after_cycles(
            slot,
            cycles.take(j),
        ).highest_version,
    decreases j - i,
{
    if i < j {
        lemma_ratchet_monotonic(slot, cycles, i, j - 1);
        let prior = spec_slot_after_cycles(slot, cycles.take(j - 1));
        assert(cycles.take(j).drop_last() =~= cycles.take(j - 1));
        lemma_update_slot_ratchet(prior, cycles.take(j).last());
    }
}

/// The path the slot proxies to once a detected change has been fully
/// handled: an initial discovery adopts the token at once, a change is
/// adopted by the restart sequence, and anything else keeps the path.
pub open spec fn spec_path_after_cycle(
    change: ChangeData,
    current: Option<Seq<char>>,
) -> Option<Seq<char>> {
    match change {
        ChangeData::Initial { path, .. } => Option::Some(path),
        ChangeData::Changed { new_path, .. } => Option::Some(new_path),
        ChangeData::Unchanged { .. } => current,
    }
}

/// Change detection is idempotent: once a cycle's outcome has been
/// applied, re-running detection with the same selection and no
/// intervening path update reports no change.
pub proof fn lemma_detect_idempotent(
    result: Option<(TargetData, u32)>,
    current: Option<Seq<char>>,
)
    ensures
        spec_check_change(
            result,
            spec_path_after_cycle(spec_check_change(result, current), current),
        ) matches ChangeData::Unchanged { .. },
{
}

/// What one discovery failure means for the operator: a full diagnostic
/// on the first failure of a streak, a short reminder at a fixed
/// cadence, silence otherwise.
#[derive(PartialEq, Eq, Structural, Debug, Clone, Copy)]
pub enum FailureReport {
    FirstFailure,
    Periodic,
    Quiet,
}

/// Tracker for consecutive discovery failures and upstream availability.
pub struct DiscoveryStatus {
    pub consecutive_failures: u32,
    pub target_available: bool,
}

/// Report owed after a failure streak reaches `n`.
pub open spec fn spec_failure_report(n: u32) -> FailureReport {
    if n == 1 {
        FailureReport::FirstFailure
    } else if n % 5 == 0 {
        FailureReport::Periodic
    } else {
        FailureReport::Quiet
    }
}

impl DiscoveryStatus {
    /// Discovery starts with no failures and no target seen yet.
    pub fn new() -> (r: Self)
        ensures
            r.consecutive_failures == 0,
            !r.target_available,
    {
        DiscoveryStatus { consecutive_failures: 0, target_available: false }
    }

    /// Records one failed discovery cycle. The first failure of a
    /// streak demands the full diagnostic and marks the target
    /// unavailable; afterwards a short reminder is owed at every fifth
    /// failure.
    pub fn record_failure(&mut self) -> (r: FailureReport)
        ensures
            final(self).consecutive_failures == if old(self).consecutive_failures < 0xffff_ffffu32 {
                old(self).consecutive_failures + 1
            } else {
                old(self).consecutive_failures as int
            },
            final(self).target_available == (old(self).target_available
                && old(self).consecutive_failures != 0),
            r == spec_failure_report(final(self).consecutive_failures),
    {
        if self.consecutive_failures < 0xffff_ffff {
            self.consecutive_failures = self.consecutive_failures + 1;
        }
        if self.consecutive_failures == 1 {
            self.target_available = false;
            FailureReport::FirstFailure
        } else if self.consecutive_failures % 5 == 0 {
            FailureReport::Periodic
        } else {
            FailureReport::Quiet
        }
    }

    /// Records one successful discovery cycle: ends any failure streak
    /// and marks the target available. The first component reports a
    /// recovery after failures, the second the very first contact.
    pub fn record_success(&mut self) -> (r: (bool, bool))
        ensures
            final(self).consecutive_failures == 0,
            final(self).target_available,
            r.0 == (old(self).consecutive_failures > 0),
            r.1 == !old(self).target_available,
    {
        let back_online = self.consecutive_failures > 0;
        let newly_connected = !self.target_available;
        self.consecutive_failures = 0;
        self.target_available = true;
        (back_online, newly_connected)
    }
}

/// Advice from the connectivity watcher after one raw connection
/// attempt.
#[derive(PartialEq, Eq, Structural, Debug, Clone, Copy)]
pub enum ConnectAdvice {
    /// The endpoint accepted: stop waiting and proceed.
    Proceed,
    /// First failure: show the full troubleshooting diagnostic, retry.
    DiagnoseAndRetry,
    /// Later failures: retry with only a short notice.
    RetryQuietly,
}

/// Gates the connectivity watcher's diagnostics so the full
/// troubleshooting text is shown at most once per wait.
pub struct ConnectivityWatcher {
    pub shown_error: bool,
}

impl ConnectivityWatcher {
    /// A fresh watcher has shown nothing yet.
    pub fn new() -> (r: Self)
        ensures
            !r.shown_error,
    {
        ConnectivityWatcher { shown_error: false }
    }

    /// Digests one connection attempt: success ends the wait, the first
    /// failure earns the full diagnostic, later failures only a short
    /// retry notice.
    pub fn on_attempt(&mut self, success: bool) -> (r: ConnectAdvice)
        ensures
            success ==> r == ConnectAdvice::Proceed && final(self).shown_error == old(self).shown_error,
            !success && !old(self).shown_error ==> r == ConnectAdvice::DiagnoseAndRetry
                && final(self).shown_error,
            !success && old(self).shown_error ==> r == ConnectAdvice::RetryQuietly
                && final(self).shown_error,
    {
        if success {
            ConnectAdvice::Proceed
        } else if !self.shown_error {
            self.shown_error = true;
            ConnectAdvice::DiagnoseAndRetry
        } else {
            ConnectAdvice::RetryQuietly
        }
    }
}

} // verus!
