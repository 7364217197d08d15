//! The command channel's state machine: tracks the USB configuration state
//! across polls, fires the one-time bus configure action on each entry
//! edge, and decides when a pulled report triggers the reboot.

use vstd::prelude::*;
use crate::command::{is_reboot_command, is_reboot_report};

verus! {

/// The channel's view of the USB device state: either the device stack
/// reported `Configured`, or anything else.
#[derive(Clone, Copy, Debug, PartialEq, Eq, Structural)]
pub enum UsbState {
    NotConfigured,
    Configured,
}

/// Outcome of one non-blocking attempt to pull an output report.
#[derive(Clone, Copy, Debug, PartialEq, Eq, Structural)]
pub enum PullOutcome {
    /// A report arrived; its payload holds this many valid bytes.
    Received(usize),
    /// No report is pending.  The expected steady state, not an error.
    WouldBlock,
    /// The transport failed.  The channel swallows it.
    Failed,
}

/// What one poll step asks the surrounding driver to do.
#[derive(Clone, Copy, Debug, PartialEq, Eq, Structural)]
pub struct PollActions {
    /// Run the one-time bus configure action now.
    pub configure_bus: bool,
    /// Attempt to pull one raw output report.
    pub pull_report: bool,
}

/// The flag the state machine holds after one step that observes `observed`.
pub open spec fn next_configured(prev: bool, observed: UsbState) -> bool {
    observed is Configured
}

/// Whether one step that observes `observed` fires the one-time bus
/// configure action: only on the edge into `Configured`.
pub open spec fn fires_configure(prev: bool, observed: UsbState) -> bool {
    observed is Configured && !prev
}

/// Whether a pulled report triggers the reboot: only while the channel is
/// configured, only when a report actually arrived, and only when its valid
/// bytes spell the reboot command.
pub open spec fn reboot_requested(configured: bool, outcome: PullOutcome, bytes: Seq<u8>) -> bool {
    &&& configured
    &&& outcome matches PullOutcome::Received(len) && is_reboot_report(bytes, len as int)
}

/// The HID command channel's own state.  The surrounding driver owns the
/// USB device and HID class; this type owns the decisions.
pub struct CommandChannel {
    configured: bool,
}

impl CommandChannel {
    /// Whether the last observed USB device state was `Configured`.
    pub closed spec fn spec_configured(&self) -> bool {
        self.configured
    }

    /// A fresh channel: no device state observed yet, so not configured.
    pub fn new() -> (c: CommandChannel)
        ensures
            !c.spec_configured(),
    {
        CommandChannel { configured: false }
    }

    /// Whether the channel currently considers the device configured.
    pub fn is_configured(&self) -> (r: bool)
        ensures
            r == self.spec_configured(),
    {
        self.configured
    }

    /// One step of the configuration state machine.  The driver reports the
    /// device state it just observed; the channel updates its cached flag
    /// and answers which side effects this step performs: the bus configure
    /// action fires exactly on the edge into `Configured`, and a report
    /// pull is attempted exactly while configured.
    pub fn poll_state(&mut self, observed: UsbState) -> (actions: PollActions)
        ensures
            final(self).spec_configured() == next_configured(old(self).spec_configured(), observed),
            actions.configure_bus == fires_configure(old(self).spec_configured(), observed),
            actions.pull_report == final(self).spec_configured(),
    {
        match observed {
            UsbState::Configured => {
                let fire = !self.configured;
                self.configured = true;
                PollActions { configure_bus: fire, pull_report: true }
            }
            UsbState::NotConfigured => {
                self.configured = false;
                PollActions { configure_bus: false, pull_report: false }
            }
        }
    }

    /// Decide on one pulled report.  Returns whether the driver must now
    /// reboot into the bootloader: only a report received while configured
    /// whose valid bytes spell the reboot command.  Would-block and
    /// transport errors decide nothing, and the channel itself is left
    /// untouched (it is taken immutably).
    pub fn handle_report(&self, outcome: PullOutcome, buf: &[u8; 6]) -> (reboot: bool)
        ensures
            reboot == reboot_requested(self.spec_configured(), outcome, buf@),
    {
        if !self.configured {
            return false;
        }
        match outcome {
            PullOutcome::Received(len) => is_reboot_command(buf, len),
            PullOutcome::WouldBlock => false,
            PullOutcome::Failed => false,
        }
    }
}

/// The cached flag after the machine has processed the observations in
/// `states` in order, starting from `init`.
pub open spec fn configured_after(init: bool, states: Seq<UsbState>) -> bool
    decreases states.len(),
{
    if states.len() == 0 {
        init
    } else {
        next_configured(configured_after(init, states.drop_last()), states.last())
    }
}

/// How many times the one-time bus configure action fires while the machine
/// processes the observations in `states` in order, starting from `init`.
pub open spec fn configure_count(init: bool, states: Seq<UsbState>) -> nat
    decreases states.len(),
{
    if states.len() == 0 {
        0
    } else {
        configure_count(init, states.drop_last())
            + (if fires_configure(configured_after(init, states.drop_last()), states.last()) {
                1nat
            } else {
                0nat
            })
    }
}

/// Step `i` of `states` observes an entry edge: it reports `Configured`
/// while the observation just before it (or the initial flag, for the first
/// step) did not.
pub open spec fn entry_edge(init: bool, states: Seq<UsbState>, i: int) -> bool {
    &&& states[i] is Configured
    &&& (if i == 0 { !init } else { !(states[i - 1] is Configured) })
}

/// How many steps of `states` observe an entry edge.
pub open spec fn entry_edge_count(init: bool, states: Seq<UsbState>) -> nat
    decreases states.len(),
{
    if states.len() == 0 {
        0
    } else {
        entry_edge_count(init, states.drop_last())
            + (if entry_edge(init, states, states.len() - 1) { 1nat } else { 0nat })
    }
}

/// The cached flag tracks the bus: after any run it equals the last
/// observation, or the initial flag when nothing was observed yet.
pub proof fn lemma_configured_tracks_last_observation(init: bool, states: Seq<UsbState>)
    ensures
        configured_after(init, states) == (if states.len() == 0 {
            init
        } else {
            states.last() is Configured
        }),
{
}

/// Dropping the last observation changes no earlier edge.
proof fn lemma_entry_edge_in_prefix(init: bool, states: Seq<UsbState>, i: int)
    requires
        0 <= i < states.len() - 1,
    ensures
        entry_edge(init, states.drop_last(), i) == entry_edge(init, states, i),
{
    let prefix = states.drop_last();
    assert(prefix[i] == states[i]);
    if i > 0 {
        assert(prefix[i - 1] == states[i - 1]);
    }
}

/// The configure action fires exactly on the entry edges of the observation
/// sequence: the cached flag never lets it fire on a sustained `Configured`
/// run, and never lets it miss a fresh entry.
pub proof fn lemma_configure_count_is_entry_edge_count(init: bool, states: Seq<UsbState>)
    ensures
        configure_count(init, states) == entry_edge_count(init, states),
    decreases states.len(),
{
    if states.len() > 0 {
        let prefix = states.drop_last();
        lemma_configure_count_is_entry_edge_count(init, prefix);
        lemma_configured_tracks_last_observation(init, prefix);
        if prefix.len() > 0 {
            assert(prefix.last() == states[states.len() - 2]);
        }
    }
}

/// A run with no entry edge fires the configure action zero times.
proof fn lemma_entry_edge_count_zero(init: bool, states: Seq<UsbState>)
    requires
        forall|i: int| 0 <= i < states.len() ==> !entry_edge(init, states, i),
    ensures
        entry_edge_count(init, states) == 0,
    decreases states.len(),
{
    if states.len() > 0 {
        let prefix = states.drop_last();
        assert forall|i: int| 0 <= i < prefix.len() implies !entry_edge(init, prefix, i) by {
            lemma_entry_edge_in_prefix(init, states, i);
            assert(!entry_edge(init, states, i));
        }
        lemma_entry_edge_count_zero(init, prefix);
        assert(!entry_edge(init, states, states.len() - 1));
    }
}

/// A run whose only entry edge is at step `k` counts exactly one edge.
proof fn lemma_entry_edge_count_single(init: bool, states: Seq<UsbState>, k: int)
    requires
        0 <= k < states.len(),
        entry_edge(init, states, k),
        forall|i: int| 0 <= i < states.len() && i != k ==> !entry_edge(init, states, i),
    ensures
        entry_edge_count(init, states) == 1,
    decreases states.len(),
{
    let n = states.len() as int;
    let prefix = states.drop_last();
    if k == n - 1 {
        assert forall|i: int| 0 <= i < prefix.len() implies !entry_edge(init, prefix, i) by {
            lemma_entry_edge_in_prefix(init, states, i);
            assert(!entry_edge(init, states, i));
        }
        lemma_entry_edge_count_zero(init, prefix);
    } else {
        assert(!entry_edge(init, states, n - 1));
        lemma_entry_edge_in_prefix(init, states, k);
        assert forall|i: int| 0 <= i < prefix.len() && i != k implies !entry_edge(init, prefix, i) by {
            lemma_entry_edge_in_prefix(init, states, i);
            assert(!entry_edge(init, states, i));
        }
        lemma_entry_edge_count_single(init, prefix, k);
    }
}

/// A run whose only entry edges are at steps `j` and `k` counts exactly two.
proof fn lemma_entry_edge_count_double(init: bool, states: Seq<UsbState>, j: int, k: int)
    requires
        0 <= j < k < states.len(),
        entry_edge(init, states, j),
        entry_edge(init, states, k),
        forall|i: int| 0 <= i < states.len() && i != j && i != k ==> !entry_edge(init, states, i),
    ensures
        entry_edge_count(init, states) == 2,
    decreases states.len(),
{
    let n = states.len() as int;
    let prefix = states.drop_last();
    if k == n - 1 {
        lemma_entry_edge_in_prefix(init, states, j);
        assert forall|i: int| 0 <= i < prefix.len() && i != j implies !entry_edge(init, prefix, i) by {
            lemma_entry_edge_in_prefix(init, states, i);
            assert(!entry_edge(init, states, i));
        }
        lemma_entry_edge_count_single(init, prefix, j);
    } else {
        assert(!entry_edge(init, states, n - 1));
        lemma_entry_edge_in_prefix(init, states, j);
        lemma_entry_edge_in_prefix(init, states, k);
        assert forall|i: int| 0 <= i < prefix.len() && i != j && i != k implies !entry_edge(
            init,
            prefix,
            i,
        ) by {
            lemma_entry_edge_in_prefix(init, states, i);
            assert(!entry_edge(init, states, i));
        }
        lemma_entry_edge_count_double(init, prefix, j, k);
    }
}

/// A run that never observes `Configured` never fires the configure action.
pub proof fn lemma_never_configured_never_fires(states: Seq<UsbState>)
    requires
        forall|i: int| 0 <= i < states.len() ==> !(states[i] is Configured),
    ensures
        configure_count(false, states) == 0,
{
    assert forall|i: int| 0 <= i < states.len() implies !entry_edge(false, states, i) by {
        assert(!(states[i] is Configured));
    }
    lemma_entry_edge_count_zero(false, states);
    lemma_configure_count_is_entry_edge_count(false, states);
}

/// A run that observes the entry into `Configured` exactly once fires the
/// configure action exactly once, however long it stays configured.
pub proof fn lemma_single_entry_fires_once(states: Seq<UsbState>, k: int)
    requires
        0 <= k < states.len(),
        entry_edge(false, states, k),
        forall|i: int| 0 <= i < states.len() && i != k ==> !entry_edge(false, states, i),
    ensures
        configure_count(false, states) == 1,
{
    lemma_entry_edge_count_single(false, states, k);
    lemma_configure_count_is_entry_edge_count(false, states);
}

/// A run that enters `Configured`, loses it, and enters again fires the
/// configure action exactly twice: once per entry edge.
pub proof fn lemma_reentry_fires_twice(states: Seq<UsbState>, j: int, k: int)
    requires
        0 <= j < k < states.len(),
        entry_edge(false, states, j),
        entry_edge(false, states, k),
        forall|i: int| 0 <= i < states.len() && i != j && i != k ==> !entry_edge(false, states, i),
    ensures
        configure_count(false, states) == 2,
{
    lemma_entry_edge_count_double(false, states, j, k);
    lemma_configure_count_is_entry_edge_count(false, states);
}

/// A channel that is already configured and stays configured never fires
/// the configure action again.
pub proof fn lemma_sustained_configured_never_fires(states: Seq<UsbState>)
    requires
        forall|i: int| 0 <= i < states.len() ==> states[i] is Configured,
    ensures
        configure_count(true, states) == 0,
{
    assert forall|i: int| 0 <= i < states.len() implies !entry_edge(true, states, i) by {
        if i > 0 {
            assert(states[i - 1] is Configured);
        }
    }
    lemma_entry_edge_count_zero(true, states);
    lemma_configure_count_is_entry_edge_count(true, states);
}

/// A pull that would block never requests a reboot, whatever the channel
/// state and the buffer hold; `handle_report` takes the channel immutably,
/// so the channel state is untouched besides.
pub proof fn lemma_would_block_requests_nothing(configured: bool, bytes: Seq<u8>)
    ensures
        !reboot_requested(configured, PullOutcome::WouldBlock, bytes),
{
}

} // verus!
