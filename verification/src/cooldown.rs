//! The cooldown cache: a time-windowed record of the targets that were
//! relayed last, which keeps one magic packet from being relayed again and
//! again while it echoes between segments.
//!
//! Time is a count of ticks that the caller reads from a monotonic clock; the
//! cache never looks at a clock itself.

use crate::common::MacAddr;
use std::collections::HashMap;
use vstd::prelude::*;

verus! {

broadcast use vstd::std_specs::hash::group_hash_axioms;

/// The window, in milliseconds, that the relay stages use.
pub const COOLDOWN_MS: u64 = 1000;

/// What a cache knows: its window and, for each target key, the time at
/// which that target was last relayed.
pub struct CooldownState {
    pub window: u64,
    pub last_relay: Map<u64, u64>,
}

/// Ticks that passed between `then` and `now`; zero if the clock reads
/// earlier than `then`.
pub open spec fn elapsed(then: u64, now: u64) -> int {
    if now >= then {
        now - then
    } else {
        0
    }
}

impl CooldownState {
    /// A target is cooling down at `now` when it was relayed before and
    /// fewer ticks than the window have passed since.
    pub open spec fn is_cooling(self, target: MacAddr, now: u64) -> bool {
        self.last_relay.contains_key(target.key()) && elapsed(
            self.last_relay[target.key()],
            now,
        ) < self.window
    }

    /// The decision for a packet that targets `target` and arrives at `now`.
    pub open spec fn should_relay(self, target: MacAddr, now: u64) -> bool {
        !self.is_cooling(target, now)
    }

    /// The state after the decision for `target` at `now`: a relayed target
    /// is recorded with `now`, a suppressed one changes nothing.
    pub open spec fn after(self, target: MacAddr, now: u64) -> CooldownState {
        if self.should_relay(target, now) {
            CooldownState {
                window: self.window,
                last_relay: self.last_relay.insert(target.key(), now),
            }
        } else {
            self
        }
    }
}

/// Dedup cache keyed by target hardware address.
pub struct CooldownCache {
    window: u64,
    last_relay: HashMap<u64, u64>,
}

impl View for CooldownCache {
    type V = CooldownState;

    closed spec fn view(&self) -> CooldownState {
        CooldownState { window: self.window, last_relay: self.last_relay@ }
    }
}

impl CooldownCache {
    /// An empty cache with the given window.
    pub fn new(window: u64) -> (cache: CooldownCache)
        ensures
            cache@.window == window,
            cache@.last_relay == Map::<u64, u64>::empty(),
    {
        CooldownCache { window, last_relay: HashMap::new() }
    }

    /// The window this cache was made with.
    pub fn window(&self) -> (w: u64)
        ensures
            w == self@.window,
    {
        self.window
    }

    /// The time at which `target` was last relayed, if the cache holds it.
    pub fn last_relay(&self, target: MacAddr) -> (t: Option<u64>)
        ensures
            t == (if self@.last_relay.contains_key(target.key()) {
                Some(self@.last_relay[target.key()])
            } else {
                None
            }),
    {
        let key: u64 = target.to_key();
        match self.last_relay.get(&key) {
            Some(t) => Some(*t),
            None => None,
        }
    }

    /// Decides whether a packet for `target` that arrives at `now` is
    /// relayed. An unseen target, or one whose last relay lies a full window
    /// or more in the past, is relayed and recorded with `now`; any other is
    /// suppressed and the cache stays as it is.
    pub fn should_relay(&mut self, target: MacAddr, now: u64) -> (relay: bool)
        ensures
            relay == old(self)@.should_relay(target, now),
            final(self)@ == old(self)@.after(target, now),
    {
        let cooling: bool = match self.last_relay(target) {
            Some(then) => {
                let since: u64 = if now >= then {
                    now - then
                } else {
                    0
                };
                since < self.window
            },
            None => false,
        };
        if cooling {
            false
        } else {
            // An expired entry is replaced, never kept beside the new one.
            self.last_relay.insert(target.to_key(), now);
            true
        }
    }
}

/// A cache that has seen nothing relays every target.
pub proof fn lemma_unseen_target_relays(state: CooldownState, target: MacAddr, now: u64)
    requires
        !state.last_relay.contains_key(target.key()),
    ensures
        state.should_relay(target, now),
        state.after(target, now).last_relay[target.key()] == now,
{
}

/// The cooldown law. Once a packet for `target` is relayed at `t0`, a packet
/// for the same target at any later time `t` is suppressed while fewer ticks
/// than the window have passed, and leaves the cache untouched; from a full
/// window on it is relayed again.
pub proof fn lemma_cooldown_window(state: CooldownState, target: MacAddr, t0: u64, t: u64)
    requires
        state.should_relay(target, t0),
        t0 <= t,
    ensures
        t - t0 < state.window ==> !state.after(target, t0).should_relay(target, t),
        t - t0 < state.window ==> state.after(target, t0).after(target, t) == state.after(
            target,
            t0,
        ),
        t - t0 >= state.window ==> state.after(target, t0).should_relay(target, t),
{
}

/// A decision for one target neither depends on nor changes what the cache
/// holds for another.
pub proof fn lemma_targets_independent(
    state: CooldownState,
    target: MacAddr,
    other: MacAddr,
    t0: u64,
    t: u64,
)
    requires
        target != other,
    ensures
        state.after(other, t0).should_relay(target, t) == state.should_relay(target, t),
{
    if target.key() == other.key() {
        crate::common::lemma_mac_key_injective(target, other);
    }
}

} // verus!
