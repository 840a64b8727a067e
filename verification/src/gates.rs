//! Two-layer concurrency admission.
//!
//! Each transfer maintains a global gate bounding the in-flight chunk
//! operations across all bots, and one gate per participating bot bounding
//! the operations against a single sender. A worker acquires the global gate
//! first, then its bot's gate, and releases in reverse order; the fixed
//! nesting order precludes deadlock.

use vstd::prelude::*;
use crate::strutil::str_eq;

verus! {

/// Default capacity of the global gate.
pub const DEFAULT_MAX_GLOBAL_CONCURRENCY: u64 = 12;

/// Default capacity of each per-bot gate.
pub const DEFAULT_MAX_PER_BOT_CONCURRENCY: u64 = 3;

/// A counting gate: at most `capacity` holders at once.
#[derive(Debug, Clone, Copy)]
pub struct Gate {
    pub capacity: u64,
    pub in_flight: u64,
}

/// A gate never holds more than its capacity.
pub open spec fn gate_wf(g: Gate) -> bool {
    g.in_flight <= g.capacity
}

impl Gate {
    /// A fresh gate with nothing in flight.
    pub fn new(capacity: u64) -> (g: Gate)
        ensures
            g.capacity == capacity,
            g.in_flight == 0,
            gate_wf(g),
    {
        Gate { capacity, in_flight: 0 }
    }

    /// Take a permit when one is free; never blocks.
    pub fn try_acquire(&mut self) -> (r: bool)
        requires
            gate_wf(*old(self)),
        ensures
            gate_wf(*final(self)),
            final(self).capacity == old(self).capacity,
            r == (old(self).in_flight < old(self).capacity),
            r ==> final(self).in_flight == old(self).in_flight + 1,
            !r ==> final(self).in_flight == old(self).in_flight,
    {
        if self.in_flight < self.capacity {
            self.in_flight = self.in_flight + 1;
            true
        } else {
            false
        }
    }

    /// Give a permit back.
    pub fn release(&mut self)
        requires
            old(self).in_flight >= 1,
        ensures
            final(self).capacity == old(self).capacity,
            final(self).in_flight == old(self).in_flight - 1,
    {
        self.in_flight = self.in_flight - 1;
    }
}

/// Admit one chunk operation: global gate first, then the bot's gate. Either
/// both permits are taken or neither is.
pub fn try_admit(global: &mut Gate, bot: &mut Gate) -> (r: bool)
    requires
        gate_wf(*old(global)),
        gate_wf(*old(bot)),
    ensures
        gate_wf(*final(global)),
        gate_wf(*final(bot)),
        final(global).capacity == old(global).capacity,
        final(bot).capacity == old(bot).capacity,
        r == (old(global).in_flight < old(global).capacity && old(bot).in_flight < old(
            bot,
        ).capacity),
        r ==> final(global).in_flight == old(global).in_flight + 1 && final(bot).in_flight == old(
            bot,
        ).in_flight + 1,
        !r ==> final(global).in_flight == old(global).in_flight && final(bot).in_flight == old(
            bot,
        ).in_flight,
{
    if global.try_acquire() {
        if bot.try_acquire() {
            true
        } else {
            global.release();
            false
        }
    } else {
        false
    }
}

/// Release one chunk operation's permits, bot gate first, global gate last:
/// the reverse of the acquisition order.
pub fn release_admitted(global: &mut Gate, bot: &mut Gate)
    requires
        old(global).in_flight >= 1,
        old(bot).in_flight >= 1,
    ensures
        final(global).capacity == old(global).capacity,
        final(bot).capacity == old(bot).capacity,
        final(global).in_flight == old(global).in_flight - 1,
        final(bot).in_flight == old(bot).in_flight - 1,
{
    bot.release();
    global.release();
}

/// The per-bot gates of one transfer, keyed by bot id.
#[derive(Debug)]
pub struct BotGates {
    pub entries: Vec<(String, Gate)>,
}

impl BotGates {
    /// Every gate is well-formed.
    pub open spec fn wf(&self) -> bool {
        forall|i: int| 0 <= i < self.entries@.len() ==> gate_wf((#[trigger] self.entries@[i]).1)
    }

    /// The index of `bot_id`'s gate.
    pub fn find(&self, bot_id: &str) -> (r: Option<usize>)
        ensures
            r matches Some(i) ==> i < self.entries@.len() && self.entries@[i as int].0@ == bot_id@,
            r is None ==> forall|i: int|
                0 <= i < self.entries@.len() ==> (#[trigger] self.entries@[i]).0@ != bot_id@,
    {
        let mut i: usize = 0;
        let n = self.entries.len();
        while i < n
            invariant
                0 <= i <= n,
                n == self.entries@.len(),
                forall|j: int| 0 <= j < i ==> (#[trigger] self.entries@[j]).0@ != bot_id@,
            decreases n - i,
        {
            if str_eq(self.entries[i].0.as_str(), bot_id) {
                return Some(i);
            }
            i = i + 1;
        }
        None
    }
}

/// One fresh gate of capacity `per_bot_capacity` per participating bot.
pub fn build_per_bot_gates(bot_ids: &Vec<String>, per_bot_capacity: u64) -> (r: BotGates)
    ensures
        r.wf(),
        r.entries@.len() == bot_ids@.len(),
        forall|i: int|
            0 <= i < bot_ids@.len() ==> (#[trigger] r.entries@[i]).0@ == bot_ids@[i]@
                && r.entries@[i].1.capacity == per_bot_capacity && r.entries@[i].1.in_flight == 0,
{
    let mut entries: Vec<(String, Gate)> = Vec::new();
    let mut i: usize = 0;
    let n = bot_ids.len();
    while i < n
        invariant
            0 <= i <= n,
            n == bot_ids@.len(),
            entries@.len() == i,
            forall|j: int|
                0 <= j < i ==> (#[trigger] entries@[j]).0@ == bot_ids@[j]@ && entries@[j].1.capacity
                    == per_bot_capacity && entries@[j].1.in_flight == 0,
        decreases n - i,
    {
        entries.push((bot_ids[i].clone(), Gate::new(per_bot_capacity)));
        i = i + 1;
    }
    BotGates { entries }
}

} // verus!
