use vstd::prelude::*;

verus! {

/// Elapsed time is kept in nanoseconds scaled by the tick rate, so that one
/// tick of 1/60 s is exactly this many units.
pub const UNITS_PER_TICK: u64 = 1_000_000_000;

/// Ticks per second.
pub const TICK_RATE: u64 = 60;

/// What a timer holds: its count, and the time elapsed since its last tick
/// (in nanoseconds times the tick rate).
pub struct TimerView {
    pub count: u8,
    pub pending: nat,
}

/// The state of a timer after `dt_nanos` more nanoseconds: one decrement for
/// each whole tick, stopping at zero, and the rest of the time carried on.
pub open spec fn advance(t: TimerView, dt_nanos: u64) -> TimerView {
    let total = t.pending + TICK_RATE * dt_nanos;
    let ticks = total / UNITS_PER_TICK as int;
    TimerView {
        count: if ticks >= t.count { 0 } else { (t.count - ticks) as u8 },
        pending: (total % UNITS_PER_TICK as int) as nat,
    }
}

/// A byte counter that counts down toward zero at 60 Hz.
pub struct Timer {
    count: u8,
    pending: u64,
}

impl View for Timer {
    type V = TimerView;

    closed spec fn view(&self) -> TimerView {
        TimerView { count: self.count, pending: self.pending as nat }
    }
}

impl Timer {
    pub fn new() -> (r: Self)
        ensures
            r@ == (TimerView { count: 0, pending: 0 }),
    {
        Self { count: 0, pending: 0 }
    }

    pub fn set_count(&mut self, count: u8)
        ensures
            final(self)@ == (TimerView { count, pending: old(self)@.pending }),
    {
        self.count = count;
    }

    pub fn count(&self) -> (r: u8)
        ensures
            r == self@.count,
    {
        self.count
    }

    /// Lets `dt_nanos` nanoseconds of real time pass.
    pub fn update(&mut self, dt_nanos: u64)
        ensures
            final(self)@ == advance(old(self)@, dt_nanos),
    {
        let scaled: u128 = dt_nanos as u128 * 60;
        let total: u128 = self.pending as u128 + scaled;
        let ticks: u128 = total / UNITS_PER_TICK as u128;
        if ticks >= self.count as u128 {
            self.count = 0;
        } else {
            self.count = self.count - ticks as u8;
        }
        self.pending = (total % UNITS_PER_TICK as u128) as u64;
    }
}

/// A timer's count never rises as time passes, so once at zero it stays there.
pub proof fn lemma_timer_never_rises(t: TimerView, dt_nanos: u64)
    ensures
        advance(t, dt_nanos).count <= t.count,
        t.count == 0 ==> advance(t, dt_nanos).count == 0,
{
}

/// Time enough for `count` ticks brings a timer to zero: one second drains
/// any count up to 60.
pub proof fn lemma_timer_drains(t: TimerView, dt_nanos: u64)
    requires
        TICK_RATE * dt_nanos >= t.count * UNITS_PER_TICK,
    ensures
        advance(t, dt_nanos).count == 0,
{
    let total = t.pending + TICK_RATE * dt_nanos;
    assert(total >= t.count * UNITS_PER_TICK);
    assert(total / UNITS_PER_TICK as int >= t.count) by {
        vstd::arithmetic::div_mod::lemma_div_is_ordered(
            t.count * UNITS_PER_TICK as int,
            total,
            UNITS_PER_TICK as int,
        );
        vstd::arithmetic::div_mod::lemma_div_multiples_vanish(t.count as int, UNITS_PER_TICK as int);
    }
}

} // verus!
