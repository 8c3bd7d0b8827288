//! High resolution timers: the restart policy that a timer callback returns, and the traits
//! through which timers embedded in other structures are scheduled and cancelled.
//!
//! Scheduling a timer returns a [`TimerHandle`] that can be used to manipulate the timer. It is
//! fine to schedule repeatedly, and more than one handle for the same timer may exist.

use vstd::prelude::*;
use vstd::std_specs::convert::FromSpecImpl;
use core::marker::PhantomData;
use std::collections::TryReserveError;
use crate::error::Error;
use crate::ringbuffer::Flags;
use crate::time::Ktime;

verus! {

/// The raw restart policy of the C interface.
pub type HrtimerRestart = u32;

/// The raw value of [`TimerRestart::NoRestart`].
pub const HRTIMER_NORESTART: HrtimerRestart = 0;

/// The raw value of [`TimerRestart::Restart`].
pub const HRTIMER_RESTART: HrtimerRestart = 1;

/// Restart policy for timers.
#[derive(Debug, Clone, Copy, PartialEq, Eq, Structural)]
pub enum TimerRestart {
    /// Timer should not be restarted.
    NoRestart,
    /// Timer should be restarted.
    Restart,
}

/// The policy that a raw value stands for: zero means no restart, anything else a restart.
pub open spec fn restart_of_raw(value: HrtimerRestart) -> TimerRestart {
    if value == 0 {
        TimerRestart::NoRestart
    } else {
        TimerRestart::Restart
    }
}

/// The raw value of a policy.
pub open spec fn raw_of_restart(value: TimerRestart) -> HrtimerRestart {
    match value {
        TimerRestart::NoRestart => HRTIMER_NORESTART,
        TimerRestart::Restart => HRTIMER_RESTART,
    }
}

impl From<HrtimerRestart> for TimerRestart {
    fn from(value: HrtimerRestart) -> (r: Self)
        ensures
            value == 0 ==> r == TimerRestart::NoRestart,
            value != 0 ==> r == TimerRestart::Restart,
    {
        match value {
            0 => Self::NoRestart,
            _ => Self::Restart,
        }
    }
}

impl FromSpecImpl<HrtimerRestart> for TimerRestart {
    open spec fn obeys_from_spec() -> bool {
        true
    }

    open spec fn from_spec(v: HrtimerRestart) -> Self {
        restart_of_raw(v)
    }
}

impl From<TimerRestart> for HrtimerRestart {
    fn from(value: TimerRestart) -> (r: Self)
        ensures
            value == TimerRestart::NoRestart ==> r == 0,
            value == TimerRestart::Restart ==> r == 1,
    {
        match value {
            TimerRestart::NoRestart => HRTIMER_NORESTART,
            TimerRestart::Restart => HRTIMER_RESTART,
        }
    }
}

impl FromSpecImpl<TimerRestart> for HrtimerRestart {
    open spec fn obeys_from_spec() -> bool {
        true
    }

    open spec fn from_spec(v: TimerRestart) -> Self {
        raw_of_restart(v)
    }
}

/// Converting a policy to its raw value and back gives the policy again, and a raw value
/// survives the round trip exactly when it is one of the two values of the C interface.
pub proof fn lemma_restart_round_trip(policy: TimerRestart, raw: HrtimerRestart)
    ensures
        restart_of_raw(raw_of_restart(policy)) == policy,
        raw_of_restart(restart_of_raw(raw)) == raw <==> (raw == HRTIMER_NORESTART || raw == HRTIMER_RESTART),
{
}

/// A handle representing a potentially armed timer.
///
/// More than one handle representing the same timer might exist. When dropped, the timer
/// represented by a handle must be cancelled if it is armed; if its handler is running, the
/// drop must wait for the handler to finish.
pub trait TimerHandle {
    /// Cancel the timer, if it is armed. If the timer handler is running, block till the
    /// handler has finished. Returns whether the timer was armed.
    fn cancel(&mut self) -> bool;
}

/// Implemented by pointer types that point to structs that embed a timer.
///
/// Typical implementers would be `Box<T>` or `Arc<T>` where `T` has a timer field. The target
/// must be [`Sync`] because timer callbacks happen in another thread of execution.
pub trait TimerPointer: Sync + Sized {
    /// A handle representing a scheduled timer. It must be fine to leak it.
    type TimerHandle: TimerHandle;

    /// Schedule the timer after `expires` time units. If the timer was already scheduled, it is
    /// rescheduled at the new expiry time.
    fn schedule(self, expires: Ktime) -> Self::TimerHandle;
}

/// Version of [`TimerPointer`] for timers whose handle must not be leaked, such as timers on
/// the stack.
///
/// Implementers must ensure that the pointed-to timer outlives every handle returned by
/// `schedule`; callers keep that promise by dropping the handle before the timer goes away.
pub trait UnsafeTimerPointer: Sync + Sized {
    /// A handle representing a scheduled timer. Its drop must not return while the timer is
    /// armed or its callback runs.
    type TimerHandle: TimerHandle;

    /// Schedule the timer after `expires` time units. If the timer was already scheduled, it is
    /// rescheduled at the new expiry time.
    fn schedule(self, expires: Ktime) -> Self::TimerHandle;
}

/// A trait for stack allocated timers.
pub trait ScopedTimerPointer: Sized {
    /// Schedule the timer to run after `expires` time units and immediately after call `f`.
    /// When `f` returns, the timer is cancelled. The result is that of `f`.
    ///
    /// For pointers that implement [`UnsafeTimerPointer`], the contract also states that
    /// `schedule` was called on the pointer with `expires`. The order of the calls and the
    /// cancelling, which the drop of the handle does, are not stated.
    fn schedule_scoped<T, F>(self, expires: Ktime, f: F) -> (r: T) where F: FnOnce() -> T
        requires
            f.requires(()),
        ensures
            f.ensures((), r),
    ;
}

impl<U> ScopedTimerPointer for U where U: UnsafeTimerPointer {
    /// Besides the result of `f`, states that [`UnsafeTimerPointer::schedule`] was called on
    /// `self` with `expires` itself and returned a handle.
    fn schedule_scoped<T, F>(self, expires: Ktime, f: F) -> (r: T) where F: FnOnce() -> T
        ensures
            exists|handle: U::TimerHandle| #[trigger] call_ensures(U::schedule, (self, expires), handle),
    {
        // The handle is dropped, and with it the timer cancelled, when the block ends.
        let t = {
            let _handle = UnsafeTimerPointer::schedule(self, expires);
            f()
        };
        t
    }
}

/// How the expiry time of a timer is read.
#[derive(Debug, Clone, Copy, PartialEq, Eq, Structural)]
pub enum TimerMode {
    /// The expiry time is an absolute point in time.
    Absolute,
    /// The expiry time is relative to the moment the timer is started.
    Relative,
}

/// The clock that a timer runs on.
#[derive(Debug, Clone, Copy, PartialEq, Eq, Structural)]
pub enum ClockSource {
    /// Wall-clock time, which can jump.
    RealTime,
    /// Time that only moves forward and stops during suspend.
    Monotonic,
    /// Monotonic time that also counts suspend.
    BootTime,
    /// International atomic time.
    TAI,
}

/// The setup of a timer embedded in a structure: its mode and clock.
///
/// Arming, firing and cancelling the timer are done by the C timer subsystem and are not
/// recorded here.
pub struct Timer {
    mode: TimerMode,
    clock: ClockSource,
}

impl Timer {
    /// The mode the timer was set up with.
    pub closed spec fn mode(&self) -> TimerMode {
        self.mode
    }

    /// The clock the timer was set up with.
    pub closed spec fn clock(&self) -> ClockSource {
        self.clock
    }

    /// Returns the mode the timer was set up with.
    pub fn timer_mode(&self) -> (r: TimerMode)
        ensures
            r == self.mode(),
    {
        self.mode
    }

    /// Returns the clock the timer was set up with.
    pub fn clock_source(&self) -> (r: ClockSource)
        ensures
            r == self.clock(),
    {
        self.clock
    }

    /// Sets up a new timer: relative to the moment it is started, on the monotonic clock. The
    /// timer is not started.
    pub fn new() -> (r: Self)
        ensures
            r.mode() == TimerMode::Relative,
            r.clock() == ClockSource::Monotonic,
    {
        Timer { mode: TimerMode::Relative, clock: ClockSource::Monotonic }
    }
}

/// Implemented by structs that embed a [`Timer`] at the byte offset `OFFSET`.
///
/// Addresses are plain numbers here: the timer of the struct at address `a` lies at
/// `a + OFFSET`, and the struct whose timer lies at address `t` starts at `t - OFFSET`.
pub trait HasTimer<U> {
    /// Offset of the [`Timer`] field within `Self`.
    const OFFSET: usize;

    /// Return the address of the [`Timer`] within the `Self` at address `ptr`.
    fn raw_get_timer(ptr: usize) -> (r: usize)
        requires
            ptr + Self::OFFSET <= usize::MAX,
        ensures
            r == ptr + Self::OFFSET,
    {
        ptr + Self::OFFSET
    }

    /// Return the address of the struct that embeds the [`Timer`] at address `ptr`.
    fn timer_container_of(ptr: usize) -> (r: usize)
        requires
            ptr >= Self::OFFSET,
        ensures
            r == ptr - Self::OFFSET,
    {
        ptr - Self::OFFSET
    }
}

/// Going from a struct to its timer and back gives the struct again, and going from a timer to
/// its struct and back gives the timer again: [`HasTimer::timer_container_of`] undoes
/// [`HasTimer::raw_get_timer`], and the other way round.
pub proof fn lemma_timer_container_round_trip<U, S: HasTimer<U>>(container: usize, timer: usize)
    ensures
        container + S::OFFSET <= usize::MAX ==> (container + S::OFFSET) - S::OFFSET == container
            && container + S::OFFSET >= S::OFFSET,
        timer >= S::OFFSET ==> (timer - S::OFFSET) + S::OFFSET == timer && (timer - S::OFFSET)
            + S::OFFSET <= usize::MAX,
{
}

/// A witness that interrupts are disabled on this processor for the lifetime `'a`.
#[derive(Clone, Copy)]
pub struct IrqDisabled<'a> {
    _scope: PhantomData<&'a ()>,
}

impl<'a> IrqDisabled<'a> {
    /// Makes the witness. The caller promises that interrupts stay disabled for all of `'a`,
    /// as they are in a timer callback.
    pub fn assume_disabled() -> (r: IrqDisabled<'a>) {
        IrqDisabled { _scope: PhantomData }
    }
}

/// A timer that runs a closure once, with interrupts disabled.
///
/// The closure sits in heap storage until the timer fires; it is taken out when it runs, so
/// that it runs at most once, and the timer is never restarted.
pub struct ClosureTimer<T> {
    timer: Timer,
    callback: Vec<T>,
    calls: Ghost<nat>,
}

impl<T> ClosureTimer<T> where T: FnOnce(IrqDisabled) {
    /// The closure that has not run yet, if any.
    pub closed spec fn pending(&self) -> Option<T> {
        if self.callback@.len() == 1 {
            Some(self.callback@[0])
        } else {
            None
        }
    }

    /// How many times the closure has been called.
    pub closed spec fn calls(&self) -> nat {
        self.calls@
    }

    /// The timer setup.
    pub closed spec fn timer(&self) -> Timer {
        self.timer
    }

    /// Well-formedness: the closure is either still pending or has been called once.
    pub closed spec fn wf(&self) -> bool {
        &&& self.callback@.len() <= 1
        &&& self.calls@ + self.callback@.len() == 1
    }

    /// Makes a timer that holds `f`, set up relative and on the monotonic clock, not started.
    ///
    /// Fails with [`Error::ENOMEM`] when the storage for the closure cannot be allocated, and for
    /// no other reason: a failure comes from a reservation of room for exactly one closure that
    /// was refused. The flags are those of the allocation.
    pub fn new(f: T, _flags: Flags) -> (r: Result<Self, Error>)
        ensures
            r is Err ==> exists|v: &mut Vec<T>, res: Result<(), TryReserveError>|
                #[trigger] call_ensures(Vec::<T>::try_reserve, (v, 1usize), res) && res is Err,
            match r {
                Ok(t) => {
                    &&& t.wf()
                    &&& t.pending() == Some(f)
                    &&& t.calls() == 0
                    &&& t.timer().mode() == TimerMode::Relative
                    &&& t.timer().clock() == ClockSource::Monotonic
                },
                Err(e) => e == Error::ENOMEM,
            },
    {
        let mut callback: Vec<T> = Vec::new();
        if callback.try_reserve(1).is_err() {
            return Err(Error::ENOMEM);
        }
        callback.push(f);
        Ok(ClosureTimer { timer: Timer::new(), callback, calls: Ghost(0) })
    }

    /// Called when the timer fires, with interrupts disabled: calls the closure if it has not
    /// run yet, and asks for no restart.
    pub fn run(&mut self, irq: IrqDisabled) -> (r: TimerRestart)
        requires
            old(self).wf(),
            old(self).pending() is Some ==> old(self).pending()->Some_0.requires((irq,)),
        ensures
            final(self).wf(),
            r == TimerRestart::NoRestart,
            final(self).pending() is None,
            final(self).timer() == old(self).timer(),
            old(self).pending() is Some ==> final(self).calls() == old(self).calls() + 1
                && old(self).pending()->Some_0.ensures((irq,), ()),
            old(self).pending() is None ==> final(self).calls() == old(self).calls(),
    {
        if let Some(callback) = self.callback.pop() {
            proof {
                self.calls@ = self.calls@ + 1;
            }
            callback(irq);
        }
        TimerRestart::NoRestart
    }

    /// However many times the timer fires, the closure is called at most once.
    pub proof fn lemma_called_at_most_once(&self)
        requires
            self.wf(),
        ensures
            self.calls() <= 1,
            self.calls() == 1 <==> self.pending() is None,
    {
    }
}

} // verus!
