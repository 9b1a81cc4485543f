//! The message pump of the watcher: for how long it waits, when it ends, and what
//! is due between two waits.
//!
//! Times are nanoseconds since the pump began.

use vstd::prelude::*;

use crate::health::HEARTBEAT_SECS;

verus! {

/// A second in nanoseconds.
pub const SECOND: u128 = 1_000_000_000;

/// A millisecond in nanoseconds.
pub const MILLISECOND: u128 = 1_000_000;

/// How many seconds lie between two looks at the shell.
pub const SHELL_POLL_SECS: u64 = 2;

/// How many seconds lie between two checks of all markers.
pub const REASSERT_POLL_SECS: u64 = 5;

/// Something that is due again and again.
pub struct Timer {
    /// How many seconds lie between two times that it is due.
    pub every_secs: u64,
    /// When it was due last.
    pub last: u128,
}

/// The pump.
pub struct Pump {
    /// For how many seconds it runs; zero means until it is stopped.
    pub duration_secs: u64,
    /// Whether it can be asked to stop.
    pub stoppable: bool,
    /// The process of the shell, as far as it is known.
    pub shell_pid: Option<u32>,
    pub shell_poll: Timer,
    pub reassert_poll: Timer,
    pub health_beat: Timer,
}

/// What a turn of the pump begins with.
#[derive(Clone, Copy, PartialEq, Eq, Structural)]
pub enum Turn {
    /// It ends because it was asked to.
    Stopped,
    /// It ends because its time is over.
    TimeUp,
    /// It waits for messages, for at most so many milliseconds.
    Wait(u32),
}

/// A pump that begins now.
pub open spec fn fresh(duration_secs: u64, stoppable: bool, shell_pid: Option<u32>) -> Pump {
    Pump {
        duration_secs,
        stoppable,
        shell_pid,
        shell_poll: Timer { every_secs: SHELL_POLL_SECS, last: 0 },
        reassert_poll: Timer { every_secs: REASSERT_POLL_SECS, last: 0 },
        health_beat: Timer { every_secs: HEARTBEAT_SECS, last: 0 },
    }
}

/// The least of two numbers.
pub open spec fn least(a: int, b: int) -> int {
    if a < b {
        a
    } else {
        b
    }
}

/// What a turn begins with. A request to stop goes before the end of the time.
/// With an end of the time ahead the wait is no longer than that and than a second;
/// without one it is a second where the pump can be stopped, and else two.
pub open spec fn turned(p: Pump, now: u128, stop_requested: bool) -> Turn {
    let end = p.duration_secs * SECOND;
    if p.stoppable && stop_requested {
        Turn::Stopped
    } else if p.duration_secs == 0 {
        Turn::Wait(
            if p.stoppable {
                1000
            } else {
                2000
            },
        )
    } else if now >= end {
        Turn::TimeUp
    } else {
        Turn::Wait(least((end - now) / MILLISECOND as int, 1000) as u32)
    }
}

/// Whether a timer is due.
pub open spec fn is_due(t: Timer, now: u128) -> bool {
    now - t.last >= t.every_secs * SECOND
}

/// Whether the shell was restarted: its process was known, and it is another now.
pub open spec fn restarted(known: Option<u32>, current: Option<u32>) -> bool {
    known matches Some(a) && (current matches Some(b) && a != b)
}

/// No wait is longer than two seconds, so that what is due every two seconds is
/// late by no more than that; and with an end of the time ahead the pump does not
/// wait beyond it.
pub proof fn law_waits_are_short(p: Pump, now: u128, stop_requested: bool)
    ensures
        turned(p, now, stop_requested) matches Turn::Wait(ms) ==> {
            &&& ms <= 2000
            &&& p.stoppable || p.duration_secs > 0 ==> ms <= 1000
            &&& p.duration_secs > 0 ==> now + ms * MILLISECOND <= p.duration_secs * SECOND
        },
{
    if turned(p, now, stop_requested) is Wait && p.duration_secs > 0 {
        let left = p.duration_secs * SECOND - now;
        assert(left > 0);
        assert(left / 1_000_000 * 1_000_000 <= left);
    }
}

/// A shell that is away for a while, as during a restart, is not forgotten: the
/// restart is noticed when it is back with another process.
pub proof fn law_restart_is_noticed_after_absence(known: u32, back: u32)
    requires
        known != back,
    ensures
        !restarted(Some(known), None),
        restarted(Some(known), Some(back)),
{
}

/// A turn ends the pump where it was asked to stop and can be, and where its time is over; else
/// it waits. With an end ahead it waits until the end, in whole milliseconds, but for no more
/// than a second; without one for a second where it can be stopped, and else for two.
pub proof fn law_turns(p: Pump, now: u128, stop_requested: bool)
    ensures
        ({
            let left = p.duration_secs * 1_000_000_000 - now;
            let asked = p.stoppable && stop_requested;
            let t = turned(p, now, stop_requested);
            &&& t == Turn::Stopped <==> asked
            &&& t == Turn::TimeUp <==> !asked && p.duration_secs > 0 && left <= 0
            &&& !asked && p.duration_secs == 0 && p.stoppable ==> t == Turn::Wait(1000)
            &&& !asked && p.duration_secs == 0 && !p.stoppable ==> t == Turn::Wait(2000)
            &&& !asked && p.duration_secs > 0 && left >= 1_000_000_000 ==> t == Turn::Wait(1000)
            &&& !asked && p.duration_secs > 0 && 0 < left < 1_000_000_000 ==> (t matches Turn::Wait(
                ms,
            ) && ms * 1_000_000 <= left < (ms + 1) * 1_000_000)
        }),
{
    let left = p.duration_secs * 1_000_000_000 - now;
    if left >= 1_000_000_000 {
        assert(left / 1_000_000 >= 1000);
    }
}

/// A timer is due when its time has passed since it was due last. A new pump looks at the
/// shell every two seconds, and checks the markers and shows that it is alive every five.
pub proof fn law_timers(t: Timer, now: u128, duration_secs: u64, stoppable: bool, pid: Option<u32>)
    ensures
        is_due(t, now) <==> t.last + t.every_secs * 1_000_000_000 <= now,
        ({
            let p = fresh(duration_secs, stoppable, pid);
            &&& p.duration_secs == duration_secs
            &&& p.stoppable == stoppable
            &&& p.shell_pid == pid
            &&& is_due(p.shell_poll, now) <==> now >= 2_000_000_000
            &&& is_due(p.reassert_poll, now) <==> now >= 5_000_000_000
            &&& is_due(p.health_beat, now) <==> now >= 5_000_000_000
        }),
{
}

/// The shell was restarted where its process was known before and is another now, and only
/// there.
pub proof fn law_restarts(known: Option<u32>, current: Option<u32>)
    ensures
        restarted(known, current) <==> known is Some && current is Some && known != current,
{
}

/// The process of the shell: there is one where the shell has a window and that
/// window a process.
pub fn current_shell_pid(shell_window: usize, pid: u32) -> (r: Option<u32>)
    ensures
        r == (if shell_window != 0 && pid != 0 {
            Some(pid)
        } else {
            None
        }),
{
    if shell_window == 0 || pid == 0 {
        None
    } else {
        Some(pid)
    }
}

impl Timer {
    /// A timer that counts from the beginning of the pump.
    pub fn new(every_secs: u64) -> (t: Timer)
        ensures
            t == (Timer { every_secs, last: 0 }),
    {
        Timer { every_secs, last: 0 }
    }

    /// Whether the timer is due; if so it counts from now on again.
    pub fn due(&mut self, now: u128) -> (r: bool)
        ensures
            r == is_due(*old(self), now),
            *final(self) == (if r {
                Timer { last: now, ..*old(self) }
            } else {
                *old(self)
            }),
    {
        if now >= self.last && now - self.last >= self.every_secs as u128 * SECOND {
            self.last = now;
            true
        } else {
            false
        }
    }
}

impl Pump {
    /// A pump that begins now; `shell_pid` is the process of the shell.
    pub fn new(duration_secs: u64, stoppable: bool, shell_pid: Option<u32>) -> (p: Pump)
        ensures
            p == fresh(duration_secs, stoppable, shell_pid),
    {
        Pump {
            duration_secs,
            stoppable,
            shell_pid,
            shell_poll: Timer::new(SHELL_POLL_SECS),
            reassert_poll: Timer::new(REASSERT_POLL_SECS),
            health_beat: Timer::new(HEARTBEAT_SECS),
        }
    }

    /// What the next turn begins with.
    pub fn turn(&self, now: u128, stop_requested: bool) -> (r: Turn)
        ensures
            r == turned(*self, now, stop_requested),
    {
        if self.stoppable && stop_requested {
            return Turn::Stopped;
        }
        if self.duration_secs == 0 {
            return if self.stoppable {
                Turn::Wait(1000)
            } else {
                Turn::Wait(2000)
            };
        }
        let end: u128 = self.duration_secs as u128 * SECOND;
        if now >= end {
            return Turn::TimeUp;
        }
        let ms: u128 = (end - now) / MILLISECOND;
        if ms < 1000 {
            Turn::Wait(ms as u32)
        } else {
            Turn::Wait(1000)
        }
    }

    /// Is told which process the shell is now. Gives the process before and the
    /// process now where the shell was restarted.
    pub fn shell_seen(&mut self, current: Option<u32>) -> (r: Option<(u32, u32)>)
        ensures
            match r {
                Some((a, b)) => restarted(old(self).shell_pid, current) && old(self).shell_pid
                    == Some(a) && current == Some(b),
                None => !restarted(old(self).shell_pid, current),
            },
            *final(self) == (Pump {
                shell_pid: if current is Some {
                    current
                } else {
                    old(self).shell_pid
                },
                ..*old(self)
            }),
    {
        match (self.shell_pid, current) {
            (Some(a), Some(b)) => {
                if a != b {
                    self.shell_pid = Some(b);
                    Some((a, b))
                } else {
                    None
                }
            },
            (None, Some(b)) => {
                self.shell_pid = Some(b);
                None
            },
            (_, None) => None,
        }
    }
}

} // verus!
