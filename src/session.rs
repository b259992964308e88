//! The debug session's state machine. The session decides; the caller
//! performs each decision on the traced process (launch, kill, memory
//! access, resume, single-step) and hands the outcome back.
use vstd::prelude::*;
use crate::breakpoints::{
    addresses_of, forget_spec, pending, registered, saved_byte, Breakpoint, BreakpointTable,
};

verus! {

/// The signal a debug trap raises.
pub const SIGTRAP: i32 = 5;

/// Why the target stopped, as observed by waiting on it.
#[derive(Clone, Copy, Debug)]
pub enum Status {
    /// Stopped by `signal`, with the instruction pointer at `ip`.
    Stopped { signal: i32, ip: usize },
    /// Exited normally with `code`.
    Exited { code: i32 },
    /// Killed by the debugger.
    Killed { code: i32 },
    /// Terminated by `signal`.
    Signaled { signal: i32 },
}

/// Where the session stands between commands. While the process runs, the
/// caller is blocked waiting on it, so running is no state of its own here;
/// a process that exits or is killed leaves the session idle.
#[derive(Clone, Copy, Debug, PartialEq, Eq, Structural)]
pub enum Phase {
    /// No process is running.
    Idle,
    /// A process is stopped for a reason other than one of our breakpoints.
    Stopped,
    /// A process is stopped at one of our breakpoints.
    AtBreakpoint,
}

/// What a stop means to the session.
#[derive(Clone, Copy, Debug, PartialEq, Eq, Structural)]
pub enum StopReaction {
    /// The process is gone: it exited, was killed or was terminated by a signal.
    Gone,
    /// The process hit the breakpoint at `addr`. The caller writes back the
    /// original byte there (`BreakpointTable::restore`), moves the instruction
    /// pointer back to `addr`, single-steps and reports the step's outcome
    /// with `Session::after_step`.
    BreakpointHit { addr: usize },
    /// Stopped for another reason; no breakpoint state changes.
    Other,
}

/// Whether a stop event is one where the process is gone.
pub open spec fn is_gone(ev: Status) -> bool {
    !(ev is Stopped)
}

/// The breakpoint whose trap a stop event reports, if any: a trap signal
/// with the instruction pointer one byte past an installed trap.
pub open spec fn hit_address(s: Seq<Breakpoint>, ev: Status) -> Option<usize> {
    match ev {
        Status::Stopped { signal, ip } => if signal == SIGTRAP && ip >= 1 && saved_byte(
            s,
            (ip - 1) as usize,
        ) is Some {
            Some((ip - 1) as usize)
        } else {
            None
        },
        _ => None,
    }
}

/// A debugging session: the breakpoints, which survive restarts of the
/// target, and the state of the current process.
pub struct Session {
    pub breakpoints: BreakpointTable,
    pub phase: Phase,
}

impl Session {
    /// The table is well formed, and with no process running no trap is
    /// recorded as installed.
    pub open spec fn wf(&self) -> bool {
        &&& self.breakpoints.wf()
        &&& self.phase == Phase::Idle ==> forall|i: int|
            0 <= i < self.breakpoints@.len() ==> (#[trigger] self.breakpoints@[i]).orig_byte is None
    }

    /// A session with no breakpoints and no process.
    pub fn new() -> (r: Session)
        ensures
            r.wf(),
            r.phase == Phase::Idle,
            r.breakpoints@ == Seq::<Breakpoint>::empty(),
    {
        Session { breakpoints: BreakpointTable::new(), phase: Phase::Idle }
    }

    /// Whether a process is running.
    pub fn has_process(&self) -> (r: bool)
        ensures
            r == (self.phase != Phase::Idle),
    {
        self.phase != Phase::Idle
    }

    /// Registers a breakpoint at `addr`. Returns its number, and whether its
    /// trap is to be installed into the running process right away.
    pub fn add_breakpoint(&mut self, addr: usize) -> (r: (usize, bool))
        requires
            old(self).wf(),
        ensures
            final(self).wf(),
            final(self).phase == old(self).phase,
            registered(old(self).breakpoints@, addr) ==> final(self).breakpoints@ == old(
                self,
            ).breakpoints@,
            !registered(old(self).breakpoints@, addr) ==> final(self).breakpoints@ == old(
                self,
            ).breakpoints@.push((Breakpoint { addr, orig_byte: None })),
            r.0 < final(self).breakpoints@.len(),
            final(self).breakpoints@[r.0 as int].addr == addr,
            r.1 == (old(self).phase != Phase::Idle && pending(final(self).breakpoints@, addr)),
    {
        let index = self.breakpoints.add(addr);
        let live = self.phase != Phase::Idle;
        let install_now = live && !self.breakpoints.is_installed(addr);
        proof {
            let s = self.breakpoints@;
            if live && !install_now {
                assert(saved_byte(s, addr) is Some);
                let k = choose|k: int| 0 <= k < s.len() && (#[trigger] s[k]).addr == addr && s[k].orig_byte is Some;
                assert forall|j: int| 0 <= j < s.len() && (#[trigger] s[j]).addr == addr
                    implies s[j].orig_byte is Some by {
                    assert(j == k);
                }
            }
            if install_now {
                assert(s[index as int].addr == addr);
                if s[index as int].orig_byte is Some {
                    assert(saved_byte(s, addr) is Some);
                }
            }
            if !live {
                let o = old(self).breakpoints@;
                assert forall|i: int| 0 <= i < s.len() implies (#[trigger] s[i]).orig_byte is None by {
                    if i < o.len() {
                        assert(s[i] == o[i]);
                    }
                }
            }
        }
        (index, install_now)
    }

    /// Prepares a `run`: the process now running, if any, is to be killed
    /// first (the result says whether there is one). The session is idle
    /// afterwards, with no trap recorded as installed.
    pub fn start_run(&mut self) -> (kill_first: bool)
        requires
            old(self).wf(),
        ensures
            final(self).wf(),
            kill_first == (old(self).phase != Phase::Idle),
            final(self).phase == Phase::Idle,
            final(self).breakpoints@ == forget_spec(old(self).breakpoints@),
    {
        let kill_first = self.phase != Phase::Idle;
        self.breakpoints.forget_installs();
        self.phase = Phase::Idle;
        kill_first
    }

    /// Records that a fresh process was launched and is stopped before its
    /// first instruction. Returns the addresses whose traps are to be
    /// installed into it: every registered one.
    pub fn launched(&mut self) -> (r: Vec<usize>)
        requires
            old(self).wf(),
            old(self).phase == Phase::Idle,
        ensures
            final(self).wf(),
            final(self).phase == Phase::Stopped,
            final(self).breakpoints@ == old(self).breakpoints@,
            r@ == addresses_of(old(self).breakpoints@),
            forall|i: int| 0 <= i < r@.len() ==> pending(final(self).breakpoints@, #[trigger] r@[i]),
    {
        let r = self.breakpoints.addresses();
        proof {
            let s = self.breakpoints@;
            assert forall|i: int| 0 <= i < r@.len() implies pending(s, #[trigger] r@[i]) by {
                assert(s[i].addr == r@[i]);
            }
        }
        self.phase = Phase::Stopped;
        r
    }

    /// Whether `continue` has a process to resume. With none, the operator
    /// is told so and nothing changes.
    pub fn can_continue(&self) -> (r: bool)
        ensures
            r == (self.phase != Phase::Idle),
    {
        self.phase != Phase::Idle
    }

    /// Whether `backtrace` has a stopped process to walk.
    pub fn can_backtrace(&self) -> (r: bool)
        ensures
            r == (self.phase != Phase::Idle),
    {
        self.phase != Phase::Idle
    }

    /// Takes in the outcome of resuming the process and waiting for it.
    pub fn on_stop(&mut self, ev: Status) -> (r: StopReaction)
        requires
            old(self).wf(),
            old(self).phase != Phase::Idle,
        ensures
            final(self).wf(),
            is_gone(ev) ==> r == StopReaction::Gone && final(self).phase == Phase::Idle
                && final(self).breakpoints@ == forget_spec(old(self).breakpoints@),
            !is_gone(ev) ==> final(self).breakpoints@ == old(self).breakpoints@,
            hit_address(old(self).breakpoints@, ev) matches Some(a) ==> r
                == (StopReaction::BreakpointHit { addr: a }) && final(self).phase
                == Phase::AtBreakpoint,
            !is_gone(ev) && hit_address(old(self).breakpoints@, ev) is None ==> r
                == StopReaction::Other && final(self).phase == Phase::Stopped,
    {
        match ev {
            Status::Stopped { signal, ip } => {
                if signal == SIGTRAP && ip >= 1 && self.breakpoints.is_installed(ip - 1) {
                    self.phase = Phase::AtBreakpoint;
                    StopReaction::BreakpointHit { addr: ip - 1 }
                } else {
                    self.phase = Phase::Stopped;
                    StopReaction::Other
                }
            },
            _ => {
                self.breakpoints.forget_installs();
                self.phase = Phase::Idle;
                StopReaction::Gone
            },
        }
    }

    /// Takes in the outcome of single-stepping over the original instruction
    /// at a hit breakpoint `addr`. Returns whether the trap at `addr` is to be
    /// installed again (`BreakpointTable::install`): it is, unless the
    /// process is gone.
    pub fn after_step(&mut self, addr: usize, ev: Status) -> (rearm: bool)
        requires
            old(self).wf(),
            old(self).phase == Phase::AtBreakpoint,
        ensures
            final(self).wf(),
            rearm == !is_gone(ev),
            is_gone(ev) ==> final(self).phase == Phase::Idle && final(self).breakpoints@
                == forget_spec(old(self).breakpoints@),
            !is_gone(ev) ==> *final(self) == *old(self),
    {
        match ev {
            Status::Stopped { .. } => true,
            _ => {
                self.breakpoints.forget_installs();
                self.phase = Phase::Idle;
                false
            },
        }
    }

    /// Ends the session. Returns whether a running process is to be killed.
    pub fn quit(&mut self) -> (kill: bool)
        requires
            old(self).wf(),
        ensures
            final(self).wf(),
            kill == (old(self).phase != Phase::Idle),
            final(self).phase == Phase::Idle,
            final(self).breakpoints@ == forget_spec(old(self).breakpoints@),
    {
        self.start_run()
    }
}

} // verus!
