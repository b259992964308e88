use deet::address::align_addr_to_word;
use deet::session::{Phase, Session, Status, StopReaction, SIGTRAP};
use deet::word::TRAP_OPCODE;
use std::collections::HashMap;

/// A simulated target: word-addressed memory and a fixed trace of the
/// instruction addresses it executes, in order, before exiting with 0.
struct Target {
    mem: HashMap<usize, u64>,
    trace: Vec<usize>,
    pos: usize,
    executed: Vec<usize>,
}

impl Target {
    fn new(trace: Vec<usize>) -> Target {
        let mut mem = HashMap::new();
        for &a in &trace {
            let aligned = align_addr_to_word(a);
            mem.entry(aligned).or_insert(0x9090_9090_9090_9090u64 ^ aligned as u64);
        }
        Target { mem, trace, pos: 0, executed: Vec::new() }
    }
    fn peek(&self, addr: usize) -> u64 {
        *self.mem.get(&align_addr_to_word(addr)).unwrap_or(&0)
    }
    fn poke(&mut self, addr: usize, word: u64) {
        self.mem.insert(align_addr_to_word(addr), word);
    }
    fn byte(&self, addr: usize) -> u8 {
        (self.peek(addr) >> (8 * (addr % 8))) as u8
    }
    fn resume(&mut self) -> Status {
        while self.pos < self.trace.len() {
            let a = self.trace[self.pos];
            if self.byte(a) == TRAP_OPCODE {
                return Status::Stopped { signal: SIGTRAP, ip: a + 1 };
            }
            self.executed.push(a);
            self.pos += 1;
        }
        Status::Exited { code: 0 }
    }
    fn step(&mut self) -> Status {
        let a = self.trace[self.pos];
        assert_ne!(self.byte(a), TRAP_OPCODE);
        self.executed.push(a);
        self.pos += 1;
        match self.trace.get(self.pos) {
            Some(&next) => Status::Stopped { signal: SIGTRAP, ip: next },
            None => Status::Exited { code: 0 },
        }
    }
}

fn install(session: &mut Session, target: &mut Target, addr: usize) {
    if let Some(w) = session.breakpoints.install(addr, target.peek(addr)) {
        target.poke(addr, w);
    }
}

fn run(session: &mut Session, target: &mut Target) {
    assert!(!session.start_run());
    for addr in session.launched() {
        install(session, target, addr);
    }
}

/// Resumes and handles the stop as the front end does; returns the reaction.
fn resume(session: &mut Session, target: &mut Target) -> StopReaction {
    let ev = target.resume();
    let reaction = session.on_stop(ev);
    if let StopReaction::BreakpointHit { addr } = reaction {
        let w = session.breakpoints.restore(addr, target.peek(addr)).unwrap();
        target.poke(addr, w);
        // the instruction pointer is rewound to `addr`: the simulated
        // target is still positioned at that instruction
        assert_eq!(target.trace[target.pos], addr);
        let ev = target.step();
        if session.after_step(addr, ev) {
            install(session, target, addr);
        }
    }
    reaction
}

#[test]
fn continue_without_process_changes_nothing() {
    let mut s = Session::new();
    s.add_breakpoint(0x401000);
    assert!(!s.can_continue());
    assert!(!s.can_backtrace());
    assert_eq!(s.phase, Phase::Idle);
    assert_eq!(s.breakpoints.len(), 1);
    assert!(!s.breakpoints.is_installed(0x401000));
}

#[test]
fn run_installs_every_registered_breakpoint() {
    let mut s = Session::new();
    let mut t = Target::new(vec![0x1000, 0x1001, 0x1003, 0x1010]);
    assert_eq!(s.add_breakpoint(0x1001), (0, false));
    assert_eq!(s.add_breakpoint(0x1003), (1, false));
    assert_eq!(s.add_breakpoint(0x1010), (2, false));
    let before: Vec<u8> = [0x1001, 0x1003, 0x1010].iter().map(|&a| t.byte(a)).collect();
    run(&mut s, &mut t);
    assert_eq!(s.phase, Phase::Stopped);
    for (i, &a) in [0x1001usize, 0x1003, 0x1010].iter().enumerate() {
        assert!(s.breakpoints.is_installed(a));
        assert_eq!(t.byte(a), TRAP_OPCODE);
        let w = s.breakpoints.restore(a, t.peek(a)).unwrap();
        t.poke(a, w);
        assert_eq!(t.byte(a), before[i]);
    }
}

#[test]
fn install_then_restore_leaves_memory_unchanged() {
    let mut s = Session::new();
    let mut t = Target::new(vec![0x2005]);
    let word = t.peek(0x2005);
    s.breakpoints.add(0x2005);
    install(&mut s, &mut t, 0x2005);
    assert_ne!(t.peek(0x2005), word);
    let w = s.breakpoints.restore(0x2005, t.peek(0x2005)).unwrap();
    assert_eq!(w, word);
    assert!(!s.breakpoints.is_installed(0x2005));
    assert_eq!(s.breakpoints.len(), 1);
}

#[test]
fn second_install_keeps_the_original_byte() {
    let mut s = Session::new();
    let mut t = Target::new(vec![0x3002]);
    let word = t.peek(0x3002);
    s.breakpoints.add(0x3002);
    install(&mut s, &mut t, 0x3002);
    assert_eq!(s.breakpoints.install(0x3002, t.peek(0x3002)), None);
    let w = s.breakpoints.restore(0x3002, t.peek(0x3002)).unwrap();
    assert_eq!(w, word);
}

#[test]
fn breakpoint_in_loop_reports_every_pass() {
    let n = 5;
    let mut trace = vec![0x5000];
    for _ in 0..n {
        trace.extend([0x5010, 0x5012, 0x5014]);
    }
    trace.push(0x5020);
    let mut s = Session::new();
    let mut t = Target::new(trace.clone());
    s.add_breakpoint(0x5012);
    run(&mut s, &mut t);
    let mut stops = 0;
    loop {
        match resume(&mut s, &mut t) {
            StopReaction::BreakpointHit { addr } => {
                assert_eq!(addr, 0x5012);
                assert_eq!(s.phase, Phase::AtBreakpoint);
                assert!(s.breakpoints.is_installed(0x5012));
                stops += 1;
            }
            StopReaction::Gone => break,
            StopReaction::Other => panic!("unexpected stop"),
        }
    }
    assert_eq!(stops, n);
    assert_eq!(t.executed, trace);
    assert_eq!(s.phase, Phase::Idle);
    assert!(!s.breakpoints.is_installed(0x5012));
}

#[test]
fn breakpoint_at_main_stops_once_then_exits() {
    let main = 0x401126;
    let mut s = Session::new();
    let mut t = Target::new(vec![0x401020, main, main + 1, main + 4, 0x401040]);
    s.add_breakpoint(main);
    run(&mut s, &mut t);
    assert_eq!(resume(&mut s, &mut t), StopReaction::BreakpointHit { addr: main });
    assert!(s.can_continue());
    assert_eq!(resume(&mut s, &mut t), StopReaction::Gone);
    assert!(!s.has_process());
}

#[test]
fn unmanaged_stops_leave_breakpoints_alone() {
    let mut s = Session::new();
    let mut t = Target::new(vec![0x6000]);
    s.add_breakpoint(0x6000);
    run(&mut s, &mut t);
    let r = s.on_stop(Status::Stopped { signal: SIGTRAP, ip: 0x7001 });
    assert_eq!(r, StopReaction::Other);
    assert_eq!(s.phase, Phase::Stopped);
    assert!(s.breakpoints.is_installed(0x6000));
    let r = s.on_stop(Status::Stopped { signal: 11, ip: 0x6001 });
    assert_eq!(r, StopReaction::Other);
    let r = s.on_stop(Status::Stopped { signal: SIGTRAP, ip: 0x6001 });
    assert_eq!(r, StopReaction::BreakpointHit { addr: 0x6000 });
}

#[test]
fn process_end_returns_to_idle() {
    for ev in [
        Status::Exited { code: 3 },
        Status::Killed { code: 0 },
        Status::Signaled { signal: 9 },
    ] {
        let mut s = Session::new();
        let mut t = Target::new(vec![0x6000]);
        s.add_breakpoint(0x6000);
        run(&mut s, &mut t);
        assert_eq!(s.on_stop(ev), StopReaction::Gone);
        assert_eq!(s.phase, Phase::Idle);
        assert!(!s.breakpoints.is_installed(0x6000));
        assert_eq!(s.breakpoints.len(), 1);
    }
}

#[test]
fn breakpoint_set_while_running_is_installed_at_once() {
    let mut s = Session::new();
    let mut t = Target::new(vec![0x8000, 0x8008]);
    run(&mut s, &mut t);
    assert_eq!(s.add_breakpoint(0x8008), (0, true));
    install(&mut s, &mut t, 0x8008);
    assert_eq!(t.byte(0x8008), TRAP_OPCODE);
    assert_eq!(s.add_breakpoint(0x8008), (0, false));
    assert_eq!(s.breakpoints.len(), 1);
}

#[test]
fn rerun_kills_the_running_process_first() {
    let mut s = Session::new();
    let mut t = Target::new(vec![0x9000]);
    s.add_breakpoint(0x9000);
    run(&mut s, &mut t);
    assert!(s.start_run());
    assert_eq!(s.phase, Phase::Idle);
    assert!(!s.breakpoints.is_installed(0x9000));
    assert_eq!(s.launched(), vec![0x9000]);
    assert!(s.quit());
    assert!(!s.quit());
}
