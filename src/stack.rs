//! Frame-pointer stack walking. Each frame's first saved word is the
//! caller's frame pointer and the next word the return address; the walk
//! goes outward from the current instruction until it reaches the entry
//! function or loses the trail.
use vstd::prelude::*;
use vstd::string::*;

verus! {

/// What a walk does with the frame at its current instruction pointer.
#[derive(Clone, Copy, Debug, PartialEq, Eq, Structural)]
pub enum WalkStep {
    /// The frame was resolved and is to be reported; `last` says that it is
    /// the entry function's, where the walk ends.
    Frame { last: bool },
    /// No function or line is known for the instruction pointer: the walk
    /// ends there, without guessing.
    Lost,
}

/// The name of the program's entry function.
pub open spec fn entry_function() -> Seq<char> {
    seq!['m', 'a', 'i', 'n']
}

/// Whether `name` is the program's entry function.
pub fn is_entry_function(name: &str) -> (r: bool)
    ensures
        r == (name@ == entry_function()),
{
    let n = name.unicode_len();
    if n != 4 {
        return false;
    }
    let r = name.get_char(0) == 'm' && name.get_char(1) == 'a' && name.get_char(2) == 'i'
        && name.get_char(3) == 'n';
    assert(r ==> name@ =~= entry_function());
    r
}

/// The characters of a resolved function name.
pub open spec fn name_view(function: Option<&str>) -> Option<Seq<char>> {
    match function {
        Some(f) => Some(f@),
        None => None,
    }
}

/// A walk's state as a value.
pub struct WalkState {
    pub ip: usize,
    pub fp: usize,
    pub frames: nat,
    pub done: bool,
}

/// The state after resolving the current instruction pointer to
/// `function` (and a line, if `has_line`).
pub open spec fn visit_spec(w: WalkState, function: Option<Seq<char>>, has_line: bool) -> WalkState {
    match function {
        Some(f) if has_line => WalkState { frames: w.frames + 1, done: f == entry_function(), ..w },
        _ => WalkState { done: true, ..w },
    }
}

/// A walk of the frame-pointer chain, innermost frame first.
pub struct FrameWalk {
    /// The instruction pointer of the frame to visit next.
    pub ip: usize,
    /// The frame pointer of that frame.
    pub fp: usize,
    /// Frames reported so far.
    pub frames: usize,
    /// Whether the walk has ended.
    pub done: bool,
}

impl FrameWalk {
    pub open spec fn state(&self) -> WalkState {
        WalkState { ip: self.ip, fp: self.fp, frames: self.frames as nat, done: self.done }
    }

    /// A walk from the stopped process's instruction and frame pointers.
    pub fn start(ip: usize, fp: usize) -> (r: FrameWalk)
        ensures
            r.state() == (WalkState { ip, fp, frames: 0, done: false }),
    {
        FrameWalk { ip, fp, frames: 0, done: false }
    }

    /// Visits the frame at the current instruction pointer, which the symbol
    /// lookup resolved to `function` and, if `has_line`, a source line.
    pub fn visit(&mut self, function: Option<&str>, has_line: bool) -> (r: WalkStep)
        requires
            !old(self).done,
            old(self).frames < usize::MAX,
        ensures
            final(self).state() == visit_spec(old(self).state(), name_view(function), has_line),
            r == (if function is Some && has_line {
                WalkStep::Frame { last: final(self).done }
            } else {
                WalkStep::Lost
            }),
    {
        match function {
            Some(f) => {
                if has_line {
                    self.frames = self.frames + 1;
                    self.done = is_entry_function(f);
                    WalkStep::Frame { last: self.done }
                } else {
                    self.done = true;
                    WalkStep::Lost
                }
            },
            None => {
                self.done = true;
                WalkStep::Lost
            },
        }
    }

    /// Where the caller's frame is recorded: the address of the saved frame
    /// pointer and of the return address, one word above it. `None` where
    /// the return address's slot would lie past the end of memory.
    pub fn caller_slots(&self) -> (r: Option<(usize, usize)>)
        ensures
            self.fp + 8 <= usize::MAX ==> r == Some((self.fp, (self.fp + 8) as usize)),
            self.fp + 8 > usize::MAX ==> r is None,
    {
        if self.fp <= usize::MAX - 8 {
            Some((self.fp, self.fp + 8))
        } else {
            None
        }
    }

    /// Moves to the caller's frame, given the words read from the slots
    /// that `caller_slots` names.
    pub fn unwind(&mut self, return_address: usize, caller_fp: usize)
        requires
            !old(self).done,
        ensures
            final(self).state() == (WalkState { ip: return_address, fp: caller_fp, ..old(self).state() }),
    {
        self.ip = return_address;
        self.fp = caller_fp;
    }
}

/// A walk that starts in the entry function reports exactly one frame.
pub proof fn lemma_entry_frame_is_last(ip: usize, fp: usize)
    ensures
        ({
            let w = visit_spec(WalkState { ip, fp, frames: 0, done: false }, Some(entry_function()), true);
            w.frames == 1 && w.done
        }),
{
}

} // verus!
