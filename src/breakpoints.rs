//! The session's breakpoints: each registered address, with the instruction
//! byte that the trap replaced while it is installed in a live process.
use vstd::prelude::*;
use crate::word::{
    byte_of, lemma_byte_written, lemma_last_write_wins, lemma_rewrite_same_byte, offset_in_word,
    with_byte, write_byte, TRAP_OPCODE,
};

verus! {

/// A breakpoint: its address, and while its trap is written into the live
/// process, the original byte that the trap replaced.
#[derive(Clone, Copy, Debug)]
pub struct Breakpoint {
    pub addr: usize,
    pub orig_byte: Option<u8>,
}

/// Whether the table holds a breakpoint at `addr`.
pub open spec fn registered(s: Seq<Breakpoint>, addr: usize) -> bool {
    exists|i: int| 0 <= i < s.len() && (#[trigger] s[i]).addr == addr
}

/// The original byte saved for the breakpoint at `addr`, if its trap is installed.
pub open spec fn saved_byte(s: Seq<Breakpoint>, addr: usize) -> Option<u8> {
    if exists|i: int| 0 <= i < s.len() && (#[trigger] s[i]).addr == addr && s[i].orig_byte is Some {
        let i = choose|i: int| 0 <= i < s.len() && (#[trigger] s[i]).addr == addr && s[i].orig_byte is Some;
        s[i].orig_byte
    } else {
        None
    }
}

/// Whether the breakpoint at `addr` is registered but its trap not installed.
pub open spec fn pending(s: Seq<Breakpoint>, addr: usize) -> bool {
    exists|i: int| 0 <= i < s.len() && (#[trigger] s[i]).addr == addr && s[i].orig_byte is None
}

/// No two breakpoints share an address.
pub open spec fn unique_addresses(s: Seq<Breakpoint>) -> bool {
    forall|i: int, j: int| 0 <= i < s.len() && 0 <= j < s.len() && i != j ==> (#[trigger] s[i]).addr != (#[trigger] s[j]).addr
}

/// The table after the trap at `addr` was installed over the byte `byte`
/// (only a breakpoint whose trap is not installed takes it).
pub open spec fn install_spec(s: Seq<Breakpoint>, addr: usize, byte: u8) -> Seq<Breakpoint> {
    s.map_values(|bp: Breakpoint| if bp.addr == addr && bp.orig_byte is None {
        Breakpoint { addr, orig_byte: Some(byte) }
    } else {
        bp
    })
}

/// The table after the original byte at `addr` was written back.
pub open spec fn restore_spec(s: Seq<Breakpoint>, addr: usize) -> Seq<Breakpoint> {
    s.map_values(|bp: Breakpoint| if bp.addr == addr {
        Breakpoint { addr, orig_byte: None }
    } else {
        bp
    })
}

/// The table once the process that held the traps is gone.
pub open spec fn forget_spec(s: Seq<Breakpoint>) -> Seq<Breakpoint> {
    s.map_values(|bp: Breakpoint| Breakpoint { addr: bp.addr, orig_byte: None })
}

/// The addresses of the table's breakpoints, in the order they were registered.
pub open spec fn addresses_of(s: Seq<Breakpoint>) -> Seq<usize> {
    s.map_values(|bp: Breakpoint| bp.addr)
}

/// The table after installing the trap at each of `addrs` in turn, the
/// `k`-th over the byte `bytes[k]`.
pub open spec fn install_each(s: Seq<Breakpoint>, addrs: Seq<usize>, bytes: Seq<u8>) -> Seq<Breakpoint>
    decreases addrs.len(),
{
    if addrs.len() == 0 || bytes.len() == 0 {
        s
    } else {
        install_spec(install_each(s, addrs.drop_last(), bytes.drop_last()), addrs.last(), bytes.last())
    }
}

proof fn lemma_install_prefix(s: Seq<Breakpoint>, bytes: Seq<u8>, k: int)
    requires
        unique_addresses(s),
        forall|i: int| 0 <= i < s.len() ==> (#[trigger] s[i]).orig_byte is None,
        bytes.len() == s.len(),
        0 <= k <= s.len(),
    ensures
        ({
            let t = install_each(s, addresses_of(s).subrange(0, k), bytes.subrange(0, k));
            &&& t.len() == s.len()
            &&& forall|i: int| 0 <= i < k ==> #[trigger] t[i] == (Breakpoint { addr: s[i].addr, orig_byte: Some(bytes[i]) })
            &&& forall|i: int| k <= i < s.len() ==> #[trigger] t[i] == s[i]
        }),
    decreases k,
{
    let a = addresses_of(s).subrange(0, k);
    let b = bytes.subrange(0, k);
    if k > 0 {
        lemma_install_prefix(s, bytes, k - 1);
        assert(a.drop_last() =~= addresses_of(s).subrange(0, k - 1));
        assert(b.drop_last() =~= bytes.subrange(0, k - 1));
        let t0 = install_each(s, a.drop_last(), b.drop_last());
        let t = install_each(s, a, b);
        assert(t == install_spec(t0, s[k - 1].addr, bytes[k - 1]));
        assert forall|i: int| 0 <= i < s.len() && i != k - 1 implies t0[i].addr != s[k - 1].addr by {
            assert(t0[i].addr == s[i].addr);
        }
    } else {
        assert(a.len() == 0);
    }
}

/// A fresh process gets every trap: starting from a table with no trap
/// installed, installing each registered address in turn (over whatever
/// bytes the process holds there) leaves every breakpoint installed, each
/// with the byte that its own install replaced.
pub proof fn lemma_reinstall_arms_every_breakpoint(t: Seq<Breakpoint>, bytes: Seq<u8>)
    requires
        unique_addresses(t),
        bytes.len() == t.len(),
    ensures
        ({
            let s = forget_spec(t);
            let r = install_each(s, addresses_of(s), bytes);
            &&& r.len() == t.len()
            &&& forall|i: int| 0 <= i < t.len() ==> #[trigger] r[i] == (Breakpoint { addr: t[i].addr, orig_byte: Some(bytes[i]) })
            &&& forall|a: usize| registered(t, a) ==> #[trigger] saved_byte(r, a) is Some
        }),
{
    let s = forget_spec(t);
    assert(unique_addresses(s)) by {
        assert forall|i: int, j: int| 0 <= i < s.len() && 0 <= j < s.len() && i != j implies
            (#[trigger] s[i]).addr != (#[trigger] s[j]).addr by {
            assert(t[i].addr != t[j].addr);
        }
    }
    lemma_install_prefix(s, bytes, s.len() as int);
    assert(addresses_of(s).subrange(0, s.len() as int) =~= addresses_of(s));
    assert(bytes.subrange(0, s.len() as int) =~= bytes);
    let r = install_each(s, addresses_of(s), bytes);
    assert forall|a: usize| registered(t, a) implies #[trigger] saved_byte(r, a) is Some by {
        let i = choose|i: int| 0 <= i < t.len() && (#[trigger] t[i]).addr == a;
        assert(r[i].addr == a && r[i].orig_byte is Some);
    }
}

/// A second install at an address whose trap is installed changes nothing:
/// the byte saved by the first install is kept, whatever byte memory holds
/// by then.
pub proof fn lemma_second_install_keeps_byte(s: Seq<Breakpoint>, addr: usize, first: u8, second: u8)
    requires
        unique_addresses(s),
    ensures
        install_spec(install_spec(s, addr, first), addr, second) == install_spec(s, addr, first),
{
    let t = install_spec(s, addr, first);
    assert(install_spec(t, addr, second) =~= t);
}

/// Stepping over a hit breakpoint re-arms it: with the trap in memory at
/// `addr`, writing back the saved byte puts the original instruction in
/// place, and installing again afterwards gives the same memory word and
/// the same table as before the hit.
pub proof fn lemma_step_over_rearms(s: Seq<Breakpoint>, addr: usize, word: u64)
    requires
        unique_addresses(s),
        saved_byte(s, addr) is Some,
        byte_of(word, offset_in_word(addr)) == TRAP_OPCODE,
    ensures
        ({
            let k = offset_in_word(addr);
            let b = saved_byte(s, addr)->0;
            let restored = with_byte(word, k, b);
            &&& byte_of(restored, k) == b
            &&& with_byte(restored, k, TRAP_OPCODE) == word
            &&& pending(restore_spec(s, addr), addr)
            &&& install_spec(restore_spec(s, addr), addr, byte_of(restored, k)) == s
        }),
{
    let k = offset_in_word(addr);
    let b = saved_byte(s, addr)->0;
    let restored = with_byte(word, k, b);
    lemma_byte_written(word, k, b);
    lemma_last_write_wins(word, k, b, TRAP_OPCODE);
    lemma_rewrite_same_byte(word, k);
    let i = choose|i: int| 0 <= i < s.len() && (#[trigger] s[i]).addr == addr && s[i].orig_byte is Some;
    let r = restore_spec(s, addr);
    assert(r[i].addr == addr && r[i].orig_byte is None);
    assert(install_spec(r, addr, b) =~= s) by {
        assert forall|j: int| 0 <= j < s.len() && j != i implies s[j].addr != addr by {}
    }
}

/// Registered breakpoints, keyed by address.
pub struct BreakpointTable {
    entries: Vec<Breakpoint>,
}

impl View for BreakpointTable {
    type V = Seq<Breakpoint>;

    closed spec fn view(&self) -> Seq<Breakpoint> {
        self.entries@
    }
}

impl BreakpointTable {
    pub open spec fn wf(&self) -> bool {
        unique_addresses(self@)
    }

    /// An empty table.
    pub fn new() -> (r: BreakpointTable)
        ensures
            r@ == Seq::<Breakpoint>::empty(),
            r.wf(),
    {
        BreakpointTable { entries: Vec::new() }
    }

    /// Number of registered breakpoints.
    pub fn len(&self) -> (r: usize)
        ensures
            r == self@.len(),
    {
        self.entries.len()
    }

    /// Position of the breakpoint at `addr`, if one is registered.
    pub fn find(&self, addr: usize) -> (r: Option<usize>)
        requires
            self.wf(),
        ensures
            r is None <==> !registered(self@, addr),
            r matches Some(i) ==> i < self@.len() && self@[i as int].addr == addr,
    {
        let mut i: usize = 0;
        while i < self.entries.len()
            invariant
                i <= self@.len(),
                forall|j: int| 0 <= j < i ==> (#[trigger] self@[j]).addr != addr,
            decreases self@.len() - i,
        {
            if self.entries[i].addr == addr {
                return Some(i);
            }
            i = i + 1;
        }
        None
    }

    /// Registers a breakpoint at `addr` and returns its number; an address
    /// already registered keeps its entry and number.
    pub fn add(&mut self, addr: usize) -> (index: usize)
        requires
            old(self).wf(),
        ensures
            final(self).wf(),
            registered(old(self)@, addr) ==> final(self)@ == old(self)@,
            !registered(old(self)@, addr) ==> final(self)@ == old(self)@.push(
                (Breakpoint { addr, orig_byte: None }),
            ),
            index < final(self)@.len(),
            final(self)@[index as int].addr == addr,
    {
        match self.find(addr) {
            Some(i) => i,
            None => {
                let index = self.entries.len();
                self.entries.push(Breakpoint { addr, orig_byte: None });
                assert(unique_addresses(self@)) by {
                    assert forall|i: int, j: int|
                        0 <= i < self@.len() && 0 <= j < self@.len() && i != j implies
                        (#[trigger] self@[i]).addr != (#[trigger] self@[j]).addr by {
                        if i < index && j < index {
                            assert(self@[i] == old(self)@[i] && self@[j] == old(self)@[j]);
                        } else if i < index {
                            assert(self@[i] == old(self)@[i]);
                        } else if j < index {
                            assert(self@[j] == old(self)@[j]);
                        }
                    }
                }
                index
            },
        }
    }

    /// Whether the trap of a breakpoint at `addr` is installed.
    pub fn is_installed(&self, addr: usize) -> (r: bool)
        requires
            self.wf(),
        ensures
            r == (saved_byte(self@, addr) is Some),
    {
        match self.find(addr) {
            Some(i) => {
                let installed = self.entries[i].orig_byte.is_some();
                proof {
                    if installed {
                        assert(saved_byte(self@, addr) is Some);
                    } else {
                        assert forall|j: int| 0 <= j < self@.len() && (#[trigger] self@[j]).addr == addr
                            implies self@[j].orig_byte is None by {
                            assert(j == i);
                        }
                    }
                }
                installed
            },
            None => false,
        }
    }

    /// Installs the trap of the breakpoint at `addr`, given `word`, the word
    /// of target memory that holds `addr`. Returns the word to write back,
    /// and saves the byte that the trap replaces. Does nothing (and returns
    /// `None`) unless a breakpoint at `addr` is registered and not installed,
    /// so the saved byte is never overwritten by the trap itself.
    pub fn install(&mut self, addr: usize, word: u64) -> (r: Option<u64>)
        requires
            old(self).wf(),
        ensures
            final(self).wf(),
            final(self)@ == install_spec(old(self)@, addr, byte_of(word, offset_in_word(addr))),
            pending(old(self)@, addr) ==> r == Some(with_byte(word, offset_in_word(addr), TRAP_OPCODE)),
            !pending(old(self)@, addr) ==> r is None && final(self)@ == old(self)@,
    {
        let ghost s = self@;
        let (patched, orig) = write_byte(word, addr, TRAP_OPCODE);
        match self.find(addr) {
            Some(i) => {
                if self.entries[i].orig_byte.is_none() {
                    self.entries.set(i, Breakpoint { addr, orig_byte: Some(orig) });
                    assert(self@ =~= install_spec(s, addr, orig)) by {
                        assert forall|j: int| 0 <= j < s.len() && j != i implies
                            !(s[j].addr == addr) by {}
                    }
                    Some(patched)
                } else {
                    proof {
                        assert forall|j: int| 0 <= j < s.len() && (#[trigger] s[j]).addr == addr
                            implies s[j].orig_byte is Some by {
                            assert(j == i);
                        }
                        assert(install_spec(s, addr, orig) =~= s);
                    }
                    None
                }
            },
            None => {
                assert(install_spec(s, addr, orig) =~= s);
                None
            },
        }
    }

    /// Takes the trap of the breakpoint at `addr` out of `word`, the word of
    /// target memory that holds `addr`: returns the word with the saved
    /// original byte written back. The breakpoint stays registered, not
    /// installed. Does nothing (and returns `None`) unless its trap is installed.
    pub fn restore(&mut self, addr: usize, word: u64) -> (r: Option<u64>)
        requires
            old(self).wf(),
        ensures
            final(self).wf(),
            saved_byte(old(self)@, addr) matches Some(b) ==> r == Some(
                with_byte(word, offset_in_word(addr), b),
            ) && final(self)@ == restore_spec(old(self)@, addr),
            saved_byte(old(self)@, addr) is None ==> r is None && final(self)@ == old(self)@,
    {
        let ghost s = self@;
        match self.find(addr) {
            Some(i) => {
                match self.entries[i].orig_byte {
                    Some(b) => {
                        self.entries.set(i, Breakpoint { addr, orig_byte: None });
                        proof {
                            assert(saved_byte(s, addr) == Some(b)) by {
                                let k = choose|k: int| 0 <= k < s.len() && (#[trigger] s[k]).addr == addr && s[k].orig_byte is Some;
                                assert(k == i);
                            }
                            assert(self@ =~= restore_spec(s, addr)) by {
                                assert forall|j: int| 0 <= j < s.len() && j != i implies
                                    !(s[j].addr == addr) by {}
                            }
                        }
                        let (restored, _trap) = write_byte(word, addr, b);
                        Some(restored)
                    },
                    None => {
                        proof {
                            assert forall|j: int| 0 <= j < s.len() && (#[trigger] s[j]).addr == addr
                                implies s[j].orig_byte is None by {
                                assert(j == i);
                            }
                        }
                        None
                    },
                }
            },
            None => None,
        }
    }

    /// Marks every breakpoint as not installed: the process that held the
    /// traps is gone, and the next one starts without them.
    pub fn forget_installs(&mut self)
        requires
            old(self).wf(),
        ensures
            final(self).wf(),
            final(self)@ == forget_spec(old(self)@),
    {
        let ghost s = self@;
        let mut i: usize = 0;
        while i < self.entries.len()
            invariant
                i <= self@.len(),
                self@.len() == s.len(),
                forall|j: int| 0 <= j < i ==> #[trigger] self@[j] == (Breakpoint { addr: s[j].addr, orig_byte: None }),
                forall|j: int| i <= j < s.len() ==> #[trigger] self@[j] == s[j],
            decreases self@.len() - i,
        {
            let addr = self.entries[i].addr;
            self.entries.set(i, Breakpoint { addr, orig_byte: None });
            i = i + 1;
        }
        assert(self@ =~= forget_spec(s));
        assert(unique_addresses(self@)) by {
            assert forall|i: int, j: int|
                0 <= i < self@.len() && 0 <= j < self@.len() && i != j implies
                (#[trigger] self@[i]).addr != (#[trigger] self@[j]).addr by {
                assert(s[i].addr != s[j].addr);
            }
        }
    }

    /// The registered addresses, in the order they were registered.
    pub fn addresses(&self) -> (r: Vec<usize>)
        ensures
            r@ == addresses_of(self@),
    {
        let mut r: Vec<usize> = Vec::new();
        let mut i: usize = 0;
        while i < self.entries.len()
            invariant
                i <= self@.len(),
                r@ =~= addresses_of(self@).subrange(0, i as int),
            decreases self@.len() - i,
        {
            r.push(self.entries[i].addr);
            i = i + 1;
        }
        assert(addresses_of(self@).subrange(0, i as int) =~= addresses_of(self@));
        r
    }
}

} // verus!
