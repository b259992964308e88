//! Breakpoint address literals and word alignment.
use vstd::prelude::*;
use vstd::string::*;

verus! {

/// Number of bytes in a machine word of the target.
pub const WORD_BYTES: usize = 8;

/// Value of a hexadecimal digit (0 for a character that is none).
pub open spec fn hex_digit_value(c: char) -> nat {
    if '0' <= c && c <= '9' {
        (c as nat - '0' as nat) as nat
    } else if 'a' <= c && c <= 'f' {
        (c as nat - 'a' as nat + 10) as nat
    } else if 'A' <= c && c <= 'F' {
        (c as nat - 'A' as nat + 10) as nat
    } else {
        0
    }
}

pub open spec fn is_hex_digit(c: char) -> bool {
    ('0' <= c && c <= '9') || ('a' <= c && c <= 'f') || ('A' <= c && c <= 'F')
}

/// The digits of an address literal: the text without a leading `0x` or `0X`.
pub open spec fn literal_digits(s: Seq<char>) -> Seq<char> {
    if s.len() >= 2 && s[0] == '0' && (s[1] == 'x' || s[1] == 'X') {
        s.subrange(2, s.len() as int)
    } else {
        s
    }
}

/// The number that a sequence of hexadecimal digits denotes, most significant first.
pub open spec fn hex_value(d: Seq<char>) -> nat
    decreases d.len(),
{
    if d.len() == 0 {
        0
    } else {
        hex_value(d.drop_last()) * 16 + hex_digit_value(d.last())
    }
}

/// The address that a literal denotes, if it is one: at least one hex digit,
/// nothing but hex digits after the optional prefix, and a value that fits a word.
pub open spec fn address_of(s: Seq<char>) -> Option<usize> {
    let d = literal_digits(s);
    if d.len() > 0 && (forall|i: int| 0 <= i < d.len() ==> is_hex_digit(#[trigger] d[i]))
        && hex_value(d) <= usize::MAX {
        Some(hex_value(d) as usize)
    } else {
        None
    }
}

proof fn lemma_hex_value_grows(d: Seq<char>, i: int, j: int)
    requires
        0 <= i <= j <= d.len(),
    ensures
        hex_value(d.subrange(0, i)) <= hex_value(d.subrange(0, j)),
    decreases j - i,
{
    if i < j {
        lemma_hex_value_grows(d, i, j - 1);
        assert(d.subrange(0, j).drop_last() =~= d.subrange(0, j - 1));
    }
}

fn hex_digit(c: char) -> (r: Option<usize>)
    ensures
        r == (if is_hex_digit(c) { Some(hex_digit_value(c) as usize) } else { None::<usize> }),
        r matches Some(v) ==> v < 16,
{
    if '0' <= c && c <= '9' {
        Some(((c as u32) - ('0' as u32)) as usize)
    } else if 'a' <= c && c <= 'f' {
        Some(((c as u32) - ('a' as u32) + 10) as usize)
    } else if 'A' <= c && c <= 'F' {
        Some(((c as u32) - ('A' as u32) + 10) as usize)
    } else {
        None
    }
}

/// Parses a breakpoint address written in hexadecimal, with or without a
/// `0x` / `0X` prefix, in either case.
pub fn parse_address(addr: &str) -> (r: Option<usize>)
    ensures
        r == address_of(addr@),
{
    let n = addr.unicode_len();
    let mut start: usize = 0;
    if n >= 2 {
        let c1 = addr.get_char(1);
        if addr.get_char(0) == '0' && (c1 == 'x' || c1 == 'X') {
            start = 2;
        }
    }
    let ghost d = literal_digits(addr@);
    assert(d =~= addr@.subrange(start as int, n as int));
    if start == n {
        return None;
    }
    let mut acc: usize = 0;
    let mut i: usize = start;
    while i < n
        invariant
            start <= i <= n,
            n == addr@.len(),
            d =~= addr@.subrange(start as int, n as int),
            d == literal_digits(addr@),
            forall|k: int| 0 <= k < i - start ==> is_hex_digit(#[trigger] d[k]),
            acc as nat == hex_value(d.subrange(0, i - start)),
        decreases n - i,
    {
        let c = addr.get_char(i);
        let k: Ghost<int> = Ghost(i - start);
        assert(d[k@] == c);
        assert(d.subrange(0, k@ + 1).drop_last() =~= d.subrange(0, k@));
        match hex_digit(c) {
            None => {
                assert(!is_hex_digit(d[k@]));
                assert(!(forall|j: int| 0 <= j < d.len() ==> is_hex_digit(#[trigger] d[j])));
                return None;
            },
            Some(v) => {
                if acc > (usize::MAX - v) / 16 {
                    proof {
                        assert(acc * 16 + v > usize::MAX) by (nonlinear_arith)
                            requires acc > (usize::MAX - v) / 16, v < 16;
                        lemma_hex_value_grows(d, k@ + 1, d.len() as int);
                        assert(d.subrange(0, d.len() as int) =~= d);
                        assert(hex_value(d) > usize::MAX);
                    }
                    return None;
                }
                acc = acc * 16 + v;
            },
        }
        i = i + 1;
    }
    assert(d.subrange(0, d.len() as int) =~= d);
    Some(acc)
}

/// Rounds an address down to the start of the word that holds it.
pub fn align_addr_to_word(addr: usize) -> (r: usize)
    ensures
        r == addr - addr % 8,
        r % 8 == 0,
        r <= addr < r + 8,
{
    let r = addr & !7usize;
    assert(r == addr - addr % 8) by (bit_vector)
        requires r == addr & !7usize;
    r
}

} // verus!
