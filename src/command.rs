//! Operator commands, from the words of an input line.
use vstd::prelude::*;
use vstd::string::*;
use crate::address::{address_of, parse_address};

verus! {

/// A command of the debugger.
#[derive(Debug)]
pub enum Command {
    /// Start the target afresh with these arguments.
    Run { args: Vec<String> },
    /// Resume the stopped target.
    Continue,
    /// End the session.
    Quit,
    /// Print the call stack of the stopped target.
    Backtrace,
    /// Set a breakpoint at this address.
    Breakpoint { addr: usize },
}

pub open spec fn is_quit_word(w: Seq<char>) -> bool {
    w == "q"@ || w == "quit"@
}

pub open spec fn is_run_word(w: Seq<char>) -> bool {
    w == "r"@ || w == "run"@
}

pub open spec fn is_continue_word(w: Seq<char>) -> bool {
    w == "c"@ || w == "cont"@ || w == "continue"@
}

pub open spec fn is_backtrace_word(w: Seq<char>) -> bool {
    w == "bt"@ || w == "back"@ || w == "backtrace"@
}

pub open spec fn is_breakpoint_word(w: Seq<char>) -> bool {
    w == "b"@ || w == "break"@ || w == "breakpoint"@
}

/// Whether `r` runs the target with arguments holding the texts of `words`.
pub open spec fn runs_with(r: Option<Command>, words: Seq<String>) -> bool {
    match r {
        Some(Command::Run { args }) => args@.len() == words.len() && forall|i: int|
            0 <= i < words.len() ==> #[trigger] args@[i]@ == words[i]@,
        _ => false,
    }
}

proof fn lemma_command_words_differ()
    ensures
        forall|w: Seq<char>| is_quit_word(w) ==> !is_run_word(w) && !is_continue_word(w)
            && !is_backtrace_word(w) && !is_breakpoint_word(w),
        forall|w: Seq<char>| is_run_word(w) ==> !is_continue_word(w) && !is_backtrace_word(w)
            && !is_breakpoint_word(w),
        forall|w: Seq<char>| is_continue_word(w) ==> !is_backtrace_word(w) && !is_breakpoint_word(w),
        forall|w: Seq<char>| is_backtrace_word(w) ==> !is_breakpoint_word(w),
{
    reveal_strlit("q");
    reveal_strlit("quit");
    reveal_strlit("r");
    reveal_strlit("run");
    reveal_strlit("c");
    reveal_strlit("cont");
    reveal_strlit("continue");
    reveal_strlit("bt");
    reveal_strlit("back");
    reveal_strlit("backtrace");
    reveal_strlit("b");
    reveal_strlit("break");
    reveal_strlit("breakpoint");
    assert("q"@[0] == 'q' && "quit"@[0] == 'q' && "r"@[0] == 'r' && "run"@[0] == 'r');
    assert("c"@[0] == 'c' && "cont"@[0] == 'c' && "continue"@[0] == 'c');
    assert("bt"@[1] == 't' && "back"@[1] == 'a' && "backtrace"@[1] == 'a');
    assert("b"@[0] == 'b' && "bt"@[0] == 'b' && "back"@[0] == 'b' && "backtrace"@[0] == 'b');
    assert("b"@.len() == 1 && "bt"@.len() == 2 && "back"@.len() == 4 && "backtrace"@.len() == 9);
    assert("break"@[0] == 'b' && "breakpoint"@[0] == 'b' && "break"@[1] == 'r' && "breakpoint"@[1] == 'r');
}

/// Whether two strings hold the same characters.
fn same_text(a: &str, b: &str) -> (r: bool)
    ensures
        r == (a@ == b@),
{
    let n = a.unicode_len();
    if n != b.unicode_len() {
        return false;
    }
    let mut i: usize = 0;
    while i < n
        invariant
            n == a@.len() == b@.len(),
            i <= n,
            forall|k: int| 0 <= k < i ==> a@[k] == b@[k],
        decreases n - i,
    {
        if a.get_char(i) != b.get_char(i) {
            return false;
        }
        i = i + 1;
    }
    assert(a@ =~= b@);
    true
}

/// Turns the words of an input line into a command. The first word names
/// the command; `run` passes the remaining words to the target; a
/// breakpoint needs an address literal as second word. Anything else gives
/// no command.
pub fn parse_command(tokens: &Vec<String>) -> (r: Option<Command>)
    ensures
        tokens@.len() == 0 ==> r is None,
        tokens@.len() > 0 ==> {
            let w = tokens@[0]@;
            &&& is_quit_word(w) ==> r == Some(Command::Quit)
            &&& is_run_word(w) ==> runs_with(r, tokens@.drop_first())
            &&& is_continue_word(w) ==> r == Some(Command::Continue)
            &&& is_backtrace_word(w) ==> r == Some(Command::Backtrace)
            &&& is_breakpoint_word(w) ==> (if tokens@.len() >= 2 && address_of(tokens@[1]@) is Some {
                r == Some(Command::Breakpoint { addr: address_of(tokens@[1]@)->0 })
            } else {
                r is None
            })
        },
        tokens@.len() > 0 && r is Some ==> is_quit_word(tokens@[0]@) || is_run_word(tokens@[0]@)
            || is_continue_word(tokens@[0]@) || is_backtrace_word(tokens@[0]@)
            || is_breakpoint_word(tokens@[0]@),
{
    if tokens.len() == 0 {
        return None;
    }
    let w: &str = tokens[0].as_str();
    assert(w@ == tokens@[0]@);
    proof {
        lemma_command_words_differ();
    }
    if same_text(w, "q") || same_text(w, "quit") {
        Some(Command::Quit)
    } else if same_text(w, "r") || same_text(w, "run") {
        let mut args: Vec<String> = Vec::new();
        let mut i: usize = 1;
        while i < tokens.len()
            invariant
                1 <= i <= tokens@.len(),
                args@.len() + 1 == i,
                forall|k: int| 0 <= k < args@.len() ==> #[trigger] args@[k]@ == tokens@[k + 1]@,
            decreases tokens@.len() - i,
        {
            args.push(tokens[i].clone());
            assert(tokens@.drop_first()[i - 1] == tokens@[i as int]);
            i = i + 1;
        }
        Some(Command::Run { args })
    } else if same_text(w, "c") || same_text(w, "cont") || same_text(w, "continue") {
        Some(Command::Continue)
    } else if same_text(w, "bt") || same_text(w, "back") || same_text(w, "backtrace") {
        Some(Command::Backtrace)
    } else if same_text(w, "b") || same_text(w, "break") || same_text(w, "breakpoint") {
        if tokens.len() < 2 {
            return None;
        }
        match parse_address(tokens[1].as_str()) {
            Some(addr) => Some(Command::Breakpoint { addr }),
            None => None,
        }
    } else {
        None
    }
}

} // verus!
