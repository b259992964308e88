//! A process-control debugger's logic: address literals, breakpoint
//! patching of machine words, the breakpoint table, the debug session's
//! state machine and frame-pointer stack walking; and two small linked
//! lists.
pub mod address;
pub mod word;
pub mod breakpoints;
pub mod session;
pub mod stack;
pub mod command;
pub mod linked_list;
pub mod ll;
