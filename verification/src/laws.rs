//! What holds of the library's calls: how a call's answer and what it leaves follow from what went in.
//!
//! Each law speaks of calls, in the form `call_ensures(function, arguments, answer)`, and says what
//! holds of any such call in terms of the fields of what went in and came out. A law on several
//! calls has each begin where another ended.

pub mod listening;
pub mod living;
pub mod making;
pub mod queueing;
pub mod reading;
pub mod sending;
pub mod taking;
pub mod updating;
