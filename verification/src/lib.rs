//! A small regular-expression engine.
//!
//! Patterns built from literal characters, the `.` wildcard, the `$`
//! end-of-line anchor and the `*` / `+` quantifiers are compiled into an
//! explicit finite-state transition table; a matcher then walks that table
//! over an input string and decides match or no-match.  The table is
//! immutable after compilation, matching is pure, and malformed patterns are
//! rejected with an explicit error instead of a panic.
//!
//! A toy table-driven turnstile state machine is included as a stylistic
//! companion piece.

pub mod fsm;
pub mod laws;
pub mod lexer;
pub mod turnstile;
