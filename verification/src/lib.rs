//! A single-pass compiler for a miniature postfix stack language.
//!
//! A program is a stream of characters: hex digits push constants, `+ - * /`
//! combine the two topmost values (top operand on the left), `~` drops, `:`
//! duplicates, `$` swaps and `@` rotates; every other character is ignored.
//! The stream is walked once while an abstract stack of symbolic values is
//! maintained. Reads below the visible stack are resolved lazily as memory
//! loads at increasing negative offsets, and the final abstract stack is
//! written back to the caller's memory window, together with the two depth
//! counters (`consumed`, `returned`) the caller needs to resize its storage.
//!
//! - `sem` gives the symbolic semantics of the stream;
//! - `plan` defines the straight-line operation plan and what makes one
//!   correct for a program;
//! - `evaluator` is the verified compiler from stream to plan;
//! - `laws` proves the counting, determinism and shuffle properties;
//! - `backend` is the trusted boundary to the native code generator;
//! - `jit` replays a verified plan through the backend and finalizes one
//!   native routine per compilation.

pub mod backend;
pub mod evaluator;
pub mod jit;
pub mod laws;
pub mod plan;
pub mod sem;
