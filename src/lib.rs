//! Per-function summaries of a compiled bytecode module: signatures, the
//! global resources each function borrows, and the functions it calls.

pub mod model;
pub mod text;
pub mod order;
pub mod dedup;
pub mod format;
pub mod resolve;
pub mod inspect;
pub mod laws;
