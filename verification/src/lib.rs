//! Atomic read-modify-write primitives emulated over plain memory.
//!
//! The crate holds the decision logic of a lock-emulated atomic cell: which
//! memory orders an operation accepts, which hardware capabilities a probe
//! reported and which implementation path follows from them, how an address
//! is routed to one lock of a fixed striped table, how a sequence lock's
//! counter moves, and what every atomic operation does to a value. On top of
//! these it holds a schedule-driven model of threads that run the protocol
//! one shared-memory access at a time, together with the proofs that no
//! interleaving loses an update or lets a reader see a torn value.
pub mod alone;
pub mod cell;
pub mod chunks;
pub mod detect;
pub mod dispatch;
pub mod induction;
pub mod kind;
pub mod laws;
pub mod machine;
pub mod model;
pub mod order;
pub mod request;
pub mod rmw;
pub mod safety;
pub mod seq_lock;
pub mod table;
pub mod tally;

