//! The architecture-independent core of a small multi-core kernel.
//!
//! - `process_manager`: the process table and its status state machine, with
//!   `process_model` as its mathematical model and `process_laws` for what
//!   holds across its operations;
//! - `scheduler`: the scheduling policy that the manager consults, and a
//!   round-robin policy;
//! - `event_hub`: the timer queue behind sleep and wakeup;
//! - `memory`: memory areas, page-fault resolution and the physical frame
//!   allocator;
//! - `paging`: page-table entries and the contents of root tables;
//! - `trap`: the dispatch of exceptions and the system-call registers;
//! - `cp_request`, `control_plane`, `prm`: the board's control plane and the
//!   serial link to it;
//! - `console`: the console's input queue and line editing.
//!
//! Every service is an explicitly constructed value that is mutated through
//! `&mut self`; sharing one between cores is the embedding kernel's business.

pub mod console;
pub mod control_plane;
pub mod cp_request;
pub mod event_hub;
pub mod memory;
pub mod paging;
pub mod pid_seq;
pub mod prm;
pub mod process_laws;
pub mod process_manager;
pub mod process_model;
pub mod scheduler;
pub mod trap;
