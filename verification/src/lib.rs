//! A first-in first-out dispatch queue for one project.
//!
//! The queue holds dispatch envelopes and hands them out to workflows. An
//! entry is pending until it is leased, may be held back or deferred to a later
//! instant, and leaves the queue when its workflow ends.
//!
//! The project root is bound once, when the plugin is initialized, and a
//! request that names another root is refused. The queue is stored under it:
//!
//! ```text
//! <project_root>/.animus/queue.json   # the queue, replaced as a whole
//! <project_root>/.animus/queue.lock   # held while the queue is read and written
//! ```
//!
//! Everything here computes on a loaded queue. Files, locks and streams are
//! left to the caller, which is told what to read, write and answer.
pub mod clock;
pub mod dispatch_queue_state;
pub mod dispatch_queue_store;
pub mod enqueueing;
pub mod frames;
pub mod handlers;
pub mod identity;
pub mod laws;
pub mod leasing;
pub mod listing;
pub mod mutations;
pub mod ordering;
pub mod plugin;
pub mod queue_protocol;
pub mod queue_service;
pub mod rpc;
pub mod seqs;
pub mod subject;
pub mod text;

pub use dispatch_queue_state::{DispatchQueueEntry, DispatchQueueEntryStatus, DispatchQueueState};
pub use dispatch_queue_store::{
    load_queue_state, queue_lock_path, queue_state_path, save_queue_state,
};
pub use queue_service::QueueBackend;
