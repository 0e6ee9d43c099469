//! What holds of the queue as a whole, across operations.
pub mod answers;
pub mod appending;
pub mod arranging;
pub mod enqueues;
pub mod entries;
pub mod keeping;
pub mod leases;
pub mod orders;
pub mod outcomes;
pub mod pages;
pub mod reading;
pub mod requests;
pub mod serving;
pub mod showing;
pub mod storage;
pub mod streams;
pub mod time;
pub mod vocabulary;
