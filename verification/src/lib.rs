//! Core of a segmented media downloader: the phase machine, the segment
//! ledger, the fetch pool bookkeeping, the retry governor and the merge stage,
//! each with a machine-checked contract.

pub mod text;
pub mod types;
pub mod utils;
pub mod address;
pub mod control;
pub mod governor;
pub mod key;
pub mod ledger;
pub mod machine;
pub mod merge;
pub mod playlist;
pub mod pool;
pub mod queue;
