//! Runtime primitives for Multorum orchestration: worker identities and
//! lifecycle, bidding groups, mailbox metadata, canonical paths, and the
//! decisions the orchestrator and workers make on runtime state.

pub mod boundary;
pub mod commit;
pub mod error;
pub mod forward;
pub mod group;
pub mod conflict;
pub mod mailbox;
pub mod orchestrator;
pub mod paths;
pub mod project;
pub mod records;
pub mod state;
pub mod storage;
pub mod survey;
pub mod timestamp;
pub mod worker;
pub mod worker_id;
