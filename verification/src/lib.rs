//! A host-and-container observability snapshot library: the verified
//! aggregation logic behind a dashboard that reports machine health and
//! container-runtime inventory as one self-consistent snapshot per request.
pub mod host;
pub mod inventory;
pub mod logs;
pub mod probe;
pub mod procs;
pub mod snapshot;
pub mod text;
