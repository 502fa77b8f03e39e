//! Verified core of a small UDP file-transfer tool: chunking of files,
//! framing of datagrams, the bookkeeping of which chunks are still missing,
//! and the decisions a node takes on every message it receives.

pub mod addr;
pub mod chunk;
pub mod duties;
pub mod effects;
pub mod file_id;
pub mod frame;
pub mod launch;
pub mod laws;
pub mod node;
pub mod protocol;
pub mod task;

