//! A supervisor for one long-running worker process spoken to over its
//! standard streams, one structured message per line.
//!
//! The crate holds the decision core: the wire grammar and its codec
//! (`json`, `encode`, `parse`, `decode`), the two messages and their
//! framing (`messages`), the correlation of responses to calls
//! (`correlation`), the lifecycle state machine of the worker
//! (`python_process`), and admission control around it (`python_state`).
//! What only the operating system can do — spawning, killing and probing
//! the process, reading and writing its streams, waiting — is performed
//! by the embedding program, which reports each observation here as a
//! plain value; every decision taken on those observations is verified.
//! The laws that hold of every run are stated and proved in `laws` and
//! `json_laws`.

pub mod json;
pub mod encode;
pub mod parse;
pub mod text;
pub mod decode;
pub mod messages;
pub mod correlation;
pub mod python_process;
pub mod python_state;
pub mod laws;
pub mod json_laws;

use vstd::prelude::*;

verus! {

/// Upper bound on the number of calls that may be past admission and not
/// yet resolved at any one time.
pub const MAX_CONCURRENT_CALLS: usize = 10;

} // verus!
