//! The tool-execution core of a local agent.
//!
//! The agent offers a fixed set of tools to its caller: reading, writing and
//! editing files, listing directories, finding files by pattern, searching
//! text, and running shell commands. This library holds what these tools
//! decide and compute; reading files, spawning processes and decoding JSON
//! are left to the program around it, which hands in plain values and gets
//! plain values back.
//!
//! - [`text`]: text as sequences of characters.
//! - [`json`]: JSON values.
//! - [`error`]: the closed set of errors.
//! - [`id`], [`id_proofs`]: identifiers that sort by the time of their making.
//! - [`tool`]: the tools, their registry and the context of a call.
//! - [`util`]: paths and the detection of binary content.

pub mod error;
pub mod id;
pub mod id_proofs;
pub mod json;
pub mod text;
pub mod tool;
pub mod util;
