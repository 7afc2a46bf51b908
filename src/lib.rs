//! Cycles through the snippets of a plain-text file, one at a time, keeping a
//! cursor position that survives between invocations.
//!
//! The crate holds the logic: how a snippet file is cut into snippets, how the
//! cursor moves, and what persisting the cursor takes. Reading files, locating
//! the per-user configuration directory and encoding the cursor record are done
//! by the caller, which hands the results to the functions here.
pub mod config;
pub mod lazy_coder_error;
pub mod snippet_handler;

pub use config::{Config, ConfigDir, SaveStep, FILE_NAME};
pub use lazy_coder_error::LazyCoderError;
pub use snippet_handler::{snippet_at, snippet_from, SnippetHandler, SnippetProvider, WholeFileReader};
