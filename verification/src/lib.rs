//! A command-line vocabulary study tool's core: a fixed category registry,
//! a per-category progress store with bounded mutations, a stable
//! progress-gated filter over the vocabulary corpus, the show/quiz session
//! state with answer normalization and grading, and the text renderings of
//! entries and progress.  File reading and writing, argument handling and
//! the interactive prompts live outside this crate and hand it plain values.

pub mod category;
pub mod error;
pub mod filter;
pub mod progress;
pub mod session;
pub mod text;
pub mod vocab;
