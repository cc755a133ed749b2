//! Decision logic for synchronising many repositories at once: which
//! dependency managers a repository uses, the per-repository pipeline, the
//! fan-in of completion signals, and the tagging of streamed output lines.

pub mod manager;
pub mod orchestrator;
pub mod output;
pub mod pipeline;
