//! Orchestration core of a polling media-compression node: output naming,
//! input/output pairing, extension routing and the per-mode cycles.

pub mod text;
pub mod pattern;
pub mod paths;
pub mod files;
pub mod compressor;
pub mod config;
pub mod node;
pub mod cycle;
pub mod telemetry;

pub use compressor::{CompressionError, Invocation, ToolOutcome, VideoCompressor};
pub use config::{log_level, Config, LogLevel};
pub use cycle::{Action, Cycle, Event, Note, Phase, Step};
pub use files::FileManager;
pub use node::{mode_of, Mode, Node, NodeError};
pub use telemetry::{CompressMessage, HealthMessage, Message};
