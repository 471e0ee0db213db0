//! The node: its run mode, its settings, and the cycle it drives each tick.

use vstd::prelude::*;
use crate::compressor::VideoCompressor;
use crate::config::Config;
use crate::files::FileManager;

verus! {

/// Why a node could not start, or what went wrong with one file.
#[derive(Debug)]
pub enum NodeError {
    /// The settings could not be read; the system's message.
    FileReadError(String),
    /// A directory could not be listed; the system's message.
    ReadDirError(String),
    /// A file could not be deleted; the system's message.
    RemoveFileError(String),
    /// A file could not be compressed; the gateway's message.
    CompressFileError(String),
    /// The configured mode is none of `buffer`, `worker`, `single`.
    InvalidModeError(String),
    /// The compressor could not be set up; the gateway's message.
    CompressorInitError(String),
}

/// The text that states a node error.
pub open spec fn node_message(e: NodeError) -> Seq<char> {
    match e {
        NodeError::FileReadError(m) => "Failed to read config file: "@ + m@,
        NodeError::ReadDirError(m) => "Failed to read directory: "@ + m@,
        NodeError::RemoveFileError(m) => "Failed to remove file: "@ + m@,
        NodeError::CompressFileError(m) => "Failed to compress file: "@ + m@,
        NodeError::InvalidModeError(m) => "Invalid mode: "@ + m@,
        NodeError::CompressorInitError(m) => "Failed to initialize compressor: "@ + m@,
    }
}

impl NodeError {
    /// The text that states this error.
    pub fn message(&self) -> (r: String)
        ensures
            r@ == node_message(*self),
    {
        let (mut text, detail) = match self {
            NodeError::FileReadError(m) => (String::from_str("Failed to read config file: "), m),
            NodeError::ReadDirError(m) => (String::from_str("Failed to read directory: "), m),
            NodeError::RemoveFileError(m) => (String::from_str("Failed to remove file: "), m),
            NodeError::CompressFileError(m) => (String::from_str("Failed to compress file: "), m),
            NodeError::InvalidModeError(m) => (String::from_str("Invalid mode: "), m),
            NodeError::CompressorInitError(m) => (
                String::from_str("Failed to initialize compressor: "),
                m,
            ),
        };
        text.append(detail.as_str());
        text
    }
}

/// What a node does each tick.
#[derive(PartialEq, Eq, Structural, Clone, Copy, Debug)]
pub enum Mode {
    /// Deletes inputs whose compressed counterparts exist.
    Buffer,
    /// Compresses every input, failures notwithstanding.
    Worker,
    /// Compresses the inputs once, stopping at the first failure.
    Single,
}

/// The mode a configured name stands for.
pub open spec fn mode_named(name: Seq<char>) -> Option<Mode> {
    if name == "buffer"@ {
        Some(Mode::Buffer)
    } else if name == "worker"@ {
        Some(Mode::Worker)
    } else if name == "single"@ {
        Some(Mode::Single)
    } else {
        None
    }
}

/// The mode that `name` stands for, if any.
pub fn mode_of(name: &str) -> (r: Option<Mode>)
    ensures
        r == mode_named(name@),
{
    let s = String::from_str(name);
    if s.eq(&String::from_str("buffer")) {
        Some(Mode::Buffer)
    } else if s.eq(&String::from_str("worker")) {
        Some(Mode::Worker)
    } else if s.eq(&String::from_str("single")) {
        Some(Mode::Single)
    } else {
        None
    }
}

/// A node: fixed at construction, never changed afterwards.
#[derive(Debug)]
pub struct Node {
    mode: Mode,
    clear_in_dir: bool,
    polling_interval: u64,
    file_manager: FileManager,
    compressor: VideoCompressor,
}

impl Node {
    pub closed spec fn spec_mode(&self) -> Mode {
        self.mode
    }

    pub closed spec fn spec_clear_in_dir(&self) -> bool {
        self.clear_in_dir
    }

    /// Seconds between two ticks.
    pub closed spec fn spec_polling_interval(&self) -> u64 {
        self.polling_interval
    }

    pub closed spec fn spec_file_manager(&self) -> FileManager {
        self.file_manager
    }

    pub closed spec fn spec_compressor(&self) -> VideoCompressor {
        self.compressor
    }

    /// A node for `config`; `tool_present` says whether anything is at the
    /// configured tool path. The mode is checked first.
    pub fn new(config: Config, tool_present: bool) -> (r: Result<Self, NodeError>)
        requires
            mode_named(config.mode@) is Some && tool_present ==> config.polling_interval * 60
                <= u64::MAX,
        ensures
            mode_named(config.mode@) is None ==> (r matches Err(NodeError::InvalidModeError(m))
                && m@ == config.mode@),
            mode_named(config.mode@) is Some && !tool_present ==> (r matches Err(
                NodeError::CompressorInitError(m),
            ) && m@ == "FFmpeg not found at path: "@ + config.ffmpeg_path@),
            mode_named(config.mode@) is Some && tool_present <==> r is Ok,
            r matches Ok(n) ==> {
                &&& Some(n.spec_mode()) == mode_named(config.mode@)
                &&& n.spec_clear_in_dir() == config.clear_in_dir
                &&& n.spec_polling_interval() == config.polling_interval * 60
                &&& n.spec_file_manager().spec_in_dir() == config.in_dir@
                &&& n.spec_file_manager().spec_out_dir() == config.out_dir@
                &&& n.spec_compressor().spec_ffmpeg_path() == config.ffmpeg_path@
            },
    {
        let mode = match mode_of(config.mode.as_str()) {
            Some(m) => m,
            None => return Err(NodeError::InvalidModeError(config.mode)),
        };
        let compressor = match VideoCompressor::new(config.ffmpeg_path.as_str(), tool_present) {
            Ok(c) => c,
            Err(e) => return Err(NodeError::CompressorInitError(e.message())),
        };
        let file_manager = FileManager::new(config.in_dir.as_str(), config.out_dir.as_str());
        Ok(Node {
            mode,
            clear_in_dir: config.clear_in_dir,
            polling_interval: config.polling_interval * 60,
            file_manager,
            compressor,
        })
    }

    pub fn mode(&self) -> (r: Mode)
        ensures
            r == self.spec_mode(),
    {
        self.mode
    }

    pub fn clear_in_dir(&self) -> (r: bool)
        ensures
            r == self.spec_clear_in_dir(),
    {
        self.clear_in_dir
    }

    /// Seconds between two ticks.
    pub fn polling_interval(&self) -> (r: u64)
        ensures
            r == self.spec_polling_interval(),
    {
        self.polling_interval
    }

    pub fn file_manager(&self) -> (r: &FileManager)
        ensures
            *r == self.spec_file_manager(),
    {
        &self.file_manager
    }

    pub fn compressor(&self) -> (r: &VideoCompressor)
        ensures
            *r == self.spec_compressor(),
    {
        &self.compressor
    }
}

} // verus!
