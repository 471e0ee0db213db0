//! The compression gateway's decisions: which files it takes, the command
//! line it runs, and how the tool's exit becomes a result.

use vstd::prelude::*;
use crate::files::views;
use crate::paths::{extension_of, file_name, file_name_of, split_name};

verus! {

/// Why a file was not compressed.
#[derive(Debug)]
pub enum CompressionError {
    /// The tool is not at the configured path.
    FfmpegNotFound(String),
    /// The tool could not be started; the system's message.
    ExecutionError(String),
    /// The input file is not there.
    InputFileNotFound(String),
    /// The tool exited with a failure; what it wrote to its error stream.
    FfmpegError(String),
    /// The input's extension is neither `mp4` nor `jpg`.
    UnsupportedFileTypeError(String),
}

/// The text that states a compression error.
pub open spec fn compression_message(e: CompressionError) -> Seq<char> {
    match e {
        CompressionError::FfmpegNotFound(p) => "FFmpeg not found at path: "@ + p@,
        CompressionError::ExecutionError(m) => "Failed to execute FFmpeg: "@ + m@,
        CompressionError::InputFileNotFound(p) => "Input file not found: "@ + p@,
        CompressionError::FfmpegError(m) => "FFmpeg error: "@ + m@,
        CompressionError::UnsupportedFileTypeError(p) => "Unsupported file type: "@ + p@,
    }
}

impl CompressionError {
    /// The text that states this error.
    pub fn message(&self) -> (r: String)
        ensures
            r@ == compression_message(*self),
    {
        let (mut text, detail) = match self {
            CompressionError::FfmpegNotFound(p) => (String::from_str("FFmpeg not found at path: "), p),
            CompressionError::ExecutionError(m) => (String::from_str("Failed to execute FFmpeg: "), m),
            CompressionError::InputFileNotFound(p) => (String::from_str("Input file not found: "), p),
            CompressionError::FfmpegError(m) => (String::from_str("FFmpeg error: "), m),
            CompressionError::UnsupportedFileTypeError(p) => (
                String::from_str("Unsupported file type: "),
                p,
            ),
        };
        text.append(detail.as_str());
        text
    }
}

/// What became of one run of the tool.
#[derive(Debug)]
pub enum ToolOutcome {
    /// The tool ran and exited; `stderr` is what it wrote to its error stream.
    Exited { success: bool, stderr: String },
    /// The tool could not be started; the system's message.
    Failed(String),
}

/// A command line: the program and its arguments.
#[derive(Debug)]
pub struct Invocation {
    pub program: String,
    pub args: Vec<String>,
}

/// The extension of the file name of `path`, if it has both.
pub open spec fn path_extension(path: Seq<char>) -> Option<Seq<char>> {
    match file_name_of(path) {
        Some(n) => extension_of(n),
        None => None,
    }
}

/// The tool's options for a video: H.265 at 1000k, 24 frames a second, AAC
/// audio, experimental features allowed.
pub open spec fn video_flags() -> Seq<Seq<char>> {
    seq![
        "-vcodec"@,
        "libx265"@,
        "-b:v"@,
        "1000k"@,
        "-r"@,
        "24"@,
        "-acodec"@,
        "aac"@,
        "-strict"@,
        "experimental"@,
    ]
}

/// The tool's options for an image: quality 2, compression level 2, the
/// slow preset.
pub open spec fn image_flags() -> Seq<Seq<char>> {
    seq!["-q:v"@, "2"@, "-compression_level"@, "2"@, "-preset"@, "slow"@]
}

/// The arguments for compressing `input` into `output` with `flags`.
pub open spec fn tool_args(input: Seq<char>, output: Seq<char>, flags: Seq<Seq<char>>) -> Seq<
    Seq<char>,
> {
    seq!["-i"@, input] + flags + seq![output]
}

/// Appends the string `s` to `v`.
fn push_str(v: &mut Vec<String>, s: &str)
    ensures
        views(final(v)@) == views(old(v)@).push(s@),
{
    v.push(String::from_str(s));
    proof {
        assert(views(final(v)@) =~= views(old(v)@).push(s@));
    }
}

/// A compressor bound to the path of its tool.
#[derive(Debug)]
pub struct VideoCompressor {
    ffmpeg_path: String,
}

impl VideoCompressor {
    /// The path of the tool.
    pub closed spec fn spec_ffmpeg_path(&self) -> Seq<char> {
        self.ffmpeg_path@
    }

    /// A compressor for the tool at `ffmpeg_path`; `tool_present` says whether
    /// anything is at that path.
    pub fn new(ffmpeg_path: &str, tool_present: bool) -> (r: Result<Self, CompressionError>)
        ensures
            r is Ok <==> tool_present,
            r matches Ok(c) ==> c.spec_ffmpeg_path() == ffmpeg_path@,
            r matches Err(e) ==> e matches CompressionError::FfmpegNotFound(p) && p@
                == ffmpeg_path@,
    {
        if !tool_present {
            return Err(CompressionError::FfmpegNotFound(String::from_str(ffmpeg_path)));
        }
        Ok(VideoCompressor { ffmpeg_path: String::from_str(ffmpeg_path) })
    }

    pub fn ffmpeg_path(&self) -> (r: &str)
        ensures
            r@ == self.spec_ffmpeg_path(),
    {
        self.ffmpeg_path.as_str()
    }

    /// The command line that compresses `input_file` into `output`: an `mp4`
    /// goes the video way, a `jpg` the image way; any other extension, or
    /// none, is refused before anything else is looked at. `input_present`
    /// says whether the input file is there.
    pub fn compress_file(&self, input_file: &str, output: &str, input_present: bool) -> (r: Result<
        Invocation,
        CompressionError,
    >)
        ensures
            self.routes(input_file@, output@, input_present, r),
    {
        let ext = match file_name(input_file) {
            Some(n) => split_name(n.as_str()).1,
            None => None,
        };
        let is_video = match &ext {
            Some(e) => e.eq(&String::from_str("mp4")),
            None => false,
        };
        let is_image = match &ext {
            Some(e) => e.eq(&String::from_str("jpg")),
            None => false,
        };
        if is_video {
            self.compress_video(input_file, output, input_present)
        } else if is_image {
            self.compress_image(input_file, output, input_present)
        } else {
            Err(CompressionError::UnsupportedFileTypeError(String::from_str(input_file)))
        }
    }

    /// What `compress_file` gives for these arguments.
    pub open spec fn routes(
        &self,
        input: Seq<char>,
        output: Seq<char>,
        input_present: bool,
        r: Result<Invocation, CompressionError>,
    ) -> bool {
        if path_extension(input) == Some("mp4"@) {
            self.prepared(input, output, input_present, video_flags(), r)
        } else if path_extension(input) == Some("jpg"@) {
            self.prepared(input, output, input_present, image_flags(), r)
        } else {
            r matches Err(CompressionError::UnsupportedFileTypeError(p)) && p@ == input
        }
    }

    /// `r` runs the tool with `flags` where the input is present, and is the
    /// missing-input error otherwise.
    pub open spec fn prepared(
        &self,
        input: Seq<char>,
        output: Seq<char>,
        input_present: bool,
        flags: Seq<Seq<char>>,
        r: Result<Invocation, CompressionError>,
    ) -> bool {
        if input_present {
            r matches Ok(inv) && inv.program@ == self.spec_ffmpeg_path() && views(inv.args@)
                == tool_args(input, output, flags)
        } else {
            r matches Err(CompressionError::InputFileNotFound(p)) && p@ == input
        }
    }

    /// The command line for a video.
    pub fn compress_video(&self, input_file: &str, output: &str, input_present: bool) -> (r: Result<
        Invocation,
        CompressionError,
    >)
        ensures
            self.prepared(input_file@, output@, input_present, video_flags(), r),
    {
        self.validate_input_file(input_file, input_present)?;
        let mut flags: Vec<String> = Vec::new();
        push_str(&mut flags, "-vcodec");
        push_str(&mut flags, "libx265");
        push_str(&mut flags, "-b:v");
        push_str(&mut flags, "1000k");
        push_str(&mut flags, "-r");
        push_str(&mut flags, "24");
        push_str(&mut flags, "-acodec");
        push_str(&mut flags, "aac");
        push_str(&mut flags, "-strict");
        push_str(&mut flags, "experimental");
        proof {
            assert(views(flags@) =~= video_flags());
        }
        Ok(self.invocation(input_file, output, flags))
    }

    /// The command line for an image.
    pub fn compress_image(&self, input_file: &str, output: &str, input_present: bool) -> (r: Result<
        Invocation,
        CompressionError,
    >)
        ensures
            self.prepared(input_file@, output@, input_present, image_flags(), r),
    {
        self.validate_input_file(input_file, input_present)?;
        let mut flags: Vec<String> = Vec::new();
        push_str(&mut flags, "-q:v");
        push_str(&mut flags, "2");
        push_str(&mut flags, "-compression_level");
        push_str(&mut flags, "2");
        push_str(&mut flags, "-preset");
        push_str(&mut flags, "slow");
        proof {
            assert(views(flags@) =~= image_flags());
        }
        Ok(self.invocation(input_file, output, flags))
    }

    fn validate_input_file(&self, input_file: &str, input_present: bool) -> (r: Result<
        (),
        CompressionError,
    >)
        ensures
            r is Ok <==> input_present,
            r matches Err(e) ==> e matches CompressionError::InputFileNotFound(p) && p@
                == input_file@,
    {
        if !input_present {
            Err(CompressionError::InputFileNotFound(String::from_str(input_file)))
        } else {
            Ok(())
        }
    }

    /// `<tool> -i <input> <flags> <output>`.
    fn invocation(&self, input_file: &str, output: &str, flags: Vec<String>) -> (r: Invocation)
        ensures
            r.program@ == self.spec_ffmpeg_path(),
            views(r.args@) == tool_args(input_file@, output@, views(flags@)),
    {
        let mut args: Vec<String> = Vec::new();
        push_str(&mut args, "-i");
        push_str(&mut args, input_file);
        let mut i: usize = 0;
        while i < flags.len()
            invariant
                i <= flags.len(),
                views(args@) == seq!["-i"@, input_file@] + views(flags@).subrange(0, i as int),
            decreases flags.len() - i,
        {
            push_str(&mut args, flags[i].as_str());
            i = i + 1;
            proof {
                assert(views(args@) =~= seq!["-i"@, input_file@] + views(flags@).subrange(
                    0,
                    i as int,
                ));
            }
        }
        push_str(&mut args, output);
        proof {
            assert(views(flags@).subrange(0, i as int) =~= views(flags@));
            assert(views(args@) =~= tool_args(input_file@, output@, views(flags@)));
        }
        Invocation { program: String::from_str(self.ffmpeg_path.as_str()), args }
    }

    /// The result of one run of the tool that was to write `output`.
    pub fn ffmpeg_result(outcome: ToolOutcome, output: &str) -> (r: Result<String, CompressionError>)
        ensures
            match outcome {
                ToolOutcome::Exited { success: true, .. } => r matches Ok(o) && o@ == output@,
                ToolOutcome::Exited { success: false, stderr } => r matches Err(
                    CompressionError::FfmpegError(m),
                ) && m@ == stderr@,
                ToolOutcome::Failed(msg) => r matches Err(CompressionError::ExecutionError(m))
                    && m@ == msg@,
            },
    {
        match outcome {
            ToolOutcome::Exited { success, stderr } => {
                if success {
                    Ok(String::from_str(output))
                } else {
                    Err(CompressionError::FfmpegError(stderr))
                }
            },
            ToolOutcome::Failed(msg) => Err(CompressionError::ExecutionError(msg)),
        }
    }
}

} // verus!
