//! One node's work as a state machine: each step takes what the outside world
//! answered and says what to do next. Listing directories, probing and
//! deleting files, running the tool and sleeping are the caller's part.

use vstd::prelude::*;
use crate::compressor::{
    image_flags, path_extension, tool_args, video_flags, Invocation, ToolOutcome,
};
use crate::files::{keep_with_extension, output_path, views, with_extension};
use crate::node::{Mode, Node, NodeError};
use crate::paths::name_or_empty;
use crate::pattern::names_pair;

verus! {

/// Where a cycle stands: what it waits for.
#[derive(PartialEq, Eq, Structural, Clone, Copy, Debug)]
pub enum Phase {
    /// The listing of the input directory.
    ListingIn,
    /// The listing of the output directory.
    ListingOut,
    /// Whether the input file in hand is there, and the time.
    Probing,
    /// The outcome of running the tool.
    Running,
    /// The outcome of deleting the input file in hand.
    Removing,
    /// The end of the pause between two ticks.
    Resting,
    /// Nothing: the run is over.
    Done,
}

/// What the caller is asked to do.
#[derive(PartialEq, Eq, Structural, Clone, Copy, Debug)]
pub enum Action {
    /// List the input directory.
    ListInput,
    /// List the output directory.
    ListOutput,
    /// Tell whether input `i` exists, and the Unix time in seconds.
    Probe(usize),
    /// Run the cycle's invocation.
    Run,
    /// Delete input `i`.
    Remove(usize),
    /// Pause for this many seconds, then begin the next tick.
    Sleep(u64),
    /// End the run.
    Stop,
}

/// What is worth a line in the log.
#[derive(PartialEq, Eq, Structural, Clone, Copy, Debug)]
pub enum Note {
    Quiet,
    /// Warning: a buffer node that may not delete has nothing to do.
    BufferSkipped,
    /// Error: a listing failed; the cycle's fault says why.
    ListFailed,
    /// Input `i` was deleted.
    Removed(usize),
    /// Error: input `i` could not be deleted; the cycle's fault says why.
    RemoveFailed(usize),
    /// Input `i` was compressed.
    Compressed(usize),
    /// Error: input `i` could not be compressed; the cycle's fault says why.
    CompressFailed(usize),
    /// Input `i` already has an output and is passed over.
    AlreadyCompressed(usize),
}

/// One step's answer: the next action, and what to log.
#[derive(PartialEq, Eq, Structural, Clone, Copy, Debug)]
pub struct Step {
    pub action: Action,
    pub note: Note,
}

/// What the caller reports back.
#[derive(Debug)]
pub enum Event {
    /// The pause is over: begin a tick.
    Begin,
    /// The paths found in the directory that was to be listed.
    Listed(Result<Vec<String>, NodeError>),
    /// Whether the input file is there, and the Unix time in seconds.
    Probed { present: bool, now: u64 },
    /// What became of running the tool.
    Ran(ToolOutcome),
    /// What became of deleting the input file.
    Removed(Result<(), NodeError>),
}

/// The state of a cycle as contracts see it.
pub struct CycleView {
    pub phase: Phase,
    /// The input files of this tick, in the order they are handled.
    pub inputs: Seq<Seq<char>>,
    /// The output files of the last listing of the output directory.
    pub outputs: Seq<Seq<char>>,
    /// The index of the input in hand.
    pub cursor: usize,
    /// The output path for the input in hand.
    pub target: Seq<char>,
    /// The action the cycle waits on.
    pub pending: Action,
}

/// Some output in `outs` is taken for the compressed counterpart of `input`.
pub open spec fn pairs_any(input: Seq<char>, outs: Seq<Seq<char>>) -> bool {
    exists|j: int| 0 <= j < outs.len() && names_pair(name_or_empty(input), name_or_empty(#[trigger] outs[j]))
}

/// The inputs of `ins` that pair with some output of `outs`, in their order.
pub open spec fn paired(ins: Seq<Seq<char>>, outs: Seq<Seq<char>>) -> Seq<Seq<char>>
    decreases ins.len(),
{
    if ins.len() == 0 {
        Seq::empty()
    } else if pairs_any(ins.last(), outs) {
        paired(ins.drop_last(), outs).push(ins.last())
    } else {
        paired(ins.drop_last(), outs)
    }
}

/// The tool's options for `input`, whose extension is `mp4` or `jpg`.
pub open spec fn flags_for(input: Seq<char>) -> Seq<Seq<char>> {
    if path_extension(input) == Some("mp4"@) {
        video_flags()
    } else {
        image_flags()
    }
}

/// The gateway takes `input`: its extension is `mp4` or `jpg`.
pub open spec fn supported(input: Seq<char>) -> bool {
    path_extension(input) == Some("mp4"@) || path_extension(input) == Some("jpg"@)
}

/// The gateway's message for a compression that failed on the event `e`: an
/// unsupported type or a missing input at the probe, the tool's error stream
/// or the system's message after a run.
pub open spec fn failure_text(c: CycleView, e: Event) -> Seq<char> {
    let input = c.inputs[c.cursor as int];
    match e {
        Event::Probed { .. } => if !supported(input) {
            "Unsupported file type: "@ + input
        } else {
            "Input file not found: "@ + input
        },
        Event::Ran(ToolOutcome::Exited { stderr, .. }) => "FFmpeg error: "@ + stderr@,
        Event::Ran(ToolOutcome::Failed(msg)) => "Failed to execute FFmpeg: "@ + msg@,
        _ => Seq::empty(),
    }
}

/// An answer that does not fit what the cycle waits on changes nothing, and
/// the request stands.
pub open spec fn ignored(c: CycleView) -> (CycleView, Step) {
    (c, Step { action: c.pending, note: Note::Quiet })
}

/// The state of a run before its first tick.
pub open spec fn initial_view(interval: u64) -> CycleView {
    CycleView {
        phase: Phase::Resting,
        inputs: Seq::empty(),
        outputs: Seq::empty(),
        cursor: 0,
        target: Seq::empty(),
        pending: Action::Sleep(interval),
    }
}

/// The cycle of a node.
#[derive(Debug)]
pub struct Cycle {
    phase: Phase,
    inputs: Vec<String>,
    outputs: Vec<String>,
    cursor: usize,
    target: String,
    pending: Action,
    invocation: Option<Invocation>,
    fault: Option<NodeError>,
}

impl View for Cycle {
    type V = CycleView;

    closed spec fn view(&self) -> CycleView {
        CycleView {
            phase: self.phase,
            inputs: views(self.inputs@),
            outputs: views(self.outputs@),
            cursor: self.cursor,
            target: self.target@,
            pending: self.pending,
        }
    }
}

impl Cycle {
    /// The command line to run when the action is `Run`.
    pub closed spec fn spec_invocation(&self) -> Option<Invocation> {
        self.invocation
    }

    /// The error behind the last failure that was noted.
    pub closed spec fn spec_fault(&self) -> Option<NodeError> {
        self.fault
    }

    pub fn phase(&self) -> (r: Phase)
        ensures
            r == self@.phase,
    {
        self.phase
    }

    /// The number of inputs of this tick.
    pub fn input_count(&self) -> (r: usize)
        ensures
            r == self@.inputs.len(),
    {
        self.inputs.len()
    }

    /// Input `i` of this tick.
    pub fn input(&self, i: usize) -> (r: &str)
        requires
            i < self@.inputs.len(),
        ensures
            r@ == self@.inputs[i as int],
    {
        self.inputs[i].as_str()
    }

    /// The output path for the input in hand.
    pub fn target(&self) -> (r: &str)
        ensures
            r@ == self@.target,
    {
        self.target.as_str()
    }

    pub fn invocation(&self) -> (r: Option<&Invocation>)
        ensures
            r == match self.spec_invocation() {
                Some(i) => Some(&i),
                None => None::<&Invocation>,
            },
    {
        match &self.invocation {
            Some(i) => Some(i),
            None => None,
        }
    }

    pub fn fault(&self) -> (r: Option<&NodeError>)
        ensures
            r == match self.spec_fault() {
                Some(e) => Some(&e),
                None => None::<&NodeError>,
            },
    {
        match &self.fault {
            Some(e) => Some(e),
            None => None,
        }
    }
}

impl Node {
    /// The cycle state fits this node and waits on its pending action.
    pub open spec fn fits(&self, c: CycleView) -> bool {
        let mode = self.spec_mode();
        &&& c.inputs.len() <= usize::MAX
        &&& c.cursor <= c.inputs.len()
        &&& (c.phase == Phase::Probing || c.phase == Phase::Running || c.phase == Phase::Removing)
            ==> c.cursor < c.inputs.len()
        &&& c.phase == Phase::ListingOut ==> mode != Mode::Worker
        &&& c.phase == Phase::ListingOut && mode == Mode::Single ==> c.cursor < c.inputs.len()
        &&& (c.phase == Phase::Probing || c.phase == Phase::Running) ==> mode != Mode::Buffer
        &&& c.phase == Phase::Done ==> mode == Mode::Single
        &&& c.phase == Phase::Resting ==> mode != Mode::Single
        &&& c.pending == match c.phase {
            Phase::ListingIn => Action::ListInput,
            Phase::ListingOut => Action::ListOutput,
            Phase::Probing => Action::Probe(c.cursor),
            Phase::Running => Action::Run,
            Phase::Removing => Action::Remove(c.cursor),
            Phase::Resting => Action::Sleep(self.spec_polling_interval()),
            Phase::Done => Action::Stop,
        }
    }

    /// The tick is over: a single node stops, the others pause.
    pub open spec fn end_tick(&self, c: CycleView, note: Note) -> (CycleView, Step) {
        if self.spec_mode() == Mode::Single {
            (CycleView { phase: Phase::Done, pending: Action::Stop, ..c }, Step { action: Action::Stop, note })
        } else {
            let a = Action::Sleep(self.spec_polling_interval());
            (CycleView { phase: Phase::Resting, pending: a, ..c }, Step { action: a, note })
        }
    }

    /// A tick begins from nothing: it lists the input directory, except on a
    /// buffer node that may not delete, which warns and pauses.
    pub open spec fn begin_tick(&self, c: CycleView) -> (CycleView, Step) {
        let fresh = CycleView { inputs: Seq::empty(), outputs: Seq::empty(), cursor: 0, ..c };
        if self.spec_mode() == Mode::Buffer && !self.spec_clear_in_dir() {
            self.end_tick(fresh, Note::BufferSkipped)
        } else {
            (
                CycleView { phase: Phase::ListingIn, pending: Action::ListInput, ..fresh },
                Step { action: Action::ListInput, note: Note::Quiet },
            )
        }
    }

    /// Go on with the input at the cursor, or end the tick where none is left:
    /// a buffer node deletes it, a worker probes it, a single node first lists
    /// the output directory.
    pub open spec fn advance(&self, c: CycleView, note: Note) -> (CycleView, Step) {
        if c.cursor < c.inputs.len() {
            let (p, a) = match self.spec_mode() {
                Mode::Buffer => (Phase::Removing, Action::Remove(c.cursor)),
                Mode::Worker => (Phase::Probing, Action::Probe(c.cursor)),
                Mode::Single => (Phase::ListingOut, Action::ListOutput),
            };
            (CycleView { phase: p, pending: a, ..c }, Step { action: a, note })
        } else {
            self.end_tick(c, note)
        }
    }

    /// Done with the input in hand: on to the next one.
    pub open spec fn next_file(&self, c: CycleView, note: Note) -> (CycleView, Step) {
        self.advance(CycleView { cursor: (c.cursor + 1) as usize, ..c }, note)
    }

    /// The input in hand could not be compressed: a single node ends its
    /// tick, the others go on with the next input.
    pub open spec fn failed(&self, c: CycleView) -> (CycleView, Step) {
        let note = Note::CompressFailed(c.cursor);
        if self.spec_mode() == Mode::Single {
            self.end_tick(c, note)
        } else {
            self.next_file(c, note)
        }
    }

    /// The input in hand was compressed: it is deleted where the node may
    /// delete, else the next input follows.
    pub open spec fn succeeded(&self, c: CycleView) -> (CycleView, Step) {
        let note = Note::Compressed(c.cursor);
        if self.spec_clear_in_dir() {
            let a = Action::Remove(c.cursor);
            (CycleView { phase: Phase::Removing, pending: a, ..c }, Step { action: a, note })
        } else {
            self.next_file(c, note)
        }
    }

    /// The state and the step that follow `c` on the event `e`.
    pub open spec fn next(&self, c: CycleView, e: Event) -> (CycleView, Step) {
        match e {
            Event::Begin => if c.phase == Phase::Resting {
                self.begin_tick(c)
            } else {
                ignored(c)
            },
            Event::Listed(Err(_)) => if c.phase == Phase::ListingIn || c.phase == Phase::ListingOut {
                self.end_tick(c, Note::ListFailed)
            } else {
                ignored(c)
            },
            Event::Listed(Ok(files)) => {
                let found = with_extension(views(files@));
                if c.phase == Phase::ListingIn {
                    let c2 = CycleView { inputs: found, cursor: 0, ..c };
                    if self.spec_mode() == Mode::Buffer {
                        (
                            CycleView { phase: Phase::ListingOut, pending: Action::ListOutput, ..c2 },
                            Step { action: Action::ListOutput, note: Note::Quiet },
                        )
                    } else {
                        self.advance(c2, Note::Quiet)
                    }
                } else if c.phase == Phase::ListingOut {
                    if self.spec_mode() == Mode::Buffer {
                        self.advance(
                            CycleView { inputs: paired(c.inputs, found), outputs: found, cursor: 0, ..c },
                            Note::Quiet,
                        )
                    } else {
                        let c2 = CycleView { outputs: found, ..c };
                        if pairs_any(c.inputs[c.cursor as int], found) {
                            self.next_file(c2, Note::AlreadyCompressed(c.cursor))
                        } else {
                            let a = Action::Probe(c.cursor);
                            (CycleView { phase: Phase::Probing, pending: a, ..c2 }, Step { action: a, note: Note::Quiet })
                        }
                    }
                } else {
                    ignored(c)
                }
            },
            Event::Probed { present, now } => if c.phase == Phase::Probing {
                let input = c.inputs[c.cursor as int];
                let target = match output_path(self.spec_file_manager().spec_out_dir(), input, now as nat) {
                    Some(t) => t,
                    None => Seq::empty(),
                };
                let c2 = CycleView { target, ..c };
                if present && supported(input) {
                    (CycleView { phase: Phase::Running, pending: Action::Run, ..c2 }, Step { action: Action::Run, note: Note::Quiet })
                } else {
                    self.failed(c2)
                }
            } else {
                ignored(c)
            },
            Event::Ran(outcome) => if c.phase == Phase::Running {
                if outcome matches ToolOutcome::Exited { success: true, .. } {
                    self.succeeded(c)
                } else {
                    self.failed(c)
                }
            } else {
                ignored(c)
            },
            Event::Removed(r) => if c.phase == Phase::Removing {
                self.next_file(c, if r is Ok { Note::Removed(c.cursor) } else { Note::RemoveFailed(c.cursor) })
            } else {
                ignored(c)
            },
        }
    }
}

/// The node's state for the action `Run`: the command line for the input in
/// hand, to be written to the target.
pub open spec fn run_ready(node: &Node, c: &Cycle) -> bool {
    c@.phase == Phase::Running ==> (c.spec_invocation() matches Some(inv) && {
        &&& inv.program@ == node.spec_compressor().spec_ffmpeg_path()
        &&& views(inv.args@) == tool_args(
            c@.inputs[c@.cursor as int],
            c@.target,
            flags_for(c@.inputs[c@.cursor as int]),
        )
    })
}

impl Node {
    fn close_tick(&self, c: &mut Cycle, note: Note) -> (r: Step)
        ensures
            (final(c)@, r) == self.end_tick(old(c)@, note),
            final(c).invocation == old(c).invocation,
            final(c).fault == old(c).fault,
    {
        if self.mode() == Mode::Single {
            c.phase = Phase::Done;
            c.pending = Action::Stop;
            Step { action: Action::Stop, note }
        } else {
            let a = Action::Sleep(self.polling_interval());
            c.phase = Phase::Resting;
            c.pending = a;
            Step { action: a, note }
        }
    }

    fn open_tick(&self, c: &mut Cycle) -> (r: Step)
        ensures
            (final(c)@, r) == self.begin_tick(old(c)@),
            final(c).invocation == old(c).invocation,
            final(c).fault == old(c).fault,
    {
        c.inputs = Vec::new();
        c.outputs = Vec::new();
        c.cursor = 0;
        proof {
            assert(views(c.inputs@) =~= Seq::empty());
            assert(views(c.outputs@) =~= Seq::empty());
        }
        if self.mode() == Mode::Buffer && !self.clear_in_dir() {
            self.close_tick(c, Note::BufferSkipped)
        } else {
            c.phase = Phase::ListingIn;
            c.pending = Action::ListInput;
            Step { action: Action::ListInput, note: Note::Quiet }
        }
    }

    fn go_on(&self, c: &mut Cycle, note: Note) -> (r: Step)
        ensures
            (final(c)@, r) == self.advance(old(c)@, note),
            final(c).invocation == old(c).invocation,
            final(c).fault == old(c).fault,
    {
        if c.cursor < c.inputs.len() {
            let (p, a) = match self.mode() {
                Mode::Buffer => (Phase::Removing, Action::Remove(c.cursor)),
                Mode::Worker => (Phase::Probing, Action::Probe(c.cursor)),
                Mode::Single => (Phase::ListingOut, Action::ListOutput),
            };
            c.phase = p;
            c.pending = a;
            Step { action: a, note }
        } else {
            self.close_tick(c, note)
        }
    }

    fn go_next(&self, c: &mut Cycle, note: Note) -> (r: Step)
        requires
            old(c).cursor < old(c).inputs.len(),
        ensures
            (final(c)@, r) == self.next_file(old(c)@, note),
            final(c).invocation == old(c).invocation,
            final(c).fault == old(c).fault,
    {
        c.cursor = c.cursor + 1;
        self.go_on(c, note)
    }

    fn on_failure(&self, c: &mut Cycle, e: NodeError) -> (r: Step)
        requires
            old(c).cursor < old(c).inputs.len(),
        ensures
            (final(c)@, r) == self.failed(old(c)@),
            final(c).invocation == old(c).invocation,
            final(c).fault == Some(e),
    {
        c.fault = Some(e);
        let note = Note::CompressFailed(c.cursor);
        if self.mode() == Mode::Single {
            self.close_tick(c, note)
        } else {
            self.go_next(c, note)
        }
    }

    fn on_success(&self, c: &mut Cycle) -> (r: Step)
        requires
            old(c).cursor < old(c).inputs.len(),
        ensures
            (final(c)@, r) == self.succeeded(old(c)@),
            final(c).invocation == old(c).invocation,
            final(c).fault == old(c).fault,
    {
        let note = Note::Compressed(c.cursor);
        if self.clear_in_dir() {
            let a = Action::Remove(c.cursor);
            c.phase = Phase::Removing;
            c.pending = a;
            Step { action: a, note }
        } else {
            self.go_next(c, note)
        }
    }

    /// Whether some output of `outs` is taken for the counterpart of `input`.
    fn any_pair(&self, input: &str, outs: &Vec<String>) -> (r: bool)
        ensures
            r == pairs_any(input@, views(outs@)),
    {
        let mut j: usize = 0;
        while j < outs.len()
            invariant
                j <= outs.len(),
                forall|k: int|
                    0 <= k < j ==> !names_pair(name_or_empty(input@), name_or_empty(#[trigger] views(outs@)[k])),
            decreases outs.len() - j,
        {
            if self.file_manager().is_file_pair(input, outs[j].as_str()) {
                proof {
                    assert(views(outs@)[j as int] == outs@[j as int]@);
                }
                return true;
            }
            proof {
                assert(views(outs@)[j as int] == outs@[j as int]@);
            }
            j = j + 1;
        }
        false
    }

    /// The inputs of `ins` that pair with some output of `outs`, in order.
    fn keep_paired(&self, ins: &Vec<String>, outs: &Vec<String>) -> (r: Vec<String>)
        ensures
            views(r@) == paired(views(ins@), views(outs@)),
    {
        let mut r: Vec<String> = Vec::new();
        let mut i: usize = 0;
        while i < ins.len()
            invariant
                i <= ins.len(),
                views(r@) == paired(views(ins@).subrange(0, i as int), views(outs@)),
            decreases ins.len() - i,
        {
            let f = &ins[i];
            proof {
                let pre = views(ins@).subrange(0, i + 1);
                assert(pre.drop_last() =~= views(ins@).subrange(0, i as int));
                assert(pre.last() == f@);
            }
            if self.any_pair(f.as_str(), outs) {
                r.push(f.clone());
                proof {
                    assert(views(r@) =~= views(r@).drop_last().push(f@));
                    assert(views(r@).drop_last() =~= paired(views(ins@).subrange(0, i as int), views(outs@)));
                }
            }
            i = i + 1;
        }
        proof {
            assert(views(ins@).subrange(0, i as int) =~= views(ins@));
        }
        r
    }
}

impl Node {
    /// Begins the run: the state before the first tick, and the first tick's
    /// first step.
    pub fn start(&self) -> (r: (Cycle, Step))
        ensures
            self.fits(r.0@),
            run_ready(self, &r.0),
            (r.0@, r.1) == self.begin_tick(initial_view(self.spec_polling_interval())),
    {
        let mut c = Cycle {
            phase: Phase::Resting,
            inputs: Vec::new(),
            outputs: Vec::new(),
            cursor: 0,
            target: String::new(),
            pending: Action::Sleep(self.polling_interval()),
            invocation: None,
            fault: None,
        };
        proof {
            assert(c@ == initial_view(self.spec_polling_interval())) by {
                assert(views(c.inputs@) =~= Seq::empty());
                assert(views(c.outputs@) =~= Seq::empty());
            }
        }
        let step = self.open_tick(&mut c);
        (c, step)
    }

    /// Takes the caller's report on the pending action and gives the next one.
    pub fn step(&self, cycle: &mut Cycle, event: Event) -> (r: Step)
        requires
            self.fits(old(cycle)@),
            run_ready(self, old(cycle)),
        ensures
            self.fits(final(cycle)@),
            run_ready(self, final(cycle)),
            (final(cycle)@, r) == self.next(old(cycle)@, event),
            r.note == Note::ListFailed ==> (event matches Event::Listed(Err(e))
                && final(cycle).spec_fault() == Some(e)),
            r.note is RemoveFailed ==> (event matches Event::Removed(Err(e))
                && final(cycle).spec_fault() == Some(e)),
            r.note is CompressFailed ==> (final(cycle).spec_fault() matches Some(
                NodeError::CompressFileError(m),
            ) && m@ == failure_text(old(cycle)@, event)),
    {
        let r = match event {
            Event::Begin => {
                if cycle.phase == Phase::Resting {
                    self.open_tick(cycle)
                } else {
                    Step { action: cycle.pending, note: Note::Quiet }
                }
            },
            Event::Listed(Err(e)) => {
                if cycle.phase == Phase::ListingIn || cycle.phase == Phase::ListingOut {
                    cycle.fault = Some(e);
                    self.close_tick(cycle, Note::ListFailed)
                } else {
                    Step { action: cycle.pending, note: Note::Quiet }
                }
            },
            Event::Listed(Ok(files)) => {
                if cycle.phase == Phase::ListingIn {
                    cycle.inputs = keep_with_extension(files);
                    cycle.cursor = 0;
                    if self.mode() == Mode::Buffer {
                        cycle.phase = Phase::ListingOut;
                        cycle.pending = Action::ListOutput;
                        Step { action: Action::ListOutput, note: Note::Quiet }
                    } else {
                        self.go_on(cycle, Note::Quiet)
                    }
                } else if cycle.phase == Phase::ListingOut {
                    let found = keep_with_extension(files);
                    if self.mode() == Mode::Buffer {
                        let kept = self.keep_paired(&cycle.inputs, &found);
                        cycle.inputs = kept;
                        cycle.outputs = found;
                        cycle.cursor = 0;
                        self.go_on(cycle, Note::Quiet)
                    } else {
                        cycle.outputs = found;
                        let hit = self.any_pair(cycle.inputs[cycle.cursor].as_str(), &cycle.outputs);
                        proof {
                            assert(views(cycle.inputs@)[cycle.cursor as int]
                                == cycle.inputs@[cycle.cursor as int]@);
                        }
                        if hit {
                            self.go_next(cycle, Note::AlreadyCompressed(cycle.cursor))
                        } else {
                            let a = Action::Probe(cycle.cursor);
                            cycle.phase = Phase::Probing;
                            cycle.pending = a;
                            Step { action: a, note: Note::Quiet }
                        }
                    }
                } else {
                    Step { action: cycle.pending, note: Note::Quiet }
                }
            },
            Event::Probed { present, now } => {
                if cycle.phase == Phase::Probing {
                    let input = cycle.inputs[cycle.cursor].clone();
                    proof {
                        assert(views(cycle.inputs@)[cycle.cursor as int] == input@);
                    }
                    cycle.target = match self.file_manager().output_name_at(input.as_str(), now) {
                        Some(t) => t,
                        None => String::new(),
                    };
                    match self.compressor().compress_file(input.as_str(), cycle.target.as_str(), present) {
                        Ok(inv) => {
                            cycle.invocation = Some(inv);
                            cycle.phase = Phase::Running;
                            cycle.pending = Action::Run;
                            Step { action: Action::Run, note: Note::Quiet }
                        },
                        Err(e) => self.on_failure(cycle, NodeError::CompressFileError(e.message())),
                    }
                } else {
                    Step { action: cycle.pending, note: Note::Quiet }
                }
            },
            Event::Ran(outcome) => {
                if cycle.phase == Phase::Running {
                    match crate::compressor::VideoCompressor::ffmpeg_result(outcome, cycle.target.as_str()) {
                        Ok(_) => self.on_success(cycle),
                        Err(e) => self.on_failure(cycle, NodeError::CompressFileError(e.message())),
                    }
                } else {
                    Step { action: cycle.pending, note: Note::Quiet }
                }
            },
            Event::Removed(r) => {
                if cycle.phase == Phase::Removing {
                    let note = match r {
                        Ok(()) => Note::Removed(cycle.cursor),
                        Err(e) => {
                            cycle.fault = Some(e);
                            Note::RemoveFailed(cycle.cursor)
                        },
                    };
                    self.go_next(cycle, note)
                } else {
                    Step { action: cycle.pending, note: Note::Quiet }
                }
            },
        };
        proof {
            assert(views(cycle.inputs@).len() == cycle.inputs.len());
        }
        r
    }
}

/// The outcome of running the tool is a failure.
pub open spec fn run_failed(e: Event) -> bool {
    e matches Event::Ran(o) && !(o matches ToolOutcome::Exited { success: true, .. })
}

/// The probe shows that the input in hand cannot be compressed: it is gone,
/// or its type is not one the gateway takes.
pub open spec fn probe_failed(c: CycleView, e: Event) -> bool {
    e matches Event::Probed { present, .. } && !(present && supported(c.inputs[c.cursor as int]))
}

/// A worker is not stopped by a file that fails: the failure is noted and
/// the next input is probed, or, after the last input, the node pauses until
/// the next tick.
pub proof fn lemma_worker_failure_moves_on(node: &Node, c: CycleView, e: Event)
    requires
        node.spec_mode() == Mode::Worker,
        node.fits(c),
        (c.phase == Phase::Running && run_failed(e)) || (c.phase == Phase::Probing && probe_failed(c, e)),
    ensures
        ({
            let (c2, s) = node.next(c, e);
            &&& s.note == Note::CompressFailed(c.cursor)
            &&& c2.inputs == c.inputs
            &&& c2.cursor == c.cursor + 1
            &&& c.cursor + 1 < c.inputs.len() ==> s.action == Action::Probe((c.cursor + 1) as usize)
            &&& c.cursor + 1 == c.inputs.len() ==> s.action == Action::Sleep(node.spec_polling_interval())
        }),
{
}

/// Within a worker's tick no input is passed over, whatever is reported: the
/// cursor stays or moves on by one, an input it moves on to is probed next,
/// and the tick ends only once every input has had its turn.
pub proof fn lemma_worker_visits_every_input(node: &Node, c: CycleView, e: Event)
    requires
        node.spec_mode() == Mode::Worker,
        node.fits(c),
        c.phase == Phase::Probing || c.phase == Phase::Running || c.phase == Phase::Removing,
    ensures
        ({
            let (c2, s) = node.next(c, e);
            &&& c2.inputs == c.inputs
            &&& c2.cursor == c.cursor || c2.cursor == c.cursor + 1
            &&& c2.cursor == c.cursor + 1 && c2.cursor < c.inputs.len() ==> s.action == Action::Probe(c2.cursor)
            &&& s.action is Sleep ==> c2.cursor == c.inputs.len()
            &&& !(s.action is Stop)
        }),
{
}

/// A worker that compresses a file deletes it where it may delete, and else
/// goes on with the next input.
pub proof fn lemma_worker_success(node: &Node, c: CycleView, e: Event)
    requires
        node.spec_mode() == Mode::Worker,
        node.fits(c),
        c.phase == Phase::Running,
        e matches Event::Ran(ToolOutcome::Exited { success: true, .. }),
    ensures
        ({
            let (c2, s) = node.next(c, e);
            &&& s.note == Note::Compressed(c.cursor)
            &&& node.spec_clear_in_dir() ==> s.action == Action::Remove(c.cursor)
            &&& !node.spec_clear_in_dir() ==> c2.cursor == c.cursor + 1
        }),
{
}

/// Whatever became of deleting a file, the cycle goes on with the next input.
pub proof fn lemma_removal_moves_on(node: &Node, c: CycleView, r: Result<(), NodeError>)
    requires
        node.fits(c),
        c.phase == Phase::Removing,
    ensures
        ({
            let (c2, s) = node.next(c, Event::Removed(r));
            &&& c2.inputs == c.inputs
            &&& c2.cursor == c.cursor + 1
            &&& s.note == if r is Ok { Note::Removed(c.cursor) } else { Note::RemoveFailed(c.cursor) }
        }),
{
}

/// A single node stops at its first failure: no input after it is tried, and
/// the run is over.
pub proof fn lemma_single_failure_stops(node: &Node, c: CycleView, e: Event)
    requires
        node.spec_mode() == Mode::Single,
        node.fits(c),
        (c.phase == Phase::Running && run_failed(e)) || (c.phase == Phase::Probing && probe_failed(c, e)),
    ensures
        node.next(c, e).1 == (Step { action: Action::Stop, note: Note::CompressFailed(c.cursor) }),
        node.next(c, e).0.phase == Phase::Done,
{
}

/// Within a single node's tick no input is passed over unseen: the cursor
/// stays or moves on by one, and the run ends early only on a failure, which
/// is noted.
pub proof fn lemma_single_stops_only_on_failure(node: &Node, c: CycleView, e: Event)
    requires
        node.spec_mode() == Mode::Single,
        node.fits(c),
        c.phase == Phase::ListingOut || c.phase == Phase::Probing || c.phase == Phase::Running
            || c.phase == Phase::Removing,
    ensures
        ({
            let (c2, s) = node.next(c, e);
            &&& c2.inputs == c.inputs
            &&& c2.cursor == c.cursor || c2.cursor == c.cursor + 1
            &&& s.action is Stop ==> (c2.cursor == c.inputs.len() || s.note is CompressFailed || s.note
                == Note::ListFailed)
        }),
{
}

/// Once the run is over, nothing more is asked for, whatever is reported.
pub proof fn lemma_done_is_final(node: &Node, c: CycleView, e: Event)
    requires
        node.fits(c),
        c.phase == Phase::Done,
    ensures
        node.next(c, e) == (c, Step { action: Action::Stop, note: Note::Quiet }),
{
}

/// A single node passes over an input that already has an output, and lists
/// the output directory afresh for the next input.
pub proof fn lemma_single_skips_compressed(node: &Node, c: CycleView, files: Vec<String>)
    requires
        node.spec_mode() == Mode::Single,
        node.fits(c),
        c.phase == Phase::ListingOut,
        pairs_any(c.inputs[c.cursor as int], with_extension(views(files@))),
    ensures
        ({
            let (c2, s) = node.next(c, Event::Listed(Ok(files)));
            &&& s.note == Note::AlreadyCompressed(c.cursor)
            &&& c2.cursor == c.cursor + 1
            &&& c.cursor + 1 < c.inputs.len() ==> s.action == Action::ListOutput
            &&& c.cursor + 1 == c.inputs.len() ==> s.action == Action::Stop
        }),
{
}

/// A buffer node that may not delete only warns and pauses: from a pause,
/// whatever is reported, it asks for nothing but the next pause, so it never
/// lists, compresses or deletes anything.
pub proof fn lemma_idle_buffer_touches_nothing(node: &Node, c: CycleView, e: Event)
    requires
        node.spec_mode() == Mode::Buffer,
        !node.spec_clear_in_dir(),
        node.fits(c),
        c.phase == Phase::Resting,
    ensures
        node.next(c, e).1.action == Action::Sleep(node.spec_polling_interval()),
        node.next(c, e).0.phase == Phase::Resting,
        e is Begin ==> node.next(c, e).1.note == Note::BufferSkipped,
{
}

/// The states and steps of a node that starts from `c` and is answered with
/// the events `es`, one after another.
pub open spec fn run(node: &Node, c: CycleView, es: Seq<Event>) -> (CycleView, Seq<Step>)
    decreases es.len(),
{
    if es.len() == 0 {
        (c, Seq::empty())
    } else {
        let (c1, s) = node.next(c, es[0]);
        let (c2, rest) = run(node, c1, es.drop_first());
        (c2, seq![s] + rest)
    }
}

/// Input `j` was asked to be probed by one of the first `k` steps.
pub open spec fn probed_before(steps: Seq<Step>, k: int, j: int) -> bool {
    exists|m: int| 0 <= m < k && (#[trigger] steps[m]).action == Action::Probe(j as usize)
}

/// Over a whole worker tick, whatever is reported: before the tick pauses,
/// every input after the one in hand has been probed, in its turn.
pub proof fn lemma_worker_tick_tries_every_input(node: &Node, c: CycleView, es: Seq<Event>)
    requires
        node.spec_mode() == Mode::Worker,
        node.fits(c),
        c.phase == Phase::Probing || c.phase == Phase::Running || c.phase == Phase::Removing,
    ensures
        ({
            let steps = run(node, c, es).1;
            forall|k: int, j: int|
                0 <= k < steps.len() && (#[trigger] steps[k]).action is Sleep && c.cursor < j
                    < c.inputs.len() ==> #[trigger] probed_before(steps, k, j)
        }),
    decreases es.len(),
{
    if es.len() > 0 {
        let (c1, s) = node.next(c, es[0]);
        lemma_worker_visits_every_input(node, c, es[0]);
        let steps = run(node, c, es).1;
        let rest = run(node, c1, es.drop_first()).1;
        assert(steps == seq![s] + rest);
        if c1.phase == Phase::Probing || c1.phase == Phase::Running || c1.phase == Phase::Removing {
            assert(node.fits(c1));
            lemma_worker_tick_tries_every_input(node, c1, es.drop_first());
            assert forall|k: int, j: int|
                0 <= k < steps.len() && (#[trigger] steps[k]).action is Sleep && c.cursor < j
                    < c.inputs.len() implies #[trigger] probed_before(steps, k, j) by {
                assert(k >= 1);
                assert(steps[k] == rest[k - 1]);
                if j == c1.cursor && c1.cursor == c.cursor + 1 {
                    assert(steps[0] == s);
                } else {
                    assert(probed_before(rest, k - 1, j));
                    let m = choose|m: int|
                        0 <= m < k - 1 && (#[trigger] rest[m]).action == Action::Probe(j as usize);
                    assert(steps[m + 1] == rest[m]);
                }
            }
        } else {
            assert(s.action is Sleep);
            assert(steps[0] == s);
        }
    }
}

/// Over a whole run of a single node: once a compression fails, every later
/// step is a stop, so no input after the failing one is ever tried.
pub proof fn lemma_single_run_ends_at_failure(node: &Node, c: CycleView, es: Seq<Event>)
    requires
        node.spec_mode() == Mode::Single,
        node.fits(c),
        (c.phase == Phase::Running && es.len() > 0 && run_failed(es[0])) || (c.phase
            == Phase::Probing && es.len() > 0 && probe_failed(c, es[0])),
    ensures
        run(node, c, es).1[0] == (Step { action: Action::Stop, note: Note::CompressFailed(c.cursor) }),
        forall|k: int| 0 < k < run(node, c, es).1.len() ==> (#[trigger] run(node, c, es).1[k]) == (Step {
            action: Action::Stop,
            note: Note::Quiet,
        }),
{
    let (c1, s) = node.next(c, es[0]);
    lemma_single_failure_stops(node, c, es[0]);
    lemma_done_stays(node, c1, es.drop_first());
    assert(run(node, c, es).1 == seq![s] + run(node, c1, es.drop_first()).1);
}

/// From the end of a run, every step is a quiet stop.
pub proof fn lemma_done_stays(node: &Node, c: CycleView, es: Seq<Event>)
    requires
        node.fits(c),
        c.phase == Phase::Done,
    ensures
        run(node, c, es).0 == c,
        run(node, c, es).1.len() == es.len(),
        forall|k: int| 0 <= k < run(node, c, es).1.len() ==> (#[trigger] run(node, c, es).1[k]) == (Step {
            action: Action::Stop,
            note: Note::Quiet,
        }),
    decreases es.len(),
{
    if es.len() > 0 {
        lemma_done_is_final(node, c, es[0]);
        lemma_done_stays(node, c, es.drop_first());
        let rest = run(node, c, es.drop_first()).1;
        assert(run(node, c, es).1 == seq![Step { action: Action::Stop, note: Note::Quiet }] + rest);
        assert forall|k: int| 0 <= k < run(node, c, es).1.len() implies (#[trigger] run(node, c, es).1[k]) == (Step {
            action: Action::Stop,
            note: Note::Quiet,
        }) by {
            if k > 0 {
                assert(run(node, c, es).1[k] == rest[k - 1]);
            }
        }
    }
}

} // verus!
