//! Commands that run in a container or on this machine.

use crate::decode::decode_lossy;
use crate::decode;
use crate::text::{cat2, cat3, clone_all, join_texts};
use crate::text;
use vstd::prelude::*;

verus! {

/// What a command left behind.
pub struct Output {
    pub code: i64,
    pub stdout: String,
    pub stderr: String,
}

/// The contents of an `Output`.
#[verifier::ext_equal]
pub struct OutputView {
    pub code: i64,
    pub stdout: Seq<char>,
    pub stderr: Seq<char>,
}

impl View for Output {
    type V = OutputView;

    open spec fn view(&self) -> OutputView {
        OutputView { code: self.code, stdout: self.stdout@, stderr: self.stderr@ }
    }
}

impl Output {
    /// Whether the command succeeded.
    pub fn success(&self) -> (yes: bool)
        ensures
            yes == (self.code == 0),
    {
        self.code == 0
    }
}

/// Why a command could not be run.
pub enum ExecError {
    Bollard(String),
    Io(String),
    NoExitCode(String),
    Detached,
    EmptyCommand,
    NoStdin,
}

/// The contents of an `ExecError`.
#[verifier::ext_equal]
pub enum ExecErrorView {
    Bollard(Seq<char>),
    Io(Seq<char>),
    NoExitCode(Seq<char>),
    Detached,
    EmptyCommand,
    NoStdin,
}

impl View for ExecError {
    type V = ExecErrorView;

    open spec fn view(&self) -> ExecErrorView {
        match self {
            ExecError::Bollard(text) => ExecErrorView::Bollard(text@),
            ExecError::Io(text) => ExecErrorView::Io(text@),
            ExecError::NoExitCode(text) => ExecErrorView::NoExitCode(text@),
            ExecError::Detached => ExecErrorView::Detached,
            ExecError::EmptyCommand => ExecErrorView::EmptyCommand,
            ExecError::NoStdin => ExecErrorView::NoStdin,
        }
    }
}

impl ExecErrorView {
    /// The text that describes the error.
    pub open spec fn description(self) -> Seq<char> {
        match self {
            ExecErrorView::Bollard(text) => "EXEC: docker api error: "@ + text,
            ExecErrorView::Io(text) => "EXEC: io error: "@ + text,
            ExecErrorView::NoExitCode(text) => {
                "EXEC: command '"@ + text + "' finished without reporting an exit code"@
            },
            ExecErrorView::Detached => {
                "EXEC: docker started the exec detached, so no output is available"@
            },
            ExecErrorView::EmptyCommand => "EXEC: refusing to run an empty command"@,
            ExecErrorView::NoStdin => "EXEC: could not open stdin on the child process"@,
        }
    }
}

impl ExecError {
    /// Describes the error.
    pub fn message(&self) -> (text: String)
        ensures
            text@ == self@.description(),
    {
        match self {
            ExecError::Bollard(text) => cat2("EXEC: docker api error: ", text),
            ExecError::Io(text) => cat2("EXEC: io error: ", text),
            ExecError::NoExitCode(text) => cat3(
                "EXEC: command '",
                text,
                "' finished without reporting an exit code",
            ),
            ExecError::Detached => "EXEC: docker started the exec detached, so no output is available".to_owned(),
            ExecError::EmptyCommand => "EXEC: refusing to run an empty command".to_owned(),
            ExecError::NoStdin => "EXEC: could not open stdin on the child process".to_owned(),
        }
    }
}

/// What running a command gives.
pub type ExecOutcome = Result<Output, ExecError>;

/// The contents of an `ExecOutcome`.
pub type ExecOutcomeView = Result<OutputView, ExecErrorView>;

/// The contents of an `ExecOutcome`.
pub open spec fn outcome(result: ExecOutcome) -> ExecOutcomeView {
    match result {
        Ok(output) => Ok(output@),
        Err(error) => Err(error@),
    }
}

/// The result of a command that was run to its end, given its exit code where
/// it has one.
pub open spec fn finished(
    argv: Seq<Seq<char>>,
    code: Option<i64>,
    stdout: Seq<char>,
    stderr: Seq<char>,
) -> ExecOutcomeView {
    match code {
        Some(code) => Ok(OutputView { code, stdout, stderr }),
        None => Err(ExecErrorView::NoExitCode(text::join(argv, " "@))),
    }
}

fn finish(argv: &Vec<String>, code: Option<i64>, stdout: String, stderr: String) -> (result:
    ExecOutcome)
    ensures
        outcome(result) == finished(text::texts(argv@), code, stdout@, stderr@),
{
    match code {
        Some(code) => Ok(Output { code, stdout, stderr }),
        None => Err(ExecError::NoExitCode(join_texts(argv, " "))),
    }
}

// ---------------------------------------------------------------------------
// Commands in a container
// ---------------------------------------------------------------------------

/// How the execution of a command in a container is asked for.
pub struct ExecOptions {
    pub cmd: Vec<String>,
    pub attach_stdout: bool,
    pub attach_stderr: bool,
    pub attach_stdin: bool,
    pub tty: bool,
}

/// A piece of what a command writes.
pub enum Chunk {
    StdOut(Vec<u8>),
    StdErr(Vec<u8>),
    Other,
}

/// How far the execution of a command in a container has come.
#[derive(Clone, Copy, PartialEq, Eq, Debug, Structural)]
pub enum ExecPhase {
    Create,
    Start,
    WriteStdin,
    Read,
    Inspect,
    Done,
}

/// What happened. A failure carries its text.
pub enum ExecEvent {
    Created(Result<(), String>),
    /// Whether the execution was started attached.
    Started(Result<bool, String>),
    Written(Result<(), String>),
    Read(Result<Chunk, String>),
    /// There is nothing left to read.
    ReadAll,
    Inspected(Result<Option<i64>, String>),
}

/// What is to be done next.
pub enum ExecAction {
    Create(ExecOptions),
    Start,
    /// Write the input, then close it.
    WriteStdin,
    Read,
    Inspect,
    Finish(ExecOutcome),
}

/// The contents of an `ExecAction`.
#[verifier::ext_equal]
pub enum ExecActionView {
    Create { cmd: Seq<Seq<char>>, attach_stdin: bool },
    Start,
    WriteStdin,
    Read,
    Inspect,
    Finish(ExecOutcomeView),
}

impl View for ExecAction {
    type V = ExecActionView;

    open spec fn view(&self) -> ExecActionView {
        match self {
            ExecAction::Create(options) => ExecActionView::Create {
                cmd: text::texts(options.cmd@),
                attach_stdin: options.attach_stdin,
            },
            ExecAction::Start => ExecActionView::Start,
            ExecAction::WriteStdin => ExecActionView::WriteStdin,
            ExecAction::Read => ExecActionView::Read,
            ExecAction::Inspect => ExecActionView::Inspect,
            ExecAction::Finish(result) => ExecActionView::Finish(outcome(*result)),
        }
    }
}

/// The state of an execution.
#[verifier::ext_equal]
pub struct ExecView {
    pub argv: Seq<Seq<char>>,
    pub has_stdin: bool,
    pub phase: ExecPhase,
    pub stdout: Seq<char>,
    pub stderr: Seq<char>,
}

/// The execution of a command in a container.
pub struct DockerExecRun {
    pub argv: Vec<String>,
    pub has_stdin: bool,
    pub phase: ExecPhase,
    pub stdout: String,
    pub stderr: String,
}

impl View for DockerExecRun {
    type V = ExecView;

    open spec fn view(&self) -> ExecView {
        ExecView {
            argv: text::texts(self.argv@),
            has_stdin: self.has_stdin,
            phase: self.phase,
            stdout: self.stdout@,
            stderr: self.stderr@,
        }
    }
}

/// Whether an event can follow what was to be done in a phase.
pub open spec fn fits(phase: ExecPhase, event: ExecEvent) -> bool {
    match phase {
        ExecPhase::Create => event is Created,
        ExecPhase::Start => event is Started,
        ExecPhase::WriteStdin => event is Written,
        ExecPhase::Read => event is Read || event is ReadAll,
        ExecPhase::Inspect => event is Inspected,
        ExecPhase::Done => false,
    }
}

/// Where an execution begins. An empty command is refused.
pub open spec fn exec_start(argv: Seq<Seq<char>>, has_stdin: bool) -> (ExecView, ExecActionView) {
    let state = ExecView {
        argv,
        has_stdin,
        phase: ExecPhase::Create,
        stdout: Seq::empty(),
        stderr: Seq::empty(),
    };
    if argv.len() == 0 {
        exec_end(state, Err(ExecErrorView::EmptyCommand))
    } else {
        (state, ExecActionView::Create { cmd: argv, attach_stdin: has_stdin })
    }
}

/// The end of an execution.
pub open spec fn exec_end(state: ExecView, result: ExecOutcomeView) -> (ExecView, ExecActionView) {
    (
        ExecView { phase: ExecPhase::Done, ..state },
        ExecActionView::Finish(result),
    )
}

/// How an execution goes on. The two streams are gathered piece by piece, each
/// piece read as UTF-8 for itself.
pub open spec fn exec_next(state: ExecView, event: ExecEvent) -> (ExecView, ExecActionView)
    recommends
        fits(state.phase, event),
{
    match event {
        ExecEvent::Created(Err(error)) => exec_end(state, Err(ExecErrorView::Bollard(error@))),
        ExecEvent::Created(Ok(_)) => (
            ExecView { phase: ExecPhase::Start, ..state },
            ExecActionView::Start,
        ),
        ExecEvent::Started(Err(error)) => exec_end(state, Err(ExecErrorView::Bollard(error@))),
        ExecEvent::Started(Ok(false)) => exec_end(state, Err(ExecErrorView::Detached)),
        ExecEvent::Started(Ok(true)) => if state.has_stdin {
            (ExecView { phase: ExecPhase::WriteStdin, ..state }, ExecActionView::WriteStdin)
        } else {
            (ExecView { phase: ExecPhase::Read, ..state }, ExecActionView::Read)
        },
        ExecEvent::Written(Err(error)) => exec_end(state, Err(ExecErrorView::Io(error@))),
        ExecEvent::Written(Ok(_)) => (
            ExecView { phase: ExecPhase::Read, ..state },
            ExecActionView::Read,
        ),
        ExecEvent::Read(Err(error)) => exec_end(state, Err(ExecErrorView::Bollard(error@))),
        ExecEvent::Read(Ok(Chunk::StdOut(bytes))) => (
            ExecView { stdout: state.stdout + decode::lossy_text(bytes@), ..state },
            ExecActionView::Read,
        ),
        ExecEvent::Read(Ok(Chunk::StdErr(bytes))) => (
            ExecView { stderr: state.stderr + decode::lossy_text(bytes@), ..state },
            ExecActionView::Read,
        ),
        ExecEvent::Read(Ok(Chunk::Other)) => (state, ExecActionView::Read),
        ExecEvent::ReadAll => (
            ExecView { phase: ExecPhase::Inspect, ..state },
            ExecActionView::Inspect,
        ),
        ExecEvent::Inspected(Err(error)) => exec_end(state, Err(ExecErrorView::Bollard(error@))),
        ExecEvent::Inspected(Ok(code)) => exec_end(
            state,
            finished(state.argv, code, state.stdout, state.stderr),
        ),
    }
}

impl DockerExecRun {
    /// Begins the execution of a command.
    pub fn begin(argv: &Vec<String>, has_stdin: bool) -> (begun: (DockerExecRun, ExecAction))
        ensures
            (begun.0@, begun.1@) == exec_start(text::texts(argv@), has_stdin),
            begun.1 matches ExecAction::Create(options) ==> options.attach_stdout
                && options.attach_stderr && !options.tty,
    {
        let mut run = DockerExecRun {
            argv: clone_all(argv),
            has_stdin,
            phase: ExecPhase::Create,
            stdout: String::new(),
            stderr: String::new(),
        };
        if argv.len() == 0 {
            run.phase = ExecPhase::Done;
            (run, ExecAction::Finish(Err(ExecError::EmptyCommand)))
        } else {
            let options = ExecOptions {
                cmd: clone_all(argv),
                attach_stdout: true,
                attach_stderr: true,
                attach_stdin: has_stdin,
                tty: false,
            };
            (run, ExecAction::Create(options))
        }
    }

    fn fail(&mut self, error: ExecError) -> (action: ExecAction)
        ensures
            (final(self)@, action@) == exec_end(old(self)@, Err(error@)),
    {
        self.phase = ExecPhase::Done;
        ExecAction::Finish(Err(error))
    }

    /// Takes what happened and says what is to be done next.
    pub fn step(&mut self, event: ExecEvent) -> (action: ExecAction)
        requires
            fits(old(self).phase, event),
        ensures
            (final(self)@, action@) == exec_next(old(self)@, event),
    {
        match event {
            ExecEvent::Created(Err(error)) => self.fail(ExecError::Bollard(error)),
            ExecEvent::Created(Ok(_)) => {
                self.phase = ExecPhase::Start;
                ExecAction::Start
            },
            ExecEvent::Started(Err(error)) => self.fail(ExecError::Bollard(error)),
            ExecEvent::Started(Ok(attached)) => {
                if !attached {
                    self.fail(ExecError::Detached)
                } else if self.has_stdin {
                    self.phase = ExecPhase::WriteStdin;
                    ExecAction::WriteStdin
                } else {
                    self.phase = ExecPhase::Read;
                    ExecAction::Read
                }
            },
            ExecEvent::Written(Err(error)) => self.fail(ExecError::Io(error)),
            ExecEvent::Written(Ok(_)) => {
                self.phase = ExecPhase::Read;
                ExecAction::Read
            },
            ExecEvent::Read(Err(error)) => self.fail(ExecError::Bollard(error)),
            ExecEvent::Read(Ok(chunk)) => {
                match chunk {
                    Chunk::StdOut(bytes) => {
                        self.stdout.append(&decode_lossy(bytes.as_slice()));
                    },
                    Chunk::StdErr(bytes) => {
                        self.stderr.append(&decode_lossy(bytes.as_slice()));
                    },
                    Chunk::Other => {},
                }
                ExecAction::Read
            },
            ExecEvent::ReadAll => {
                self.phase = ExecPhase::Inspect;
                ExecAction::Inspect
            },
            ExecEvent::Inspected(Err(error)) => self.fail(ExecError::Bollard(error)),
            ExecEvent::Inspected(Ok(code)) => {
                self.phase = ExecPhase::Done;
                ExecAction::Finish(
                    finish(&self.argv, code, self.stdout.clone(), self.stderr.clone()),
                )
            },
        }
    }
}

// ---------------------------------------------------------------------------
// Commands on this machine
// ---------------------------------------------------------------------------

/// Commands that are run on this machine.
pub struct LocalCommand;

impl LocalCommand {
    /// The program and the arguments of a command. An empty command is refused.
    pub fn split_command(argv: &Vec<String>) -> (result: Result<
        (String, Vec<String>),
        ExecError,
    >)
        ensures
            match result {
                Ok((program, args)) => argv@.len() > 0 && seq![program@] + text::texts(args@) == text::texts(
                    argv@,
                ),
                Err(error) => argv@.len() == 0 && error@ == ExecErrorView::EmptyCommand,
            },
    {
        if argv.len() == 0 {
            return Err(ExecError::EmptyCommand);
        }
        let mut args: Vec<String> = Vec::new();
        let mut i: usize = 1;
        while i < argv.len()
            invariant
                1 <= i <= argv@.len(),
                args@ == argv@.subrange(1, i as int),
            decreases argv@.len() - i,
        {
            args.push(argv[i].clone());
            i += 1;
            assert(argv@.subrange(1, i as int) =~= argv@.subrange(1, i - 1).push(argv@[i - 1]));
        }
        let program = argv[0].clone();
        assert(seq![program@] + text::texts(args@) =~= text::texts(argv@));
        Ok((program, args))
    }

    /// The result of a command that was run to its end.
    pub fn collect(argv: &Vec<String>, code: Option<i32>, stdout: &Vec<u8>, stderr: &Vec<u8>) -> (
        result: ExecOutcome)
        ensures
            outcome(result) == finished(
                text::texts(argv@),
                match code {
                    Some(code) => Some(code as i64),
                    None => None,
                },
                decode::lossy_text(stdout@),
                decode::lossy_text(stderr@),
            ),
    {
        let code: Option<i64> = match code {
            Some(code) => Some(code as i64),
            None => None,
        };
        finish(argv, code, decode_lossy(stdout.as_slice()), decode_lossy(stderr.as_slice()))
    }
}

/// A command is created with its own words, and with an input where there is one;
/// an empty command is refused before anything is asked.
pub proof fn command_is_created_as_given(argv: Seq<Seq<char>>, has_stdin: bool)
    ensures
        ({
            let (state, action) = exec_start(argv, has_stdin);
            &&& state.argv == argv && state.has_stdin == has_stdin
            &&& state.stdout.len() == 0 && state.stderr.len() == 0
            &&& argv.len() > 0 ==> state.phase == ExecPhase::Create && action
                == (ExecActionView::Create { cmd: argv, attach_stdin: has_stdin })
            &&& argv.len() == 0 ==> state.phase == ExecPhase::Done && action
                == ExecActionView::Finish(Err(ExecErrorView::EmptyCommand))
        }),
{
}

/// A created command is started. It gets its input, where there is one, before
/// its output is read; and once that is read, it is asked how it ended.
pub proof fn command_gets_its_input_before_it_is_read(state: ExecView)
    ensures
        exec_next(state, ExecEvent::Created(Ok(()))) == (
            ExecView { phase: ExecPhase::Start, ..state },
            ExecActionView::Start,
        ),
        state.has_stdin ==> exec_next(state, ExecEvent::Started(Ok(true))) == (
            ExecView { phase: ExecPhase::WriteStdin, ..state },
            ExecActionView::WriteStdin,
        ),
        !state.has_stdin ==> exec_next(state, ExecEvent::Started(Ok(true))) == (
            ExecView { phase: ExecPhase::Read, ..state },
            ExecActionView::Read,
        ),
        exec_next(state, ExecEvent::Started(Ok(false))).1 == ExecActionView::Finish(
            Err(ExecErrorView::Detached),
        ),
        exec_next(state, ExecEvent::Written(Ok(()))) == (
            ExecView { phase: ExecPhase::Read, ..state },
            ExecActionView::Read,
        ),
        exec_next(state, ExecEvent::ReadAll) == (
            ExecView { phase: ExecPhase::Inspect, ..state },
            ExecActionView::Inspect,
        ),
{
}

/// What is read is put behind what was read before, each stream by itself, and
/// the reading goes on; what belongs to neither stream changes nothing.
pub proof fn streams_are_kept_apart(state: ExecView, bytes: Vec<u8>)
    ensures
        exec_next(state, ExecEvent::Read(Ok(Chunk::StdOut(bytes)))) == (
            ExecView { stdout: state.stdout + decode::lossy_text(bytes@), ..state },
            ExecActionView::Read,
        ),
        exec_next(state, ExecEvent::Read(Ok(Chunk::StdErr(bytes)))) == (
            ExecView { stderr: state.stderr + decode::lossy_text(bytes@), ..state },
            ExecActionView::Read,
        ),
        exec_next(state, ExecEvent::Read(Ok(Chunk::Other))) == (state, ExecActionView::Read),
{
}

/// A command ends with its exit code and all that was read; without an exit code
/// the error names the command.
pub proof fn command_ends_with_its_code(state: ExecView, code: i64)
    ensures
        exec_next(state, ExecEvent::Inspected(Ok(Some(code)))).1 == ExecActionView::Finish(
            Ok((OutputView { code, stdout: state.stdout, stderr: state.stderr })),
        ),
        exec_next(state, ExecEvent::Inspected(Ok(None))).1 == ExecActionView::Finish(
            Err(ExecErrorView::NoExitCode(text::join(state.argv, " "@))),
        ),
        exec_next(state, ExecEvent::Inspected(Ok(Some(code)))).0.phase == ExecPhase::Done,
        exec_next(state, ExecEvent::Inspected(Ok(None))).0.phase == ExecPhase::Done,
{
}

/// Whatever fails ends the execution with what it said: an input that could not be
/// written as an input and output error, all else as the daemon's.
pub proof fn failures_end_the_execution(state: ExecView, error: String)
    ensures
        exec_next(state, ExecEvent::Created(Err(error))).1 == ExecActionView::Finish(
            Err(ExecErrorView::Bollard(error@)),
        ),
        exec_next(state, ExecEvent::Started(Err(error))).1 == ExecActionView::Finish(
            Err(ExecErrorView::Bollard(error@)),
        ),
        exec_next(state, ExecEvent::Written(Err(error))).1 == ExecActionView::Finish(
            Err(ExecErrorView::Io(error@)),
        ),
        exec_next(state, ExecEvent::Read(Err(error))).1 == ExecActionView::Finish(
            Err(ExecErrorView::Bollard(error@)),
        ),
        exec_next(state, ExecEvent::Inspected(Err(error))).1 == ExecActionView::Finish(
            Err(ExecErrorView::Bollard(error@)),
        ),
        exec_next(state, ExecEvent::Created(Err(error))).0.phase == ExecPhase::Done,
{
}

/// Every error says that a command was being run, and what came between.
pub proof fn exec_errors_say_what_happened(text: Seq<char>)
    ensures
        ExecErrorView::Bollard(text).description() == "EXEC: docker api error: "@ + text,
        ExecErrorView::Io(text).description() == "EXEC: io error: "@ + text,
        ExecErrorView::NoExitCode(text).description() == "EXEC: command '"@ + text
            + "' finished without reporting an exit code"@,
        ExecErrorView::Detached.description()
            == "EXEC: docker started the exec detached, so no output is available"@,
        ExecErrorView::EmptyCommand.description() == "EXEC: refusing to run an empty command"@,
        ExecErrorView::NoStdin.description()
            == "EXEC: could not open stdin on the child process"@,
{
}

/// What a command gave is told as it came: its code and its two streams, or the
/// error.
pub proof fn outcomes_are_told_as_they_came(output: Output, error: ExecError)
    ensures
        outcome(Ok(output)) == Ok::<OutputView, ExecErrorView>(
            OutputView { code: output.code, stdout: output.stdout@, stderr: output.stderr@ },
        ),
        outcome(Err(error)) == Err::<OutputView, ExecErrorView>(error@),
{
}

} // verus!
