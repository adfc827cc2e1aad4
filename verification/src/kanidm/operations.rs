//! Operations on kanidm that look before they act, and runs of them.

use crate::exec::{ExecOutcome, ExecOutcomeView, OutputView};
use crate::exec;
use crate::kanidm::error::{KanidmError, KanidmErrorView};
use crate::kanidm::output::{found_entry, group_members};
use crate::kanidm::output;
use crate::text::{contains_text, join_texts, trim_text};
use crate::text;
use vstd::prelude::*;

verus! {

/// How the output of a probe shows that there is nothing to do.
pub enum Probe {
    /// There is an entry with this name.
    Exists { name: String },
    /// This name is a member of the group.
    Member { name: String },
}

/// The contents of a `Probe`.
#[verifier::ext_equal]
pub enum ProbeView {
    Exists { name: Seq<char> },
    Member { name: Seq<char> },
}

impl View for Probe {
    type V = ProbeView;

    open spec fn view(&self) -> ProbeView {
        match self {
            Probe::Exists { name } => ProbeView::Exists { name: name@ },
            Probe::Member { name } => ProbeView::Member { name: name@ },
        }
    }
}

/// A command, and the command that tells beforehand whether it is needed.
pub struct Operation {
    pub probe: Option<(Vec<String>, Probe)>,
    pub act: Vec<String>,
}

/// The contents of an `Operation`.
#[verifier::ext_equal]
pub struct OperationView {
    pub probe: Option<(Seq<Seq<char>>, ProbeView)>,
    pub act: Seq<Seq<char>>,
}

impl View for Operation {
    type V = OperationView;

    open spec fn view(&self) -> OperationView {
        OperationView {
            probe: match self.probe {
                Some((args, probe)) => Some((text::texts(args@), probe@)),
                None => None,
            },
            act: text::texts(self.act@),
        }
    }
}

/// The contents of a list of operations.
pub open spec fn operation_views(operations: Seq<Operation>) -> Seq<OperationView> {
    Seq::new(operations.len(), |i: int| operations[i]@)
}

/// The command line of a kanidm command.
pub open spec fn kanidm_argv(account: Seq<char>, args: Seq<Seq<char>>) -> Seq<Seq<char>> {
    seq!["kanidm"@] + args + seq!["--name"@, account]
}

/// The command line of a kanidm command.
pub fn build_argv(account: &str, args: &Vec<String>) -> (argv: Vec<String>)
    ensures
        text::texts(argv@) == kanidm_argv(account@, text::texts(args@)),
{
    let mut argv: Vec<String> = vec!["kanidm".to_owned()];
    let mut i: usize = 0;
    assert(text::texts(argv@) =~= seq!["kanidm"@] + text::texts(args@).take(0));
    while i < args.len()
        invariant
            i <= args@.len(),
            text::texts(argv@) == seq!["kanidm"@] + text::texts(args@).take(i as int),
        decreases args@.len() - i,
    {
        let ghost before = text::texts(argv@);
        argv.push(args[i].clone());
        assert(text::texts(argv@) =~= before.push(args@[i as int]@));
        i += 1;
        assert(text::texts(argv@) =~= seq!["kanidm"@] + text::texts(args@).take(i as int));
    }
    let ghost before = text::texts(argv@);
    assert(text::texts(args@).take(i as int) =~= text::texts(args@));
    argv.push("--name".to_owned());
    argv.push(account.to_owned());
    assert(text::texts(argv@) =~= kanidm_argv(account@, text::texts(args@)));
    argv
}

/// Whether the output of a probe shows that there is nothing to do.
pub open spec fn settled(probe: ProbeView, output: OutputView) -> bool {
    match probe {
        ProbeView::Exists { name } => output::shows_entry(output, name),
        ProbeView::Member { name } => output::members_shown(output).contains(name),
    }
}

/// Why a command that failed stops the run.
pub open spec fn command_failed(args: Seq<Seq<char>>, output: OutputView) -> KanidmErrorView {
    KanidmErrorView::KanidmCli {
        command: text::join(args, " "@),
        code: output.code,
        stderr: text::trim(output.stderr),
    }
}

/// What is to be done next.
pub enum KanidmAction {
    Run(Vec<String>),
    Finish(Result<(), KanidmError>),
}

/// The contents of a `KanidmAction`.
#[verifier::ext_equal]
pub enum KanidmActionView {
    Run(Seq<Seq<char>>),
    Finish(Result<(), KanidmErrorView>),
}

impl View for KanidmAction {
    type V = KanidmActionView;

    open spec fn view(&self) -> KanidmActionView {
        match self {
            KanidmAction::Run(argv) => KanidmActionView::Run(text::texts(argv@)),
            KanidmAction::Finish(Ok(_)) => KanidmActionView::Finish(Ok(())),
            KanidmAction::Finish(Err(error)) => KanidmActionView::Finish(Err(error@)),
        }
    }
}

/// The state of a run.
#[verifier::ext_equal]
pub struct RunView {
    pub account: Seq<char>,
    pub operations: Seq<OperationView>,
    /// The operation under way.
    pub index: int,
    /// Whether its command is under way, and not its probe.
    pub acting: bool,
    /// For each operation that is through, whether its command was needed.
    pub acted: Seq<bool>,
    /// For each operation that is through, what its command printed.
    pub printed: Seq<Seq<char>>,
}

/// A run of operations, one after the other.
pub struct KanidmRun {
    pub account: String,
    pub operations: Vec<Operation>,
    pub index: usize,
    pub acting: bool,
    pub acted: Vec<bool>,
    pub printed: Vec<String>,
}

impl View for KanidmRun {
    type V = RunView;

    open spec fn view(&self) -> RunView {
        RunView {
            account: self.account@,
            operations: operation_views(self.operations@),
            index: self.index as int,
            acting: self.acting,
            acted: self.acted@,
            printed: text::texts(self.printed@),
        }
    }
}

/// Turns to the operation at the index of the run: its probe, where it has one,
/// else its command.
pub open spec fn run_enter(run: RunView) -> (RunView, KanidmActionView) {
    if run.index >= run.operations.len() {
        (RunView { acting: false, ..run }, KanidmActionView::Finish(Ok(())))
    } else {
        match run.operations[run.index].probe {
            Some((args, _)) => (
                RunView { acting: false, ..run },
                KanidmActionView::Run(kanidm_argv(run.account, args)),
            ),
            None => (
                RunView { acting: true, ..run },
                KanidmActionView::Run(
                    kanidm_argv(run.account, run.operations[run.index].act),
                ),
            ),
        }
    }
}

/// The beginning of a run.
pub open spec fn run_start(account: Seq<char>, operations: Seq<OperationView>) -> (
    RunView,
    KanidmActionView,
) {
    run_enter(
        RunView {
            account,
            operations,
            index: 0,
            acting: false,
            acted: Seq::empty(),
            printed: Seq::empty(),
        },
    )
}

/// The run with one operation more that is through.
pub open spec fn run_through(run: RunView, acted: bool, printed: Seq<char>) -> RunView {
    RunView {
        index: run.index + 1,
        acted: run.acted.push(acted),
        printed: run.printed.push(printed),
        ..run
    }
}

/// How a run goes on. A command whose probe shows that it is not needed is
/// passed over; a command that fails stops the run.
pub open spec fn run_next(run: RunView, result: ExecOutcomeView) -> (RunView, KanidmActionView)
    recommends
        0 <= run.index < run.operations.len(),
{
    let operation = run.operations[run.index];
    match result {
        Err(error) => (run, KanidmActionView::Finish(Err(KanidmErrorView::Exec(error)))),
        Ok(output) => if run.acting {
            if output.code != 0 {
                (run, KanidmActionView::Finish(Err(command_failed(operation.act, output))))
            } else {
                run_enter(run_through(run, true, output.stdout))
            }
        } else {
            if settled((operation.probe->0).1, output) {
                run_enter(run_through(run, false, Seq::empty()))
            } else {
                (
                    RunView { acting: true, ..run },
                    KanidmActionView::Run(kanidm_argv(run.account, operation.act)),
                )
            }
        },
    }
}

/// Whether a run waits for the output of a command.
pub open spec fn waits(run: RunView) -> bool {
    &&& 0 <= run.index < run.operations.len()
    &&& !run.acting ==> run.operations[run.index].probe is Some
}

impl KanidmRun {
    /// Turns to the operation at the index of the run.
    fn enter(&mut self) -> (action: KanidmAction)
        ensures
            (final(self)@, action@) == run_enter(old(self)@),
    {
        if self.index >= self.operations.len() {
            self.acting = false;
            return KanidmAction::Finish(Ok(()));
        }
        let operation = &self.operations[self.index];
        assert(operation@ == operation_views(self.operations@)[self.index as int]);
        match &operation.probe {
            Some((args, _)) => {
                let argv = build_argv(&self.account, args);
                self.acting = false;
                KanidmAction::Run(argv)
            },
            None => {
                let argv = build_argv(&self.account, &operation.act);
                self.acting = true;
                KanidmAction::Run(argv)
            },
        }
    }

    /// Begins a run of operations.
    pub fn begin(account: &str, operations: Vec<Operation>) -> (begun: (KanidmRun, KanidmAction))
        ensures
            (begun.0@, begun.1@) == run_start(account@, operation_views(operations@)),
    {
        let mut run = KanidmRun {
            account: account.to_owned(),
            operations,
            index: 0,
            acting: false,
            acted: Vec::new(),
            printed: Vec::new(),
        };
        assert(text::texts(run.printed@) =~= Seq::empty());
        let action = run.enter();
        (run, action)
    }

    /// Notes that the operation under way is through.
    fn note(&mut self, acted: bool, printed: String)
        requires
            old(self).index < old(self).operations@.len(),
        ensures
            final(self)@ == run_through(old(self)@, acted, printed@),
    {
        let ghost before = text::texts(self.printed@);
        let ghost said = printed@;
        let total: usize = self.operations.len();
        self.index = self.index + 1;
        self.acted.push(acted);
        self.printed.push(printed);
        assert(text::texts(self.printed@) =~= before.push(said));
    }

    /// Takes the output of the command that was run and says what is to be done
    /// next.
    pub fn step(&mut self, result: ExecOutcome) -> (action: KanidmAction)
        requires
            waits(old(self)@),
        ensures
            (final(self)@, action@) == run_next(old(self)@, exec::outcome(result)),
    {
        let output = match result {
            Ok(output) => output,
            Err(error) => {
                return KanidmAction::Finish(Err(KanidmError::Exec(error)));
            },
        };
        assert(self.operations@[self.index as int]@ == operation_views(
            self.operations@,
        )[self.index as int]);
        if self.acting {
            let act = &self.operations[self.index].act;
            if !output.success() {
                return KanidmAction::Finish(
                    Err(
                        KanidmError::KanidmCli {
                            command: join_texts(act, " "),
                            code: output.code,
                            stderr: trim_text(&output.stderr),
                        },
                    ),
                );
            }
            self.note(true, output.stdout);
            return self.enter();
        }
        let nothing_to_do = match &self.operations[self.index].probe {
            Some((_, Probe::Exists { name })) => found_entry(&output, name),
            Some((_, Probe::Member { name })) => contains_text(&group_members(&output), name),
            None => false,
        };
        if nothing_to_do {
            self.note(false, String::new());
            self.enter()
        } else {
            let argv = build_argv(&self.account, &self.operations[self.index].act);
            self.acting = true;
            KanidmAction::Run(argv)
        }
    }
}

// ---------------------------------------------------------------------------
// Laws of runs
// ---------------------------------------------------------------------------

/// A run always waits for a command or is over: whatever was to be run next, it
/// takes the output.
pub proof fn run_waits_after_a_command(run: RunView, result: ExecOutcomeView)
    requires
        waits(run),
    ensures
        run_next(run, result).1 is Run ==> waits(run_next(run, result).0),
        run_start(run.account, run.operations).1 is Run ==> waits(
            run_start(run.account, run.operations).0,
        ),
{
}

/// Nothing is created that is already there: where a probe shows that there is
/// nothing to do, its command is not run, and the run turns to the next
/// operation.
pub proof fn settled_operations_are_passed_over(run: RunView, output: OutputView)
    requires
        waits(run),
        !run.acting,
        settled((run.operations[run.index].probe->0).1, output),
    ensures
        run_next(run, Ok(output)) == run_enter(run_through(run, false, Seq::empty())),
{
}

/// The command that a run waits for.
pub open spec fn command_under_way(run: RunView) -> Seq<Seq<char>> {
    kanidm_argv(
        run.account,
        if run.acting {
            run.operations[run.index].act
        } else {
            (run.operations[run.index].probe->0).0
        },
    )
}

/// How many commands a run has left at most.
pub open spec fn commands_left(run: RunView) -> int {
    2 * (run.operations.len() - run.index) - (if run.acting {
        1int
    } else {
        0int
    })
}

/// All commands of a run from where it waits, in a world that answers each
/// command line with a fixed output.
pub open spec fn commands(
    run: RunView,
    world: spec_fn(Seq<Seq<char>>) -> OutputView,
) -> Seq<Seq<Seq<char>>>
    decreases commands_left(run),
{
    if !waits(run) {
        Seq::empty()
    } else {
        let next = run_next(run, Ok(world(command_under_way(run))));
        seq![command_under_way(run)] + (if next.1 is Run {
            commands(next.0, world)
        } else {
            Seq::empty()
        })
    }
}

/// The last action of a run from a turn on, in a world that answers each command
/// line with a fixed output: how the run ends.
pub open spec fn last_action(
    turn: (RunView, KanidmActionView),
    world: spec_fn(Seq<Seq<char>>) -> OutputView,
) -> KanidmActionView
    decreases commands_left(turn.0),
{
    if turn.1 is Run && waits(turn.0) {
        let next = run_next(turn.0, Ok(world(command_under_way(turn.0))));
        if next.1 is Run {
            last_action(next, world)
        } else {
            next.1
        }
    } else {
        turn.1
    }
}

/// The command of an operation that has nothing to create: its probe, or, where
/// it has none, the setting that is applied again.
pub open spec fn steady_command(account: Seq<char>, operation: OperationView) -> Seq<Seq<char>> {
    match operation.probe {
        Some((args, _)) => kanidm_argv(account, args),
        None => kanidm_argv(account, operation.act),
    }
}

/// Whether a world is already as the operations want it: every probe shows that
/// there is nothing to do, and every other command succeeds.
pub open spec fn converged(
    account: Seq<char>,
    operations: Seq<OperationView>,
    world: spec_fn(Seq<Seq<char>>) -> OutputView,
) -> bool {
    forall|i: int|
        0 <= i < operations.len() ==> match (#[trigger] operations[i]).probe {
            Some((args, probe)) => settled(probe, world(kanidm_argv(account, args))),
            None => world(kanidm_argv(account, operations[i].act)).code == 0,
        }
}

/// A second run converges: in a world that is already as the operations want
/// it, a run creates nothing. It runs one command for each operation, its probe
/// or the setting that is applied again, and no other, and it ends well.
pub proof fn second_run_creates_nothing(
    account: Seq<char>,
    operations: Seq<OperationView>,
    world: spec_fn(Seq<Seq<char>>) -> OutputView,
)
    requires
        converged(account, operations, world),
    ensures
        commands(run_start(account, operations).0, world) == Seq::new(
            operations.len(),
            |i: int| steady_command(account, operations[i]),
        ),
        last_action(run_start(account, operations), world) == KanidmActionView::Finish(Ok(())),
{
    let run = RunView {
        account,
        operations,
        index: 0,
        acting: false,
        acted: Seq::empty(),
        printed: Seq::empty(),
    };
    lemma_steady_commands(run, world);
    assert(operations.skip(0) =~= operations);
}

proof fn lemma_steady_commands(run: RunView, world: spec_fn(Seq<Seq<char>>) -> OutputView)
    requires
        converged(run.account, run.operations, world),
        0 <= run.index <= run.operations.len(),
    ensures
        commands(run_enter(run).0, world) == Seq::new(
            (run.operations.len() - run.index) as nat,
            |i: int| steady_command(run.account, run.operations[run.index + i]),
        ),
        run_enter(run).1 is Run <==> run.index < run.operations.len(),
        last_action(run_enter(run), world) == KanidmActionView::Finish(Ok(())),
    decreases run.operations.len() - run.index,
{
    let entered = run_enter(run).0;
    if run.index < run.operations.len() {
        let operation = run.operations[run.index];
        let command = command_under_way(entered);
        assert(command == steady_command(run.account, operation));
        let output = world(command);
        let printed = if operation.probe is Some {
            Seq::empty()
        } else {
            output.stdout
        };
        let through = run_through(entered, operation.probe is None, printed);
        assert(run_next(entered, Ok(output)) == run_enter(through));
        lemma_steady_commands(through, world);
        assert(commands(entered, world) =~= Seq::new(
            (run.operations.len() - run.index) as nat,
            |i: int| steady_command(run.account, run.operations[run.index + i]),
        ));
    } else {
        assert(commands(entered, world) =~= Seq::empty());
        assert(Seq::new(
            (run.operations.len() - run.index) as nat,
            |i: int| steady_command(run.account, run.operations[run.index + i]),
        ) =~= Seq::empty());
    }
}

/// Every command is one of kanidm's, with its own arguments in order, and names
/// the account at its end.
pub proof fn commands_name_the_account(account: Seq<char>, args: Seq<Seq<char>>)
    ensures
        kanidm_argv(account, args).len() == args.len() + 3,
        kanidm_argv(account, args)[0] == "kanidm"@,
        kanidm_argv(account, args).subrange(1, (args.len() + 1) as int) == args,
        kanidm_argv(account, args)[(args.len() + 1) as int] == "--name"@,
        kanidm_argv(account, args)[(args.len() + 2) as int] == account,
{
    assert(kanidm_argv(account, args).subrange(1, (args.len() + 1) as int) =~= args);
}

/// A run looks first: it begins with the probe of its first operation, or with
/// the command itself where there is nothing to look at, and without operations
/// it is through.
pub proof fn run_looks_before_it_acts(account: Seq<char>, operations: Seq<OperationView>)
    ensures
        ({
            let (run, action) = run_start(account, operations);
            &&& run.operations == operations && run.account == account && run.index == 0
            &&& run.acted.len() == 0 && run.printed.len() == 0
            &&& operations.len() == 0 ==> action == KanidmActionView::Finish(Ok(()))
            &&& operations.len() > 0 ==> match operations[0].probe {
                Some((args, _)) => !run.acting && action == KanidmActionView::Run(
                    seq!["kanidm"@] + args + seq!["--name"@, account],
                ),
                None => run.acting && action == KanidmActionView::Run(
                    seq!["kanidm"@] + operations[0].act + seq!["--name"@, account],
                ),
            }
        }),
{
}

/// Where the probe does not show that an operation is settled, its command is
/// run, and the operation stays under way.
pub proof fn unsettled_operations_are_carried_out(run: RunView, output: OutputView)
    requires
        waits(run),
        !run.acting,
        match (run.operations[run.index].probe->0).1 {
            ProbeView::Exists { name } => !output::shows_entry(output, name),
            ProbeView::Member { name } => !output::members_shown(output).contains(name),
        },
    ensures
        run_next(run, Ok(output)) == (
            RunView { acting: true, ..run },
            KanidmActionView::Run(
                seq!["kanidm"@] + run.operations[run.index].act + seq!["--name"@, run.account],
            ),
        ),
{
}

/// Where the probe shows what it looks for, the operation is settled: it is noted
/// as not carried out, and the run goes on behind it.
pub proof fn shown_entries_and_members_are_left_alone(run: RunView, output: OutputView)
    requires
        waits(run),
        !run.acting,
        match (run.operations[run.index].probe->0).1 {
            ProbeView::Exists { name } => output::shows_entry(output, name),
            ProbeView::Member { name } => output::members_shown(output).contains(name),
        },
    ensures
        run_next(run, Ok(output)).0.index == run.index + 1,
        run_next(run, Ok(output)).0.acted == run.acted.push(false),
        run_next(run, Ok(output)).0.printed.len() == run.printed.len() + 1,
        run_next(run, Ok(output)).0.printed.last().len() == 0,
{
}

/// A command that succeeded is noted with what it printed, and the run goes on
/// to the next operation; behind the last one it is through.
pub proof fn successful_commands_are_noted(run: RunView, output: OutputView)
    requires
        waits(run),
        run.acting,
        output.code == 0,
    ensures
        ({
            let (next, action) = run_next(run, Ok(output));
            &&& next.operations == run.operations && next.account == run.account
            &&& next.index == run.index + 1
            &&& next.acted == run.acted.push(true)
            &&& next.printed == run.printed.push(output.stdout)
            &&& next.index == run.operations.len() ==> action == KanidmActionView::Finish(Ok(()))
            &&& next.index < run.operations.len() ==> match run.operations[next.index].probe {
                Some((args, _)) => !next.acting && action == KanidmActionView::Run(
                    seq!["kanidm"@] + args + seq!["--name"@, run.account],
                ),
                None => next.acting && action == KanidmActionView::Run(
                    seq!["kanidm"@] + run.operations[next.index].act + seq!["--name"@, run.account],
                ),
            }
        }),
{
}

/// A command that failed ends the run, and the error says which command it was,
/// with what code it ended and what it complained of. A command that could not
/// be run at all ends it too.
pub proof fn failed_commands_end_the_run(
    run: RunView,
    output: OutputView,
    error: exec::ExecErrorView,
)
    requires
        waits(run),
        run.acting,
        output.code != 0,
    ensures
        run_next(run, Ok(output)).1 == KanidmActionView::Finish(
            Err(
                KanidmErrorView::KanidmCli {
                    command: text::join(run.operations[run.index].act, " "@),
                    code: output.code,
                    stderr: text::trim(output.stderr),
                },
            ),
        ),
        run_next(run, Err(error)).1 == KanidmActionView::Finish(Err(KanidmErrorView::Exec(error))),
        run_next(RunView { acting: false, ..run }, Err(error)).1 == KanidmActionView::Finish(
            Err(KanidmErrorView::Exec(error)),
        ),
{
}

/// An operation is told by its commands, word by word.
pub proof fn operations_are_told_word_by_word(operation: Operation, name: String, i: int)
    ensures
        operation@.act.len() == operation.act@.len(),
        0 <= i < operation.act@.len() ==> operation@.act[i] == operation.act@[i]@,
        operation@.probe is Some <==> operation.probe is Some,
        operation.probe matches Some((args, probe)) ==> {
            &&& (operation@.probe->0).1 == probe@
            &&& (operation@.probe->0).0.len() == args@.len()
            &&& 0 <= i < args@.len() ==> (operation@.probe->0).0[i] == args@[i]@
        },
        (Probe::Exists { name })@ == (ProbeView::Exists { name: name@ }),
        (Probe::Member { name })@ == (ProbeView::Member { name: name@ }),
{
}

} // verus!
