//! How the database is opened, created and brought up to date.

use crate::numbers::format_u64;
use crate::numbers;
use crate::text::{cat3, cat5};
use crate::text;
use vstd::prelude::*;

verus! {

/// How often the database is tried.
pub const CONNECTION_ATTEMPTS: u64 = 5;

/// The most connections that the pool opens.
pub const MAX_CONNECTIONS: u32 = 5;

/// The seconds to wait after a failed attempt.
pub open spec fn pause_after(attempt: int) -> int {
    attempt * 2
}

/// A name with every quotation mark doubled.
pub open spec fn doubled(name: Seq<char>) -> Seq<char>
    decreases name.len(),
{
    if name.len() == 0 {
        Seq::empty()
    } else if name.last() == '"' {
        doubled(name.drop_last()).push('"').push('"')
    } else {
        doubled(name.drop_last()).push(name.last())
    }
}

/// The statement that creates a database of the given name.
pub open spec fn create_statement_of(name: Seq<char>) -> Seq<char> {
    "CREATE DATABASE \""@ + doubled(name) + "\""@
}

/// The statement that creates the database of the given name. Quotation marks in
/// the name are doubled, so that they do not end it.
pub fn create_statement(name: &str) -> (statement: String)
    ensures
        statement@ == create_statement_of(name@),
{
    let chars = crate::text::char_vec(name);
    let mut quoted = String::new();
    for i in 0..chars.len()
        invariant
            chars@ == name@,
            quoted@ == doubled(name@.take(i as int)),
    {
        assert(name@.take(i + 1).drop_last() =~= name@.take(i as int));
        quoted.push(chars[i]);
        if chars[i] == '"' {
            quoted.push('"');
        }
    }
    assert(name@.take(name@.len() as int) =~= name@);
    cat3("CREATE DATABASE \"", &quoted, "\"")
}

/// The name that a text with doubled quotation marks stands for: every pair of
/// quotation marks counts once.
pub open spec fn undoubled(text: Seq<char>) -> Seq<char>
    decreases text.len(),
{
    if text.len() == 0 {
        Seq::empty()
    } else if text.len() > 1 && text.last() == '"' && text[text.len() - 2] == '"' {
        undoubled(text.drop_last().drop_last()).push('"')
    } else {
        undoubled(text.drop_last()).push(text.last())
    }
}

/// The statement names the very database that was asked for, whatever
/// characters its name holds.
pub proof fn quoting_keeps_the_name(name: Seq<char>)
    ensures
        undoubled(doubled(name)) == name,
    decreases name.len(),
{
    if name.len() > 0 {
        quoting_keeps_the_name(name.drop_last());
        let before = doubled(name.drop_last());
        assert(name == name.drop_last().push(name.last()));
        if name.last() == '"' {
            assert(doubled(name).drop_last().drop_last() =~= before);
        } else {
            assert(doubled(name).drop_last() =~= before);
        }
    }
}

/// What to do next to open a pool of connections.
pub enum PoolAction {
    /// Connect to the given database, which always exists.
    Connect { database: String },
    /// Ask whether the wanted database exists.
    AskExists,
    /// Execute a statement.
    Execute { statement: String },
    /// Close the connection.
    Close,
    /// Open the pool on the wanted database.
    OpenPool { max_connections: u32 },
    /// The pool is open, or there is none.
    Finish(Result<(), String>),
}

/// The contents of a `PoolAction`.
#[verifier::ext_equal]
pub enum PoolActionView {
    Connect { database: Seq<char> },
    AskExists,
    Execute { statement: Seq<char> },
    Close,
    OpenPool { max_connections: u32 },
    Finish(Result<(), Seq<char>>),
}

impl View for PoolAction {
    type V = PoolActionView;

    open spec fn view(&self) -> PoolActionView {
        match self {
            PoolAction::Connect { database } => PoolActionView::Connect { database: database@ },
            PoolAction::AskExists => PoolActionView::AskExists,
            PoolAction::Execute { statement } => PoolActionView::Execute { statement: statement@ },
            PoolAction::Close => PoolActionView::Close,
            PoolAction::OpenPool { max_connections } => PoolActionView::OpenPool {
                max_connections: *max_connections,
            },
            PoolAction::Finish(Ok(_)) => PoolActionView::Finish(Ok(())),
            PoolAction::Finish(Err(error)) => PoolActionView::Finish(Err(error@)),
        }
    }
}

/// How the last step went.
pub enum PoolEvent {
    /// It was done.
    Done,
    /// Whether the database exists.
    Exists(bool),
    /// It failed.
    Failed(String),
}

/// The contents of a `PoolEvent`.
#[verifier::ext_equal]
pub enum PoolEventView {
    Done,
    Exists(bool),
    Failed(Seq<char>),
}

impl View for PoolEvent {
    type V = PoolEventView;

    open spec fn view(&self) -> PoolEventView {
        match self {
            PoolEvent::Done => PoolEventView::Done,
            PoolEvent::Exists(yes) => PoolEventView::Exists(*yes),
            PoolEvent::Failed(error) => PoolEventView::Failed(error@),
        }
    }
}

/// Whether an event can follow an action.
pub open spec fn pool_fits(action: PoolActionView, event: PoolEventView) -> bool {
    match (action, event) {
        (PoolActionView::Finish(_), _) => false,
        (_, PoolEventView::Failed(_)) => true,
        (PoolActionView::AskExists, PoolEventView::Exists(_)) => true,
        (PoolActionView::AskExists, _) => false,
        (_, PoolEventView::Done) => true,
        _ => false,
    }
}

/// What follows an action: the database is created where it does not exist, and
/// the first failure ends it.
pub open spec fn pool_next(name: Seq<char>, action: PoolActionView, event: PoolEventView) -> PoolActionView {
    match event {
        PoolEventView::Failed(error) => PoolActionView::Finish(Err(error)),
        PoolEventView::Exists(true) => PoolActionView::Close,
        PoolEventView::Exists(false) => PoolActionView::Execute {
            statement: create_statement_of(name),
        },
        PoolEventView::Done => match action {
            PoolActionView::Connect { .. } => PoolActionView::AskExists,
            PoolActionView::Execute { .. } => PoolActionView::Close,
            PoolActionView::Close => PoolActionView::OpenPool { max_connections: MAX_CONNECTIONS },
            _ => PoolActionView::Finish(Ok(())),
        },
    }
}

/// The first step towards a pool of connections.
pub fn get_pool() -> (action: PoolAction)
    ensures
        action@ == (PoolActionView::Connect { database: "postgres"@ }),
{
    PoolAction::Connect { database: "postgres".to_owned() }
}

/// What follows a step towards a pool on the database of the given name.
pub fn get_pool_next(name: &str, action: &PoolAction, event: PoolEvent) -> (next: PoolAction)
    requires
        pool_fits(action@, event@),
    ensures
        next@ == pool_next(name@, action@, event@),
{
    match event {
        PoolEvent::Failed(error) => PoolAction::Finish(Err(error)),
        PoolEvent::Exists(yes) => if yes {
            PoolAction::Close
        } else {
            PoolAction::Execute { statement: create_statement(name) }
        },
        PoolEvent::Done => match action {
            PoolAction::Connect { .. } => PoolAction::AskExists,
            PoolAction::Execute { .. } => PoolAction::Close,
            PoolAction::Close => PoolAction::OpenPool { max_connections: MAX_CONNECTIONS },
            _ => PoolAction::Finish(Ok(())),
        },
    }
}

/// What to do next to initialize the database.
pub enum DbAction {
    /// Open a pool.
    GetPool,
    /// Bring the schema up to date.
    Migrate,
    /// Wait.
    Sleep { seconds: u64 },
    /// The database is ready, or there is none.
    Finish(Result<(), String>),
}

/// The contents of a `DbAction`.
#[verifier::ext_equal]
pub enum DbActionView {
    GetPool,
    Migrate,
    Sleep { seconds: int },
    Finish(Result<(), Seq<char>>),
}

impl View for DbAction {
    type V = DbActionView;

    open spec fn view(&self) -> DbActionView {
        match self {
            DbAction::GetPool => DbActionView::GetPool,
            DbAction::Migrate => DbActionView::Migrate,
            DbAction::Sleep { seconds } => DbActionView::Sleep { seconds: *seconds as int },
            DbAction::Finish(Ok(_)) => DbActionView::Finish(Ok(())),
            DbAction::Finish(Err(error)) => DbActionView::Finish(Err(error@)),
        }
    }
}

/// How the last step went.
pub enum DbEvent {
    Done,
    Failed(String),
}

/// The contents of a `DbEvent`.
#[verifier::ext_equal]
pub enum DbEventView {
    Done,
    Failed(Seq<char>),
}

impl View for DbEvent {
    type V = DbEventView;

    open spec fn view(&self) -> DbEventView {
        match self {
            DbEvent::Done => DbEventView::Done,
            DbEvent::Failed(error) => DbEventView::Failed(error@),
        }
    }
}

/// What an initialization waits for.
#[derive(Clone, Copy, Debug, PartialEq, Eq, Structural)]
pub enum DbPhase {
    Pool,
    Migration,
    Pause,
    Over,
}

/// An initialization of the database: the attempt, counted from one, what it
/// waits for, and the error of the last attempt.
pub struct DbInit {
    pub attempt: u64,
    pub phase: DbPhase,
    pub last_error: String,
}

/// The contents of a `DbInit`.
#[verifier::ext_equal]
pub struct DbInitView {
    pub attempt: int,
    pub phase: DbPhase,
    pub last_error: Seq<char>,
}

impl View for DbInit {
    type V = DbInitView;

    open spec fn view(&self) -> DbInitView {
        DbInitView {
            attempt: self.attempt as int,
            phase: self.phase,
            last_error: self.last_error@,
        }
    }
}

/// Whether the initialization is under way.
pub open spec fn db_running(state: DbInitView) -> bool {
    1 <= state.attempt <= CONNECTION_ATTEMPTS && state.phase != DbPhase::Over
}

/// Whether an event can come in a phase. A pause does not fail.
pub open spec fn db_fits(state: DbInitView, event: DbEventView) -> bool {
    db_running(state) && (state.phase == DbPhase::Pause ==> event is Done)
}

/// How an initialization begins.
pub open spec fn db_start() -> (DbInitView, DbActionView) {
    (
        DbInitView { attempt: 1, phase: DbPhase::Pool, last_error: Seq::empty() },
        DbActionView::GetPool,
    )
}

/// How an initialization goes on. A pool that cannot be opened is tried again
/// after a pause, up to the last attempt; a failed migration is final.
pub open spec fn db_next(state: DbInitView, event: DbEventView) -> (DbInitView, DbActionView) {
    let over = (DbInitView { phase: DbPhase::Over, ..state });
    match (state.phase, event) {
        (DbPhase::Pool, DbEventView::Done) => (
            (DbInitView { phase: DbPhase::Migration, ..state }),
            DbActionView::Migrate,
        ),
        (DbPhase::Pool, DbEventView::Failed(error)) => (
            (DbInitView { phase: DbPhase::Pause, last_error: error, ..state }),
            DbActionView::Sleep { seconds: pause_after(state.attempt) },
        ),
        (DbPhase::Migration, DbEventView::Done) => (over, DbActionView::Finish(Ok(()))),
        (DbPhase::Migration, DbEventView::Failed(error)) => (
            over,
            DbActionView::Finish(Err(error)),
        ),
        (DbPhase::Pause, _) if state.attempt < CONNECTION_ATTEMPTS => (
            (DbInitView { attempt: state.attempt + 1, phase: DbPhase::Pool, ..state }),
            DbActionView::GetPool,
        ),
        _ => (over, DbActionView::Finish(Err(state.last_error))),
    }
}

/// Begins the initialization of the database.
pub fn init_db() -> (begun: (DbInit, DbAction))
    ensures
        (begun.0@, begun.1@) == db_start(),
{
    (
        DbInit { attempt: 1, phase: DbPhase::Pool, last_error: String::new() },
        DbAction::GetPool,
    )
}

impl DbInit {
    /// Goes on with the initialization of the database.
    pub fn step(&mut self, event: DbEvent) -> (action: DbAction)
        requires
            db_fits(old(self)@, event@),
        ensures
            (final(self)@, action@) == db_next(old(self)@, event@),
    {
        match self.phase {
            DbPhase::Pool => match event {
                DbEvent::Done => {
                    self.phase = DbPhase::Migration;
                    DbAction::Migrate
                },
                DbEvent::Failed(error) => {
                    self.phase = DbPhase::Pause;
                    self.last_error = error;
                    DbAction::Sleep { seconds: self.attempt * 2 }
                },
            },
            DbPhase::Migration => {
                self.phase = DbPhase::Over;
                match event {
                    DbEvent::Done => DbAction::Finish(Ok(())),
                    DbEvent::Failed(error) => DbAction::Finish(Err(error)),
                }
            },
            _ => {
                if self.attempt < CONNECTION_ATTEMPTS {
                    self.attempt = self.attempt + 1;
                    self.phase = DbPhase::Pool;
                    DbAction::GetPool
                } else {
                    self.phase = DbPhase::Over;
                    DbAction::Finish(Err(self.last_error.clone()))
                }
            },
        }
    }
}

/// The line that tells of a failed attempt. It shows the number of attempts that
/// is configured.
pub fn attempt_failed(attempt: u64, connection_attempt: u32, error: &str) -> (line: String)
    ensures
        line@ == "Attempt "@ + numbers::digits(attempt as nat) + "/"@ + numbers::digits(
            connection_attempt as nat,
        ) + (" failed: "@ + error@),
{
    cat5(
        "Attempt ",
        &format_u64(attempt),
        "/",
        &format_u64(connection_attempt as u64),
        &crate::text::cat2(" failed: ", error),
    )
}

/// The state and the action after a history of events.
pub open spec fn db_after(events: Seq<DbEventView>) -> (DbInitView, DbActionView)
    decreases events.len(),
{
    if events.len() == 0 {
        db_start()
    } else {
        db_next(db_after(events.drop_last()).0, events.last())
    }
}

/// Failures to open a pool, each followed by the end of its pause.
pub open spec fn failures(errors: Seq<Seq<char>>) -> Seq<DbEventView>
    decreases errors.len(),
{
    if errors.len() == 0 {
        Seq::empty()
    } else {
        failures(errors.drop_last()).push(DbEventView::Failed(errors.last())).push(
            DbEventView::Done,
        )
    }
}

proof fn lemma_failures(errors: Seq<Seq<char>>)
    requires
        0 < errors.len() <= CONNECTION_ATTEMPTS,
    ensures
        db_after(failures(errors)) == (if errors.len() < CONNECTION_ATTEMPTS {
            (
                DbInitView {
                    attempt: errors.len() as int + 1,
                    phase: DbPhase::Pool,
                    last_error: errors.last(),
                },
                DbActionView::GetPool,
            )
        } else {
            (
                DbInitView {
                    attempt: errors.len() as int,
                    phase: DbPhase::Over,
                    last_error: errors.last(),
                },
                DbActionView::Finish(Err(errors.last())),
            )
        }),
    decreases errors.len(),
{
    let before = failures(errors.drop_last());
    let failed = before.push(DbEventView::Failed(errors.last()));
    assert(failed.drop_last() =~= before);
    assert(failures(errors).drop_last() =~= failed);
    if errors.len() > 1 {
        lemma_failures(errors.drop_last());
    }
    assert(db_after(failed) == db_next(db_after(before).0, DbEventView::Failed(errors.last())));
}

/// A database that cannot be reached is tried a fixed number of times; then the
/// error of the last attempt is reported, and not before.
pub proof fn database_is_tried_again(errors: Seq<Seq<char>>)
    requires
        0 < errors.len() <= CONNECTION_ATTEMPTS,
    ensures
        db_after(failures(errors)).1 == (if errors.len() < CONNECTION_ATTEMPTS {
            DbActionView::GetPool
        } else {
            DbActionView::Finish(Err(errors.last()))
        }),
{
    lemma_failures(errors);
}

/// A name is quoted character by character: a quote is written twice, every other
/// character once, and the whole stands between quotes.
pub proof fn name_is_quoted_character_by_character(name: Seq<char>, c: char)
    ensures
        doubled(Seq::empty()).len() == 0,
        c == '"' ==> doubled(name.push(c)) == doubled(name).push('"').push('"'),
        c != '"' ==> doubled(name.push(c)) == doubled(name).push(c),
        create_statement_of(name) == "CREATE DATABASE \""@ + doubled(name) + "\""@,
{
    assert(name.push(c).drop_last() =~= name);
}

/// The pool is opened step by step: the database is asked for, made where it is not
/// there, and the connection to the server is closed before the pool is opened.
/// What fails ends it.
pub proof fn pool_is_opened_step_by_step(
    name: Seq<char>,
    database: Seq<char>,
    statement: Seq<char>,
    max_connections: u32,
    action: PoolActionView,
    error: Seq<char>,
)
    ensures
        pool_next(name, PoolActionView::Connect { database }, PoolEventView::Done)
            == PoolActionView::AskExists,
        pool_next(name, PoolActionView::AskExists, PoolEventView::Exists(true))
            == PoolActionView::Close,
        pool_next(name, PoolActionView::AskExists, PoolEventView::Exists(false))
            == (PoolActionView::Execute {
            statement: "CREATE DATABASE \""@ + doubled(name) + "\""@,
        }),
        pool_next(name, PoolActionView::Execute { statement }, PoolEventView::Done)
            == PoolActionView::Close,
        pool_next(name, PoolActionView::Close, PoolEventView::Done) == (PoolActionView::OpenPool {
            max_connections: 5,
        }),
        pool_next(name, PoolActionView::OpenPool { max_connections }, PoolEventView::Done)
            == PoolActionView::Finish(Ok(())),
        pool_next(name, action, PoolEventView::Failed(error)) == PoolActionView::Finish(
            Err(error),
        ),
{
}

/// The database is tried five times, with a pause after each failure that grows by
/// two seconds; once there is a pool it is migrated, and a migration that fails is
/// not tried again.
pub proof fn database_is_tried_five_times(state: DbInitView, error: Seq<char>)
    requires
        1 <= state.attempt <= 5,
    ensures
        db_start().1 == DbActionView::GetPool && db_start().0.attempt == 1,
        db_start().0.phase == DbPhase::Pool,
        state.phase == DbPhase::Pool ==> db_next(state, DbEventView::Failed(error)) == (
            DbInitView { phase: DbPhase::Pause, last_error: error, ..state },
            DbActionView::Sleep { seconds: 2 * state.attempt },
        ),
        state.phase == DbPhase::Pool ==> db_next(state, DbEventView::Done) == (
            DbInitView { phase: DbPhase::Migration, ..state },
            DbActionView::Migrate,
        ),
        state.phase == DbPhase::Pause && state.attempt < 5 ==> db_next(state, DbEventView::Done)
            == (
            DbInitView { attempt: state.attempt + 1, phase: DbPhase::Pool, ..state },
            DbActionView::GetPool,
        ),
        state.phase == DbPhase::Pause && state.attempt == 5 ==> db_next(state, DbEventView::Done)
            == (
            DbInitView { phase: DbPhase::Over, ..state },
            DbActionView::Finish(Err(state.last_error)),
        ),
        state.phase == DbPhase::Migration ==> db_next(state, DbEventView::Done) == (
            DbInitView { phase: DbPhase::Over, ..state },
            DbActionView::Finish(Ok(())),
        ),
        state.phase == DbPhase::Migration ==> db_next(state, DbEventView::Failed(error)) == (
            DbInitView { phase: DbPhase::Over, ..state },
            DbActionView::Finish(Err(error)),
        ),
{
}

/// What came of a step is told as it came: whether the database exists, and what
/// failed.
pub proof fn database_events_are_told_as_they_came(exists: bool, error: String)
    ensures
        PoolEvent::Exists(exists)@ == PoolEventView::Exists(exists),
        PoolEvent::Failed(error)@ == PoolEventView::Failed(error@),
        PoolEvent::Done@ == PoolEventView::Done,
        DbEvent::Failed(error)@ == DbEventView::Failed(error@),
        DbEvent::Done@ == DbEventView::Done,
{
}

} // verus!
