//! What can go wrong with kanidm.

use crate::exec::{ExecError, ExecErrorView};
use crate::numbers::format_i64;
use crate::numbers;
use crate::text::{cat2, cat4, cat5};
use vstd::prelude::*;

verus! {

/// Why kanidm could not be provisioned.
pub enum KanidmError {
    Exec(ExecError),
    Config(String),
    NoKanidmSession { container: String, account: String },
    KanidmCli { command: String, code: i64, stderr: String },
    Other(String),
}

/// The contents of a `KanidmError`.
#[verifier::ext_equal]
pub enum KanidmErrorView {
    Exec(ExecErrorView),
    Config(Seq<char>),
    NoKanidmSession { container: Seq<char>, account: Seq<char> },
    KanidmCli { command: Seq<char>, code: i64, stderr: Seq<char> },
    Other(Seq<char>),
}

impl View for KanidmError {
    type V = KanidmErrorView;

    open spec fn view(&self) -> KanidmErrorView {
        match self {
            KanidmError::Exec(error) => KanidmErrorView::Exec(error@),
            KanidmError::Config(text) => KanidmErrorView::Config(text@),
            KanidmError::NoKanidmSession { container, account } => {
                KanidmErrorView::NoKanidmSession { container: container@, account: account@ }
            },
            KanidmError::KanidmCli { command, code, stderr } => KanidmErrorView::KanidmCli {
                command: command@,
                code: *code,
                stderr: stderr@,
            },
            KanidmError::Other(text) => KanidmErrorView::Other(text@),
        }
    }
}

impl KanidmErrorView {
    /// The text that describes the error.
    pub open spec fn description(self) -> Seq<char> {
        match self {
            KanidmErrorView::Exec(error) => "KANIDM: "@ + error.description(),
            KanidmErrorView::Config(text) => "KANIDM: config: "@ + text,
            KanidmErrorView::NoKanidmSession { container, account } => {
                "KANIDM: no valid session for '"@ + account
                    + "'\nrun once, interactively:\n    docker exec -it "@ + container + (
                " kanidm login --name "@ + account)
            },
            KanidmErrorView::KanidmCli { command, code, stderr } => {
                "KANIDM: cli `"@ + command + "` exited "@ + (numbers::decimal(code as int) + ": "@ + stderr)
            },
            KanidmErrorView::Other(text) => "KANIDM: "@ + text,
        }
    }
}

impl KanidmError {
    /// Describes the error.
    pub fn message(&self) -> (text: String)
        ensures
            text@ == self@.description(),
    {
        match self {
            KanidmError::Exec(error) => cat2("KANIDM: ", &error.message()),
            KanidmError::Config(text) => cat2("KANIDM: config: ", text),
            KanidmError::NoKanidmSession { container, account } => cat5(
                "KANIDM: no valid session for '",
                account,
                "'\nrun once, interactively:\n    docker exec -it ",
                container,
                &cat2(" kanidm login --name ", account),
            ),
            KanidmError::KanidmCli { command, code, stderr } => cat4(
                "KANIDM: cli `",
                command,
                "` exited ",
                &crate::text::cat3(&format_i64(*code), ": ", stderr),
            ),
            KanidmError::Other(text) => cat2("KANIDM: ", text),
        }
    }
}

/// Every error says that it comes from kanidm, and what went wrong there; where
/// there is no session, it says how to log in.
pub proof fn kanidm_errors_say_what_happened(
    text: Seq<char>,
    exec: ExecErrorView,
    container: Seq<char>,
    account: Seq<char>,
    code: i64,
    stderr: Seq<char>,
)
    ensures
        KanidmErrorView::Exec(exec).description() == "KANIDM: "@ + exec.description(),
        KanidmErrorView::Config(text).description() == "KANIDM: config: "@ + text,
        (KanidmErrorView::NoKanidmSession { container, account }).description()
            == "KANIDM: no valid session for '"@ + account
            + "'\nrun once, interactively:\n    docker exec -it "@ + container
            + " kanidm login --name "@ + account,
        (KanidmErrorView::KanidmCli { command: text, code, stderr }).description()
            == "KANIDM: cli `"@ + text + "` exited "@ + numbers::decimal(code as int) + ": "@
            + stderr,
        KanidmErrorView::Other(text).description() == "KANIDM: "@ + text,
{
    assert((KanidmErrorView::NoKanidmSession { container, account }).description()
        =~= "KANIDM: no valid session for '"@ + account
        + "'\nrun once, interactively:\n    docker exec -it "@ + container
        + " kanidm login --name "@ + account);
    assert((KanidmErrorView::KanidmCli { command: text, code, stderr }).description()
        =~= "KANIDM: cli `"@ + text + "` exited "@ + numbers::decimal(code as int) + ": "@ + stderr);
}

} // verus!
