//! What can go wrong with the provisioning.

use crate::apisix::error::{ApisixError, ApisixErrorView};
use crate::exec::{ExecError, ExecErrorView};
use crate::http_client::{HttpError, HttpErrorView};
use crate::kanidm::error::{KanidmError, KanidmErrorView};
use crate::text::{cat2, cat5};
use vstd::prelude::*;

verus! {

/// Why the provisioning failed.
pub enum KanidmApisixError {
    Kanidm(KanidmError),
    Apisix(ApisixError),
    Exec(ExecError),
    Http(HttpError),
    Io(String),
    MissingAdminKey { path: String },
    Other(String),
}

/// The contents of a `KanidmApisixError`.
#[verifier::ext_equal]
pub enum InitErrorView {
    Kanidm(KanidmErrorView),
    Apisix(ApisixErrorView),
    Exec(ExecErrorView),
    Http(HttpErrorView),
    Io(Seq<char>),
    MissingAdminKey { path: Seq<char> },
    Other(Seq<char>),
}

impl View for KanidmApisixError {
    type V = InitErrorView;

    open spec fn view(&self) -> InitErrorView {
        match self {
            KanidmApisixError::Kanidm(error) => InitErrorView::Kanidm(error@),
            KanidmApisixError::Apisix(error) => InitErrorView::Apisix(error@),
            KanidmApisixError::Exec(error) => InitErrorView::Exec(error@),
            KanidmApisixError::Http(error) => InitErrorView::Http(error@),
            KanidmApisixError::Io(text) => InitErrorView::Io(text@),
            KanidmApisixError::MissingAdminKey { path } => {
                InitErrorView::MissingAdminKey { path: path@ }
            },
            KanidmApisixError::Other(text) => InitErrorView::Other(text@),
        }
    }
}

impl InitErrorView {
    /// The text that describes the error.
    pub open spec fn description(self) -> Seq<char> {
        match self {
            InitErrorView::Kanidm(error) => error.description(),
            InitErrorView::Apisix(error) => error.description(),
            InitErrorView::Exec(error) => error.description(),
            InitErrorView::Http(error) => error.description(),
            InitErrorView::Io(text) => "INIT: io: "@ + text,
            InitErrorView::MissingAdminKey { path } => {
                "INIT: no APISIX admin key at "@ + path
                    + "\ncopy the `admin_key` value out of crates/core/config/apisix.yaml:\n    printf '%s' '<key>' > "@
                    + path + (" && chmod 600 "@ + path)
            },
            InitErrorView::Other(text) => "INIT: "@ + text,
        }
    }

    /// Whether the operator can put it right: a session to open or a key to
    /// store.
    pub open spec fn operator_can_fix(self) -> bool {
        match self {
            InitErrorView::Kanidm(KanidmErrorView::NoKanidmSession { .. }) => true,
            InitErrorView::MissingAdminKey { .. } => true,
            _ => false,
        }
    }

    /// What the operator is told in the end.
    pub open spec fn last_words(self) -> Seq<char> {
        if self.operator_can_fix() {
            self.description() + "\nfix the above and re-run; nothing else is wrong"@
        } else {
            self.description()
        }
    }
}

impl KanidmApisixError {
    /// Describes the error.
    pub fn message(&self) -> (text: String)
        ensures
            text@ == self@.description(),
    {
        match self {
            KanidmApisixError::Kanidm(error) => error.message(),
            KanidmApisixError::Apisix(error) => error.message(),
            KanidmApisixError::Exec(error) => error.message(),
            KanidmApisixError::Http(error) => error.message(),
            KanidmApisixError::Io(text) => cat2("INIT: io: ", text),
            KanidmApisixError::MissingAdminKey { path } => cat5(
                "INIT: no APISIX admin key at ",
                path,
                "\ncopy the `admin_key` value out of crates/core/config/apisix.yaml:\n    printf '%s' '<key>' > ",
                path,
                &cat2(" && chmod 600 ", path),
            ),
            KanidmApisixError::Other(text) => cat2("INIT: ", text),
        }
    }

    /// Whether the operator can put it right.
    pub fn is_recoverable_by_operator(&self) -> (yes: bool)
        ensures
            yes == self@.operator_can_fix(),
    {
        matches!(
            self,
            KanidmApisixError::Kanidm(KanidmError::NoKanidmSession { .. })
                | KanidmApisixError::MissingAdminKey { .. }
        )
    }

    /// What the operator is told in the end.
    pub fn failure_text(&self) -> (text: String)
        ensures
            text@ == self@.last_words(),
    {
        let mut text = self.message();
        if self.is_recoverable_by_operator() {
            text.append("\nfix the above and re-run; nothing else is wrong");
        }
        text
    }
}

/// Every error says which part of the run it comes from, and what to do where the
/// operator can do something.
pub proof fn init_errors_say_where_they_come_from(
    text: Seq<char>,
    kanidm: KanidmErrorView,
    apisix: ApisixErrorView,
    exec: ExecErrorView,
    http: HttpErrorView,
)
    ensures
        InitErrorView::Kanidm(kanidm).description() == kanidm.description(),
        InitErrorView::Apisix(apisix).description() == apisix.description(),
        InitErrorView::Exec(exec).description() == exec.description(),
        InitErrorView::Http(http).description() == http.description(),
        InitErrorView::Io(text).description() == "INIT: io: "@ + text,
        InitErrorView::Other(text).description() == "INIT: "@ + text,
        (InitErrorView::MissingAdminKey { path: text }).description()
            == "INIT: no APISIX admin key at "@ + text
            + "\ncopy the `admin_key` value out of crates/core/config/apisix.yaml:\n    printf '%s' '<key>' > "@
            + text + " && chmod 600 "@ + text,
{
    assert((InitErrorView::MissingAdminKey { path: text }).description()
        =~= "INIT: no APISIX admin key at "@ + text
        + "\ncopy the `admin_key` value out of crates/core/config/apisix.yaml:\n    printf '%s' '<key>' > "@
        + text + " && chmod 600 "@ + text);
}

/// The operator can help where there is no session or no admin key, and nowhere
/// else; only there the last words ask for another run.
pub proof fn operator_helps_with_session_and_key(error: InitErrorView)
    ensures
        ({
            let helps = match error {
                InitErrorView::Kanidm(inner) => inner is NoKanidmSession,
                InitErrorView::Apisix(_) => false,
                InitErrorView::Exec(_) => false,
                InitErrorView::Http(_) => false,
                InitErrorView::Io(_) => false,
                InitErrorView::MissingAdminKey { .. } => true,
                InitErrorView::Other(_) => false,
            };
            &&& error.operator_can_fix() <==> helps
            &&& helps ==> error.last_words() == error.description()
                + "\nfix the above and re-run; nothing else is wrong"@
            &&& !helps ==> error.last_words() == error.description()
        }),
{
}

} // verus!
