//! What can go wrong with the gateway.

use crate::http_client::{HttpError, HttpErrorView};
use crate::numbers::format_u64;
use crate::numbers;
use crate::text::{cat2, cat3, cat4, cat5};
use vstd::prelude::*;

verus! {

/// Why the gateway could not be configured.
pub enum ApisixError {
    Json(String),
    Config(String),
    Http(HttpError),
    AdminApi { method: String, path: String, status: u16, body: String },
    MissingSecret(String),
}

/// The contents of an `ApisixError`.
#[verifier::ext_equal]
pub enum ApisixErrorView {
    Json(Seq<char>),
    Config(Seq<char>),
    Http(HttpErrorView),
    AdminApi { method: Seq<char>, path: Seq<char>, status: u16, body: Seq<char> },
    MissingSecret(Seq<char>),
}

impl View for ApisixError {
    type V = ApisixErrorView;

    open spec fn view(&self) -> ApisixErrorView {
        match self {
            ApisixError::Json(text) => ApisixErrorView::Json(text@),
            ApisixError::Config(text) => ApisixErrorView::Config(text@),
            ApisixError::Http(error) => ApisixErrorView::Http(error@),
            ApisixError::AdminApi { method, path, status, body } => ApisixErrorView::AdminApi {
                method: method@,
                path: path@,
                status: *status,
                body: body@,
            },
            ApisixError::MissingSecret(text) => ApisixErrorView::MissingSecret(text@),
        }
    }
}

impl ApisixErrorView {
    /// The text that describes the error.
    pub open spec fn description(self) -> Seq<char> {
        match self {
            ApisixErrorView::Json(text) => "APISIX: json: "@ + text,
            ApisixErrorView::Config(text) => "APISIX: config: "@ + text,
            ApisixErrorView::Http(error) => "APISIX: "@ + error.description(),
            ApisixErrorView::AdminApi { method, path, status, body } => {
                "APISIX: admin api "@ + method + " "@ + path + (" -> "@ + numbers::digits(status as nat)
                    + ": "@ + body)
            },
            ApisixErrorView::MissingSecret(text) => {
                "APISIX: no client secret recorded for '"@ + text
                    + "' — run the kanidm stage first"@
            },
        }
    }
}

impl ApisixError {
    /// Describes the error.
    pub fn message(&self) -> (text: String)
        ensures
            text@ == self@.description(),
    {
        match self {
            ApisixError::Json(text) => cat2("APISIX: json: ", text),
            ApisixError::Config(text) => cat2("APISIX: config: ", text),
            ApisixError::Http(error) => cat2("APISIX: ", &error.message()),
            ApisixError::AdminApi { method, path, status, body } => {
                let tail = cat4(" -> ", &format_u64(*status as u64), ": ", body);
                cat5("APISIX: admin api ", method, " ", path, &tail)
            },
            ApisixError::MissingSecret(text) => cat3(
                "APISIX: no client secret recorded for '",
                text,
                "' — run the kanidm stage first",
            ),
        }
    }
}

/// Every error says that it comes from apisix, and what went wrong there.
pub proof fn apisix_errors_say_what_happened(
    text: Seq<char>,
    http: HttpErrorView,
    method: Seq<char>,
    path: Seq<char>,
    status: u16,
)
    ensures
        ApisixErrorView::Json(text).description() == "APISIX: json: "@ + text,
        ApisixErrorView::Config(text).description() == "APISIX: config: "@ + text,
        ApisixErrorView::Http(http).description() == "APISIX: "@ + http.description(),
        (ApisixErrorView::AdminApi { method, path, status, body: text }).description()
            == "APISIX: admin api "@ + method + " "@ + path + " -> "@ + numbers::digits(
            status as nat,
        ) + ": "@ + text,
        ApisixErrorView::MissingSecret(text).description()
            == "APISIX: no client secret recorded for '"@ + text
            + "' — run the kanidm stage first"@,
{
    assert((ApisixErrorView::AdminApi { method, path, status, body: text }).description()
        =~= "APISIX: admin api "@ + method + " "@ + path + " -> "@ + numbers::digits(status as nat)
        + ": "@ + text);
}

} // verus!
