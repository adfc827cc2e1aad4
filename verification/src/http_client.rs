//! HTTP requests that are sent by a curl command.

use crate::decode::quote;
use crate::decode;
use crate::exec::{ExecError, ExecErrorView, Output};
use crate::numbers::{format_i64, parse_u16};
use crate::numbers;
use crate::text::{cat2, cat3, cat4, char_vec, find_last, string_range, trim_text};
use crate::text;
use vstd::prelude::*;

verus! {

/// A request.
pub struct Request<'a> {
    pub method: &'a str,
    pub url: &'a str,
    pub headers: &'a [(String, String)],
    pub body: Option<&'a str>,
}

/// The answer to a request.
pub struct Response {
    pub status: u16,
    pub body: String,
}

/// The contents of a `Response`.
#[verifier::ext_equal]
pub struct ResponseView {
    pub status: u16,
    pub body: Seq<char>,
}

impl View for Response {
    type V = ResponseView;

    open spec fn view(&self) -> ResponseView {
        ResponseView { status: self.status, body: self.body@ }
    }
}

impl Response {
    /// Whether the request succeeded.
    pub fn is_success(&self) -> (yes: bool)
        ensures
            yes == (200 <= self.status < 300),
    {
        200 <= self.status && self.status < 300
    }
}

/// Why a request got no answer.
pub enum HttpError {
    Transport(String),
    Exec(ExecError),
    Reqwest(String),
    UnparseableStatus(String),
}

/// The contents of an `HttpError`.
#[verifier::ext_equal]
pub enum HttpErrorView {
    Transport(Seq<char>),
    Exec(ExecErrorView),
    Reqwest(Seq<char>),
    UnparseableStatus(Seq<char>),
}

impl View for HttpError {
    type V = HttpErrorView;

    open spec fn view(&self) -> HttpErrorView {
        match self {
            HttpError::Transport(text) => HttpErrorView::Transport(text@),
            HttpError::Exec(error) => HttpErrorView::Exec(error@),
            HttpError::Reqwest(text) => HttpErrorView::Reqwest(text@),
            HttpError::UnparseableStatus(text) => HttpErrorView::UnparseableStatus(text@),
        }
    }
}

impl HttpErrorView {
    /// The text that describes the error.
    pub open spec fn description(self) -> Seq<char> {
        match self {
            HttpErrorView::Transport(text) => "HTTP: transport failure: "@ + text,
            HttpErrorView::Exec(error) => "HTTP: "@ + error.description(),
            HttpErrorView::Reqwest(text) => "HTTP: reqwest error: "@ + text,
            HttpErrorView::UnparseableStatus(text) => {
                "HTTP: could not parse a status code out of curl's output: "@ + decode::quoted_text(text)
            },
        }
    }
}

impl HttpError {
    /// Describes the error.
    pub fn message(&self) -> (text: String)
        ensures
            text@ == self@.description(),
    {
        match self {
            HttpError::Transport(text) => cat2("HTTP: transport failure: ", text),
            HttpError::Exec(error) => cat2("HTTP: ", &error.message()),
            HttpError::Reqwest(text) => cat2("HTTP: reqwest error: ", text),
            HttpError::UnparseableStatus(text) => cat2(
                "HTTP: could not parse a status code out of curl's output: ",
                &quote(text),
            ),
        }
    }
}

/// The contents of a response, or of the error in its place.
pub open spec fn answered(result: Result<Response, HttpError>) -> Result<
    ResponseView,
    HttpErrorView,
> {
    match result {
        Ok(response) => Ok(response@),
        Err(error) => Err(error@),
    }
}

/// Requests that are sent by a curl command.
pub struct CurlExecClient<R> {
    runner: R,
}

/// The arguments that add headers to a curl command.
pub open spec fn header_args(headers: Seq<(Seq<char>, Seq<char>)>) -> Seq<Seq<char>>
    decreases headers.len(),
{
    if headers.len() == 0 {
        Seq::empty()
    } else {
        header_args(headers.drop_last()).push("-H"@).push(
            headers.last().0 + ": "@ + headers.last().1,
        )
    }
}

/// The curl command that sends a request. The body is read from the input, and
/// the status is written after the body, on a line of its own.
pub open spec fn curl_argv(
    method: Seq<char>,
    url: Seq<char>,
    headers: Seq<(Seq<char>, Seq<char>)>,
    has_body: bool,
) -> Seq<Seq<char>> {
    let head = seq!["curl"@, "-s"@, "-w"@, "\\n%{http_code}"@, "-X"@, method, url];
    let with_headers = head + header_args(headers);
    if has_body {
        with_headers.push("--data-binary"@).push("@-"@)
    } else {
        with_headers
    }
}

impl<R> CurlExecClient<R> {
    /// The runner of the commands.
    pub closed spec fn uses(&self) -> R {
        self.runner
    }

    /// A client that runs its commands with `runner`.
    pub fn new(runner: R) -> (client: Self)
        ensures
            client.uses() == runner,
    {
        Self { runner }
    }

    /// The runner of the commands.
    pub fn runner(&self) -> (runner: &R)
        ensures
            *runner == self.uses(),
    {
        &self.runner
    }

    /// The curl command that sends a request.
    pub fn argv(request: &Request<'_>) -> (argv: Vec<String>)
        ensures
            text::texts(argv@) == curl_argv(
                request.method@,
                request.url@,
                text::text_pairs(request.headers@),
                request.body is Some,
            ),
    {
        let mut argv: Vec<String> = vec![
            "curl".to_owned(),
            "-s".to_owned(),
            "-w".to_owned(),
            "\\n%{http_code}".to_owned(),
            "-X".to_owned(),
            request.method.to_owned(),
            request.url.to_owned(),
        ];
        let ghost head = seq![
            "curl"@,
            "-s"@,
            "-w"@,
            "\\n%{http_code}"@,
            "-X"@,
            request.method@,
            request.url@,
        ];
        assert(text::texts(argv@) =~= head);
        let ghost all = text::text_pairs(request.headers@);
        let mut i: usize = 0;
        assert(text::texts(argv@) =~= head + header_args(all.take(0)));
        while i < request.headers.len()
            invariant
                i <= request.headers@.len(),
                all == text::text_pairs(request.headers@),
                text::texts(argv@) == head + header_args(all.take(i as int)),
            decreases request.headers@.len() - i,
        {
            assert(all.take(i + 1).drop_last() =~= all.take(i as int));
            let header = &request.headers[i];
            assert(all.take(i + 1).last() == (header.0@, header.1@));
            let ghost before = text::texts(argv@);
            argv.push("-H".to_owned());
            let line = cat3(&header.0, ": ", &header.1);
            let ghost added = line@;
            argv.push(line);
            assert(text::texts(argv@) =~= before.push("-H"@).push(added));
            i += 1;
            assert(text::texts(argv@) =~= head + header_args(all.take(i as int)));
        }
        assert(all.take(i as int) =~= all);
        let ghost before = text::texts(argv@);
        if request.body.is_some() {
            argv.push("--data-binary".to_owned());
            argv.push("@-".to_owned());
            assert(text::texts(argv@) =~= before.push("--data-binary"@).push("@-"@));
        }
        argv
    }

    /// The answer in what a curl command left behind.
    pub fn read_answer(result: Result<Output, ExecError>) -> (answer: Result<Response, HttpError>)
        ensures
            answered(answer) == (match result {
                Ok(output) => curl_answer(output.code, output.stdout@, output.stderr@),
                Err(error) => Err(HttpErrorView::Exec(error@)),
            }),
    {
        match result {
            Ok(output) => split_curl_output(output.code, &output.stdout, &output.stderr),
            Err(error) => Err(HttpError::Exec(error)),
        }
    }
}

/// The answer in the output of a curl command: the status stands after the last
/// line feed, the body before it.
pub open spec fn curl_answer(code: i64, stdout: Seq<char>, stderr: Seq<char>) -> Result<
    ResponseView,
    HttpErrorView,
> {
    if code != 0 {
        Err(
            HttpErrorView::Transport(
                "curl exited "@ + numbers::decimal(code as int) + ": "@ + text::trim(stderr),
            ),
        )
    } else {
        let at = text::last_index(stdout, '\n');
        let body = if at >= 0 {
            stdout.take(at)
        } else {
            Seq::empty()
        };
        let line = text::trim(stdout.skip(at + 1));
        match numbers::parse_int(line, 0, u16::MAX as int) {
            Ok(status) => Ok(ResponseView { status: status as u16, body }),
            Err(_) => Err(HttpErrorView::UnparseableStatus(line)),
        }
    }
}

/// Reads the answer out of the output of a curl command.
pub fn split_curl_output(code: i64, stdout: &str, stderr: &str) -> (result: Result<
    Response,
    HttpError,
>)
    ensures
        answered(result) == curl_answer(code, stdout@, stderr@),
{
    if code != 0 {
        return Err(
            HttpError::Transport(
                cat4("curl exited ", &format_i64(code), ": ", &trim_text(stderr)),
            ),
        );
    }
    let chars = char_vec(stdout);
    let total: usize = chars.len();
    proof {
        text::lemma_last_index(chars@, '\n');
    }
    let (body, line) = match find_last(&chars, '\n') {
        Some(at) => {
            let body = string_range(&chars, 0, at);
            let line = string_range(&chars, at + 1, total);
            assert(body@ =~= stdout@.take(at as int));
            assert(line@ =~= stdout@.skip(at + 1));
            (body, line)
        },
        None => {
            assert(stdout@.skip(0) =~= stdout@);
            (String::new(), stdout.to_owned())
        },
    };
    let line = trim_text(&line);
    match parse_u16(&line) {
        Ok(status) => Ok(Response { status, body }),
        Err(_) => Err(HttpError::UnparseableStatus(line)),
    }
}

// ---------------------------------------------------------------------------
// Laws of the curl client
// ---------------------------------------------------------------------------

proof fn lemma_digits_are_digits(n: nat)
    ensures
        numbers::digits(n).len() >= 1,
        forall|i: int| 0 <= i < numbers::digits(n).len() ==> '0' <= #[trigger] numbers::digits(n)[i] <= '9',
    decreases n,
{
    if n >= 10 {
        lemma_digits_are_digits(n / 10);
        let front = numbers::digits(n / 10);
        assert forall|i: int| 0 <= i < numbers::digits(n).len() implies '0' <= #[trigger] numbers::digits(n)[i]
            <= '9' by {
            if i < front.len() {
                assert(numbers::digits(n)[i] == front[i]);
            }
        }
    }
}

proof fn lemma_trim_nothing(text: Seq<char>)
    requires
        text.len() >= 1,
        !crate::text::is_whitespace(text[0]),
        !crate::text::is_whitespace(text.last()),
    ensures
        text::trim(text) == text,
{
}

proof fn lemma_last_index_of_line(body: Seq<char>, line: Seq<char>)
    requires
        !line.contains('\n'),
    ensures
        text::last_index(body + "\n"@ + line, '\n') == body.len(),
{
    reveal_strlit("\n");
    let whole = body + "\n"@ + line;
    text::lemma_last_index(whole, '\n');
    assert(whole[body.len() as int] == '\n');
    let at = text::last_index(whole, '\n');
    if at > body.len() {
        assert(whole[at] == line[at - body.len() - 1]);
        assert(line.contains('\n'));
    }
}

/// What the curl command writes for an answer, the body and then the status on
/// a line of its own, is read back as that answer, whatever the body holds.
pub proof fn curl_output_is_read_back(status: u16, body: Seq<char>, stderr: Seq<char>)
    ensures
        curl_answer(0, body + "\n"@ + numbers::digits(status as nat), stderr) == Ok::<
            ResponseView,
            HttpErrorView,
        >(ResponseView { status, body }),
{
    reveal_strlit("\n");
    let line = numbers::digits(status as nat);
    let whole = body + "\n"@ + line;
    lemma_digits_are_digits(status as nat);
    assert(!line.contains('\n')) by {
        if line.contains('\n') {
            let i = choose|i: int| 0 <= i < line.len() && line[i] == '\n';
            assert('0' <= line[i]);
        }
    }
    lemma_last_index_of_line(body, line);
    assert(whole.take(body.len() as int) =~= body);
    assert(whole.skip(body.len() as int + 1) =~= line);
    assert('0' <= line[0] <= '9');
    assert('0' <= line[line.len() - 1] <= '9');
    lemma_trim_nothing(line);
    crate::numbers::parse_inverts_decimal(status as int, 0, u16::MAX as int);
}

/// Every header is handed to curl, in order, as a flag and the header's line.
pub proof fn every_header_is_handed_to_curl(headers: Seq<(Seq<char>, Seq<char>)>, k: int)
    ensures
        header_args(headers).len() == 2 * headers.len(),
        0 <= k < headers.len() ==> header_args(headers)[2 * k] == "-H"@ && header_args(
            headers,
        )[2 * k + 1] == headers[k].0 + ": "@ + headers[k].1,
    decreases headers.len(),
{
    if headers.len() > 0 {
        every_header_is_handed_to_curl(headers.drop_last(), k);
    }
}

/// Curl is called with the method and the address, then with the headers, and
/// reads the body from its input where there is one; it prints the status on a
/// line of its own behind the body.
pub proof fn curl_is_told_the_request(
    method: Seq<char>,
    url: Seq<char>,
    headers: Seq<(Seq<char>, Seq<char>)>,
    has_body: bool,
)
    ensures
        curl_argv(method, url, headers, has_body) == seq![
            "curl"@,
            "-s"@,
            "-w"@,
            "\\n%{http_code}"@,
            "-X"@,
            method,
            url,
        ] + header_args(headers) + (if has_body {
            seq!["--data-binary"@, "@-"@]
        } else {
            Seq::empty()
        }),
{
    let head = seq!["curl"@, "-s"@, "-w"@, "\\n%{http_code}"@, "-X"@, method, url];
    assert(curl_argv(method, url, headers, has_body) =~= head + header_args(headers) + (
    if has_body {
        seq!["--data-binary"@, "@-"@]
    } else {
        Seq::empty()
    }));
}

/// A curl that fails is a failure of the transport, whatever it printed, and the
/// error tells its code and its complaint.
pub proof fn failed_curl_is_a_transport_failure(
    code: i64,
    stdout: Seq<char>,
    stderr: Seq<char>,
)
    requires
        code != 0,
    ensures
        curl_answer(code, stdout, stderr) == Err::<ResponseView, HttpErrorView>(
            HttpErrorView::Transport(
                "curl exited "@ + numbers::decimal(code as int) + ": "@ + text::trim(stderr),
            ),
        ),
{
}

/// What stands behind the last line break has to be a status; where it is not, the
/// error shows it.
pub proof fn answers_without_a_status_are_refused(
    body: Seq<char>,
    line: Seq<char>,
    stderr: Seq<char>,
)
    requires
        !line.contains('\n'),
        numbers::parse_int(text::trim(line), 0, 65535) is Err,
    ensures
        curl_answer(0, body + seq!['\n'] + line, stderr) == Err::<ResponseView, HttpErrorView>(
            HttpErrorView::UnparseableStatus(text::trim(line)),
        ),
        curl_answer(0, line, stderr) == Err::<ResponseView, HttpErrorView>(
            HttpErrorView::UnparseableStatus(text::trim(line)),
        ),
{
    let whole = body + seq!['\n'] + line;
    text::lemma_last_index(whole, '\n');
    text::lemma_last_index(line, '\n');
    let at = text::last_index(whole, '\n');
    assert(whole[body.len() as int] == '\n');
    if at > body.len() {
        assert(line[at - body.len() - 1] == '\n');
    }
    assert(at == body.len());
    assert(whole.skip(at + 1) =~= line);
    let alone = text::last_index(line, '\n');
    if alone >= 0 {
        assert(line[alone] == '\n');
    }
    assert(line.skip(0) =~= line);
}

/// Every error says that a request was being made, and what came between.
pub proof fn http_errors_say_what_happened(text: Seq<char>, error: ExecErrorView)
    ensures
        HttpErrorView::Transport(text).description() == "HTTP: transport failure: "@ + text,
        HttpErrorView::Exec(error).description() == "HTTP: "@ + error.description(),
        HttpErrorView::Reqwest(text).description() == "HTTP: reqwest error: "@ + text,
        HttpErrorView::UnparseableStatus(text).description()
            == "HTTP: could not parse a status code out of curl's output: "@
            + decode::quoted_text(text),
{
}

/// An answer is told as it came: a response by its status and its body, a failure
/// by its error.
pub proof fn answers_are_told_as_they_came(response: Response, error: HttpError)
    ensures
        answered(Ok(response)) == Ok::<ResponseView, HttpErrorView>(
            ResponseView { status: response.status, body: response.body@ },
        ),
        answered(Err(error)) == Err::<ResponseView, HttpErrorView>(error@),
{
}

} // verus!
