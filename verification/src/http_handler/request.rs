//! Requests, read from bytes.

use crate::decode::decode_strict;
use crate::http_handler::error::{parsing_error, HandlerErrorView, NinoverseHttpHandlerError};
use crate::http_handler::headers::{
    add_header, new_headers, parse_header_name, parse_header_value, parse_method, parse_uri_path,
    SURE_HEADER_NAMES,
};
use crate::http_handler::headers;
use crate::text::{
    same, split_text, split_text_at, split_text_once_at, take_word, trim_blank_text,
    trim_start_text,
};
use crate::text;
use vstd::prelude::*;

verus! {

/// The version of the protocol.
#[derive(Clone, Copy, Debug, PartialEq, Eq, Structural)]
pub enum HttpVersion {
    Http10,
    Http11,
}

/// A request line that was read.
pub struct RequestLine {
    pub method: String,
    pub uri: String,
    pub path: String,
    pub version: HttpVersion,
}

/// The contents of a `RequestLine`.
#[verifier::ext_equal]
pub struct RequestLineView {
    pub method: Seq<char>,
    pub uri: Seq<char>,
    pub path: Seq<char>,
    pub version: HttpVersion,
}

impl View for RequestLine {
    type V = RequestLineView;

    open spec fn view(&self) -> RequestLineView {
        RequestLineView {
            method: self.method@,
            uri: self.uri@,
            path: self.path@,
            version: self.version,
        }
    }
}

/// A request that was read. The body is the text that stands for it: only a
/// POST has one.
pub struct ParsedRequest {
    pub line: RequestLine,
    pub headers: http::HeaderMap<http::HeaderValue>,
    pub body: Option<String>,
}

/// The contents of a `ParsedRequest`.
#[verifier::ext_equal]
pub struct ParsedRequestView {
    pub line: RequestLineView,
    pub headers: Map<Seq<char>, Seq<Seq<u8>>>,
    pub body: Option<Seq<char>>,
}

impl View for ParsedRequest {
    type V = ParsedRequestView;

    open spec fn view(&self) -> ParsedRequestView {
        ParsedRequestView {
            line: self.line@,
            headers: headers::held(self.headers),
            body: text::opt_text(self.body),
        }
    }
}

/// The request line that a text is, given the path of its URI where that is one:
/// a method, a URI and a version, with white space between them.
pub open spec fn line_with_path(text: Seq<char>, path: Option<Seq<char>>) -> Result<
    RequestLineView,
    HandlerErrorView,
> {
    let (method, after_method) = text::next_word(text);
    let (uri, after_uri) = text::next_word(after_method);
    let version = text::next_word(after_uri).0;
    if !headers::is_token(method) {
        Err(HandlerErrorView::ParsingError("Parsing response method."@))
    } else if path is None {
        Err(HandlerErrorView::ParsingError("Parsing URI."@))
    } else if version == "HTTP/1.1"@ {
        Ok(RequestLineView { method, uri, path: path->0, version: HttpVersion::Http11 })
    } else if version == "HTTP/1.0"@ {
        Ok(RequestLineView { method, uri, path: path->0, version: HttpVersion::Http10 })
    } else {
        Err(HandlerErrorView::StreamError("Reading stream."@))
    }
}

/// The URI in a request line.
pub open spec fn uri_in(text: Seq<char>) -> Seq<char> {
    text::next_word(text::next_word(text).1).0
}

/// The request line that a text is.
pub open spec fn line_of(text: Seq<char>) -> Result<RequestLineView, HandlerErrorView> {
    line_with_path(text, headers::uri_path(uri_in(text)))
}

/// Reads a request line whose URI has the given path.
pub fn read_request_line(text: &str, path: Option<String>) -> (result: Result<
    RequestLine,
    NinoverseHttpHandlerError,
>)
    ensures
        match result {
            Ok(line) => line_with_path(text@, text::opt_text(path)) == Ok::<
                RequestLineView,
                HandlerErrorView,
            >(line@),
            Err(error) => line_with_path(text@, text::opt_text(path)) == Err::<
                RequestLineView,
                HandlerErrorView,
            >(error@),
        },
{
    let (first, after_method) = take_word(text);
    let (uri, after_uri) = take_word(&after_method);
    let (version, _) = take_word(&after_uri);
    let method = match parse_method(&first) {
        Some(method) => method,
        None => {
            return Err(parsing_error("Parsing response method."));
        },
    };
    let path = match path {
        Some(path) => path,
        None => {
            return Err(parsing_error("Parsing URI."));
        },
    };
    if same(&version, "HTTP/1.1") {
        Ok(RequestLine { method, uri, path, version: HttpVersion::Http11 })
    } else if same(&version, "HTTP/1.0") {
        Ok(RequestLine { method, uri, path, version: HttpVersion::Http10 })
    } else {
        Err(
            NinoverseHttpHandlerError::StreamError {
                additional_info: "Reading stream.".to_owned(),
            },
        )
    }
}

/// Reads a request line.
pub fn parse_request_line(request_line: &str) -> (result: Result<
    RequestLine,
    NinoverseHttpHandlerError,
>)
    ensures
        match result {
            Ok(line) => line_of(request_line@) == Ok::<RequestLineView, HandlerErrorView>(line@),
            Err(error) => line_of(request_line@) == Err::<RequestLineView, HandlerErrorView>(
                error@,
            ),
        },
{
    let (_, after_method) = take_word(request_line);
    let (uri, _) = take_word(&after_method);
    read_request_line(request_line, parse_uri_path(&uri))
}

/// The name and the value of a header line. Without a separator the whole line
/// is the name.
pub open spec fn header_parts(line: Seq<char>) -> (Seq<char>, Seq<char>) {
    match text::split_once_at(line, ": "@) {
        Some(parts) => parts,
        None => (line, Seq::empty()),
    }
}

/// The headers that lines give, up to the first empty one or the end, with the
/// number of lines that this takes.
pub open spec fn headers_in(lines: Seq<Seq<char>>, before: Map<Seq<char>, Seq<Seq<u8>>>) -> Result<
    (Map<Seq<char>, Seq<Seq<u8>>>, int),
    HandlerErrorView,
>
    decreases lines.len(),
{
    if lines.len() == 0 {
        Ok((before, 0))
    } else if lines[0].len() == 0 {
        Ok((before, 1))
    } else {
        let (name, value) = header_parts(lines[0]);
        let bytes = vstd::utf8::encode_utf8(value);
        if !headers::is_header_name(name) {
            Err(HandlerErrorView::ParsingError("Parsing header name."@))
        } else if !headers::is_header_value(bytes) {
            Err(HandlerErrorView::ParsingError("Parsing header value."@))
        } else {
            match headers_in(lines.skip(1), headers::with_header(before, headers::lowered(name), bytes)) {
                Ok((headers, used)) => Ok((headers, used + 1)),
                Err(error) => Err(error),
            }
        }
    }
}

/// Whether a header map takes all the headers that lines give, up to the first
/// line that is empty or is no header.
pub open spec fn headers_fit(lines: Seq<Seq<char>>, before: Map<Seq<char>, Seq<Seq<u8>>>) -> bool
    decreases lines.len(),
{
    if lines.len() == 0 || lines[0].len() == 0 {
        true
    } else {
        let (name, value) = header_parts(lines[0]);
        let bytes = vstd::utf8::encode_utf8(value);
        headers::is_header_name(name) && headers::is_header_value(bytes) ==> {
            &&& before.dom().len() <= SURE_HEADER_NAMES
            &&& headers_fit(
                lines.skip(1),
                headers::with_header(before, headers::lowered(name), bytes),
            )
        }
    }
}

/// Headers always fit where there are few lines: no more than the names that a
/// map surely takes.
pub proof fn few_headers_fit(lines: Seq<Seq<char>>, before: Map<Seq<char>, Seq<Seq<u8>>>)
    requires
        before.dom().finite(),
        before.dom().len() + lines.len() <= SURE_HEADER_NAMES + 1,
    ensures
        headers_fit(lines, before),
    decreases lines.len(),
{
    if lines.len() > 0 && lines[0].len() > 0 {
        let (name, value) = header_parts(lines[0]);
        let bytes = vstd::utf8::encode_utf8(value);
        let after = headers::with_header(before, headers::lowered(name), bytes);
        assert(after.dom() =~= before.dom().insert(headers::lowered(name)));
        few_headers_fit(lines.skip(1), after);
    }
}

proof fn lemma_lowered_token(name: Seq<char>)
    requires
        headers::is_header_name(name),
    ensures
        headers::is_header_name(headers::lowered(name)),
        headers::lowered(headers::lowered(name)) == headers::lowered(name),
{
    assert forall|i: int| 0 <= i < headers::lowered(name).len() implies crate::http_handler::headers::is_token_char(
        #[trigger] headers::lowered(name)[i],
    ) by {
        assert(crate::http_handler::headers::is_token_char(name[i]));
    }
    assert(headers::lowered(headers::lowered(name)) =~= headers::lowered(name));
}

/// Reads headers from the lines from `from` on. Returns the position after the
/// lines that this took.
pub fn parse_headers(
    headers: &mut http::HeaderMap<http::HeaderValue>,
    lines: &Vec<String>,
    from: usize,
) -> (result: Result<usize, NinoverseHttpHandlerError>)
    requires
        from <= lines@.len(),
        headers::held(*old(headers)).dom().finite(),
        headers_fit(text::texts(lines@).skip(from as int), headers::held(*old(headers))),
    ensures
        match result {
            Ok(after) => headers_in(text::texts(lines@).skip(from as int), headers::held(*old(headers))) == Ok::<
                (Map<Seq<char>, Seq<Seq<u8>>>, int),
                HandlerErrorView,
            >((headers::held(*final(headers)), after - from)) && after <= lines@.len(),
            Err(error) => headers_in(text::texts(lines@).skip(from as int), headers::held(*old(headers))) == Err::<
                (Map<Seq<char>, Seq<Seq<u8>>>, int),
                HandlerErrorView,
            >(error@),
        },
    decreases lines@.len() - from,
{
    let ghost rest = text::texts(lines@).skip(from as int);
    if from == lines.len() {
        return Ok(from);
    }
    let line = lines[from].as_str();
    assert(rest[0] == line@);
    assert(rest.skip(1) =~= text::texts(lines@).skip(from + 1));
    if line.is_empty() {
        return Ok(from + 1);
    }
    let (name, value) = match split_text_once_at(line, ": ") {
        Some(parts) => parts,
        None => (line.to_owned(), String::new()),
    };
    let lower = match parse_header_name(&name) {
        Some(lower) => lower,
        None => {
            return Err(parsing_error("Parsing header name."));
        },
    };
    let bytes = match parse_header_value(&value) {
        Some(bytes) => bytes,
        None => {
            return Err(parsing_error("Parsing header value."));
        },
    };
    proof {
        lemma_lowered_token(name@);
    }
    let ghost before = headers::held(*headers);
    add_header(headers, &lower, &bytes);
    proof {
        let after = headers::held(*headers);
        assert(after.dom() =~= before.dom().insert(lower@));
    }
    parse_headers(headers, lines, from + 1)
}

/// The text of the body in the lines after the headers.
pub open spec fn body_text(line: Seq<char>) -> Seq<char> {
    text::trim_blank(line)
}

/// The text of the body in the line after the headers: what stands there without
/// white space and control characters around it.
pub fn parse_body(line: &str) -> (body: String)
    ensures
        body@ == body_text(line@),
{
    trim_blank_text(line)
}

/// The request that lines are, given what their first line is.
pub open spec fn request_in(
    lines: Seq<Seq<char>>,
    first: Result<RequestLineView, HandlerErrorView>,
) -> Result<ParsedRequestView, HandlerErrorView> {
    match first {
        Err(error) => Err(error),
        Ok(line) => match headers_in(lines.skip(1), headers::no_headers()) {
            Err(error) => Err(error),
            Ok((headers, used)) => {
                let after = 1 + used;
                let body = if line.method == "POST"@ && after < lines.len() {
                    Some(body_text(lines[after]))
                } else {
                    None
                };
                Ok(ParsedRequestView { line, headers, body })
            },
        },
    }
}

/// The lines of a text, ended by carriage return and line feed.
pub open spec fn request_lines(text: Seq<char>) -> Seq<Seq<char>> {
    text::split_at_text(text, "\r\n"@)
}

/// The request that bytes are.
pub open spec fn request_of(buffer: Seq<u8>) -> Result<ParsedRequestView, HandlerErrorView> {
    if !vstd::utf8::valid_utf8(buffer) {
        Err(HandlerErrorView::ParsingError("Parsing URI."@))
    } else {
        let lines = request_lines(vstd::utf8::decode_utf8(buffer));
        request_in(lines, line_of(lines[0]))
    }
}

/// Reads the headers and the body of a request whose first line was read.
pub fn finish_request(
    lines: &Vec<String>,
    first: Result<RequestLine, NinoverseHttpHandlerError>,
) -> (result: Result<ParsedRequest, NinoverseHttpHandlerError>)
    requires
        lines@.len() > 0,
        first is Ok ==> headers_fit(text::texts(lines@).skip(1), headers::no_headers()),
    ensures
        match result {
            Ok(request) => request_in(text::texts(lines@), first_view(first)) == Ok::<
                ParsedRequestView,
                HandlerErrorView,
            >(request@),
            Err(error) => request_in(text::texts(lines@), first_view(first)) == Err::<
                ParsedRequestView,
                HandlerErrorView,
            >(error@),
        },
{
    let line = match first {
        Ok(line) => line,
        Err(error) => {
            return Err(error);
        },
    };
    let mut headers = new_headers();
    match parse_headers(&mut headers, lines, 1) {
        Err(error) => Err(error),
        Ok(after) => {
            let body = if same(&line.method, "POST") && after < lines.len() {
                Some(parse_body(&lines[after]))
            } else {
                None
            };
            Ok(ParsedRequest { line, headers, body })
        },
    }
}

/// The contents of a first line.
pub open spec fn first_view(first: Result<RequestLine, NinoverseHttpHandlerError>) -> Result<
    RequestLineView,
    HandlerErrorView,
> {
    match first {
        Ok(line) => Ok(line@),
        Err(error) => Err(error@),
    }
}

/// Whether a header map takes all the headers of the request that bytes are.
pub open spec fn request_fits(buffer: Seq<u8>) -> bool {
    vstd::utf8::valid_utf8(buffer) ==> headers_fit(
        request_lines(vstd::utf8::decode_utf8(buffer)).skip(1),
        headers::no_headers(),
    )
}

proof fn lemma_decoded_len(bytes: Seq<u8>)
    requires
        vstd::utf8::valid_utf8(bytes),
    ensures
        vstd::utf8::decode_utf8(bytes).len() <= bytes.len(),
    decreases bytes.len(),
{
    if bytes.len() > 0 {
        lemma_decoded_len(vstd::utf8::pop_first_scalar(bytes));
    }
}

/// A request always fits where it has no more bytes than a header map surely
/// takes names.
pub proof fn short_requests_fit(buffer: Seq<u8>)
    requires
        buffer.len() <= SURE_HEADER_NAMES,
    ensures
        request_fits(buffer),
{
    if vstd::utf8::valid_utf8(buffer) {
        let text = vstd::utf8::decode_utf8(buffer);
        reveal_strlit("\r\n");
        lemma_decoded_len(buffer);
        text::lemma_split_at_text_len(text, "\r\n"@);
        few_headers_fit(request_lines(text).skip(1), headers::no_headers());
    }
}

/// Reads a request from the bytes that were received, whose headers a header map
/// takes.
pub fn parse_request(buffer: &[u8]) -> (result: Result<ParsedRequest, NinoverseHttpHandlerError>)
    requires
        request_fits(buffer@),
    ensures
        match result {
            Ok(request) => request_of(buffer@) == Ok::<ParsedRequestView, HandlerErrorView>(
                request@,
            ),
            Err(error) => request_of(buffer@) == Err::<ParsedRequestView, HandlerErrorView>(
                error@,
            ),
        },
{
    let request_str = match decode_strict(buffer) {
        Some(text) => text,
        None => {
            return Err(parsing_error("Parsing URI."));
        },
    };
    proof {
        reveal_strlit("\r\n");
    }
    let lines = split_text_at(&request_str, "\r\n");
    let first = parse_request_line(&lines[0]);
    finish_request(&lines, first)
}

/// The pieces of a path.
pub open spec fn path_pieces(path: Seq<char>) -> Seq<Seq<char>> {
    text::split(text::trim_start_char(path, '/'), '/')
}

/// The pieces of the path of a request, between its slashes.
pub fn extract_uri_pieces_vector(request: &ParsedRequest) -> (pieces: Vec<String>)
    ensures
        text::texts(pieces@) == path_pieces(request.line.path@),
{
    let kept = trim_start_text(&request.line.path, '/');
    split_text(&kept, '/')
}

/// A request line is read in order: its method, its address and its version,
/// whatever white space stands between them.
pub proof fn request_line_is_read_in_order(
    method: Seq<char>,
    uri: Seq<char>,
    version: Seq<char>,
    path: Seq<char>,
)
    requires
        method.len() > 0 && uri.len() > 0 && version.len() > 0,
        forall|i: int| 0 <= i < method.len() ==> !text::is_whitespace(#[trigger] method[i]),
        forall|i: int| 0 <= i < uri.len() ==> !text::is_whitespace(#[trigger] uri[i]),
        forall|i: int| 0 <= i < version.len() ==> !text::is_whitespace(#[trigger] version[i]),
    ensures
        ({
            let text = method + seq![' '] + uri + seq![' '] + version;
            &&& uri_in(text) == uri
            &&& !headers::is_token(method) ==> line_with_path(text, Some(path)) == Err::<
                RequestLineView,
                HandlerErrorView,
            >(HandlerErrorView::ParsingError("Parsing response method."@))
            &&& headers::is_token(method) ==> line_with_path(text, None) == Err::<
                RequestLineView,
                HandlerErrorView,
            >(HandlerErrorView::ParsingError("Parsing URI."@))
            &&& headers::is_token(method) && version == "HTTP/1.1"@ ==> line_with_path(
                text,
                Some(path),
            ) == Ok::<RequestLineView, HandlerErrorView>(
                RequestLineView { method, uri, path, version: HttpVersion::Http11 },
            )
            &&& headers::is_token(method) && version == "HTTP/1.0"@ ==> line_with_path(
                text,
                Some(path),
            ) == Ok::<RequestLineView, HandlerErrorView>(
                RequestLineView { method, uri, path, version: HttpVersion::Http10 },
            )
            &&& headers::is_token(method) && version != "HTTP/1.0"@ && version != "HTTP/1.1"@
                ==> line_with_path(text, Some(path)) == Err::<RequestLineView, HandlerErrorView>(
                HandlerErrorView::StreamError("Reading stream."@),
            )
        }),
{
    reveal_strlit("HTTP/1.1");
    reveal_strlit("HTTP/1.0");
    let nothing = Seq::<char>::empty();
    let text = method + seq![' '] + uri + seq![' '] + version;
    let tail = seq![' '] + uri + seq![' '] + version;
    let end = seq![' '] + version;
    text::words_follow_each_other(nothing, method, tail);
    assert(nothing + method + tail =~= text);
    text::words_follow_each_other(seq![' '], uri, end);
    assert(seq![' '] + uri + end =~= tail);
    text::words_follow_each_other(seq![' '], version, nothing);
    assert(seq![' '] + version + nothing =~= end);
    assert("HTTP/1.1"@[7] != "HTTP/1.0"@[7]);
}

/// A header is cut at its first colon, and its name and its value are read as they
/// stand; a line without a colon is a name without a value.
pub proof fn header_line_is_cut_at_its_colon(name: Seq<char>, value: Seq<char>)
    requires
        !name.contains(':'),
    ensures
        header_parts(name + ": "@ + value) == (name, value),
        header_parts(name) == (name, Seq::<char>::empty()),
{
    reveal_strlit(": ");
    let line = name + ": "@ + value;
    assert forall|j: int| 0 <= j < name.len() implies !(#[trigger] text::occurs_at(
        line,
        ": "@,
        j,
    )) by {
        assert(name.contains(name[j]));
        assert(line.subrange(j, j + 2)[0] == name[j]);
        assert(": "@[0] == ':');
    }
    text::separator_cuts_the_text(name, ": "@, value);
    assert forall|j: int| !(#[trigger] text::occurs_at(name, ": "@, j)) by {
        if text::occurs_at(name, ": "@, j) {
            assert(name.subrange(j, j + 2)[0] == name[j]);
            assert(name.contains(name[j]));
        }
    }
    text::text_without_the_separator_stays(name, ": "@);
}

/// The headers are read line by line up to the empty line: each goes under its
/// name in small letters, and one that is out of order is refused.
pub proof fn headers_are_read_line_by_line(
    line: Seq<char>,
    rest: Seq<Seq<char>>,
    before: Map<Seq<char>, Seq<Seq<u8>>>,
)
    requires
        line.len() > 0,
    ensures
        headers_in(Seq::empty(), before) == Ok::<
            (Map<Seq<char>, Seq<Seq<u8>>>, int),
            HandlerErrorView,
        >((before, 0)),
        headers_in(seq![Seq::<char>::empty()] + rest, before) == Ok::<
            (Map<Seq<char>, Seq<Seq<u8>>>, int),
            HandlerErrorView,
        >((before, 1)),
        ({
            let (name, value) = header_parts(line);
            let bytes = vstd::utf8::encode_utf8(value);
            let after = headers::with_header(before, headers::lowered(name), bytes);
            let read = headers_in(seq![line] + rest, before);
            &&& !headers::is_header_name(name) ==> read == Err::<
                (Map<Seq<char>, Seq<Seq<u8>>>, int),
                HandlerErrorView,
            >(HandlerErrorView::ParsingError("Parsing header name."@))
            &&& headers::is_header_name(name) && !headers::is_header_value(bytes) ==> read == Err::<
                (Map<Seq<char>, Seq<Seq<u8>>>, int),
                HandlerErrorView,
            >(HandlerErrorView::ParsingError("Parsing header value."@))
            &&& headers::is_header_name(name) && headers::is_header_value(bytes)
                ==> match headers_in(rest, after) {
                Ok((headers, used)) => read == Ok::<
                    (Map<Seq<char>, Seq<Seq<u8>>>, int),
                    HandlerErrorView,
                >((headers, used + 1)),
                Err(error) => read == Err::<
                    (Map<Seq<char>, Seq<Seq<u8>>>, int),
                    HandlerErrorView,
                >(error),
            }
        }),
{
    let lines = seq![line] + rest;
    assert(lines[0] == line);
    assert(lines.skip(1) =~= rest);
    let ended = seq![Seq::<char>::empty()] + rest;
    assert(ended[0] == Seq::<char>::empty());
}

/// The body of a posted request is the line behind the headers, without the blanks
/// around it; no other request has one.
pub proof fn only_posted_requests_have_a_body(
    lines: Seq<Seq<char>>,
    line: RequestLineView,
    headers: Map<Seq<char>, Seq<Seq<u8>>>,
    used: int,
    error: HandlerErrorView,
)
    requires
        used >= 0,
        headers_in(lines.skip(1), Map::empty()) == Ok::<
            (Map<Seq<char>, Seq<Seq<u8>>>, int),
            HandlerErrorView,
        >((headers, used)),
    ensures
        request_in(lines, Err(error)) == Err::<ParsedRequestView, HandlerErrorView>(error),
        ({
            let read = request_in(lines, Ok(line));
            &&& read is Ok && read->Ok_0.line == line && read->Ok_0.headers == headers
            &&& line.method == "POST"@ && used + 1 < lines.len() ==> read->Ok_0.body == Some(
                text::trim_blank(lines[used + 1]),
            )
            &&& line.method == "POST"@ && used + 1 >= lines.len() ==> read->Ok_0.body is None
            &&& line.method != "POST"@ ==> read->Ok_0.body is None
        }),
{
}

/// A request that is no text is refused; any other is cut into lines, the first of
/// which is its request line.
pub proof fn requests_are_texts_of_lines(buffer: Seq<u8>)
    ensures
        !vstd::utf8::valid_utf8(buffer) ==> request_of(buffer) == Err::<
            ParsedRequestView,
            HandlerErrorView,
        >(HandlerErrorView::ParsingError("Parsing URI."@)),
        vstd::utf8::valid_utf8(buffer) ==> {
            let lines = text::split_at_text(vstd::utf8::decode_utf8(buffer), "\r\n"@);
            request_of(buffer) == request_in(
                lines,
                line_with_path(lines[0], headers::uri_path(uri_in(lines[0]))),
            )
        },
{
}

/// A path is cut at its slashes; those in front are left out.
pub proof fn path_is_cut_at_its_slashes(slashes: Seq<char>, name: Seq<char>, rest: Seq<char>)
    requires
        forall|i: int| 0 <= i < slashes.len() ==> #[trigger] slashes[i] == '/',
        name.len() > 0,
        !name.contains('/'),
    ensures
        path_pieces(slashes + name) == seq![name],
        path_pieces(slashes + name + seq!['/'] + rest) == seq![name] + text::split(rest, '/'),
{
    assert(name.contains(name[0]));
    assert(name.contains(name.last()));
    text::repeated_marks_around_go(slashes, name, Seq::empty(), '/');
    text::whole_text_is_not_cut(name, '/');
    let tail = name + seq!['/'] + rest;
    let whole = slashes + name + seq!['/'] + rest;
    text::marks_before_go(slashes, tail, '/');
    assert(slashes + tail =~= whole);
    text::sides_split_on_their_own(name, rest, '/');
}

} // verus!
