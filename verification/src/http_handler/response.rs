//! Responses, written as text.

use crate::http_handler::error::{buffer_error, HandlerErrorView, NinoverseHttpHandlerError};
use crate::http_handler::headers::list_headers;
use crate::http_handler::headers;
use crate::numbers::format_u64;
use crate::numbers;
use crate::text::{cat3, cat4};
use crate::text;
use vstd::prelude::*;

verus! {

/// Whether a byte of a header value can be shown.
pub open spec fn is_visible(byte: u8) -> bool {
    byte == 9 || 32 <= byte < 127
}

/// The text of a header value, where all of it can be shown.
pub open spec fn visible_text(value: Seq<u8>) -> Option<Seq<char>> {
    if forall|i: int| 0 <= i < value.len() ==> is_visible(#[trigger] value[i]) {
        Some(value.map_values(|byte: u8| byte as char))
    } else {
        None
    }
}

/// The lines of a list of headers, up to the first whose value cannot be shown.
pub open spec fn header_lines(list: Seq<(Seq<char>, Seq<u8>)>) -> Option<Seq<char>>
    decreases list.len(),
{
    if list.len() == 0 {
        Some(Seq::empty())
    } else {
        match (header_lines(list.drop_last()), visible_text(list.last().1)) {
            (Some(before), Some(value)) => Some(
                before + (list.last().0 + ": "@ + value + "\r\n"@),
            ),
            _ => None,
        }
    }
}

/// A response with the given headers in their order, and with the text of its
/// body where that could be written.
pub open spec fn response_text(
    status: u16,
    list: Seq<(Seq<char>, Seq<u8>)>,
    body: Option<Seq<char>>,
) -> Result<Seq<char>, HandlerErrorView> {
    match header_lines(list) {
        None => Err(HandlerErrorView::BufferError("Converting header value to &str."@)),
        Some(lines) => match body {
            None => Err(HandlerErrorView::BufferError("Serializing body with serde_json."@)),
            Some(text) => Ok(
                "HTTP/1.1 "@ + numbers::digits(status as nat) + "\r\n"@ + (lines + "\r\n"@ + text),
            ),
        },
    }
}

/// The text of a header value, where all of it can be shown.
fn show_value(value: &Vec<u8>) -> (shown: Option<String>)
    ensures
        text::opt_text(shown) == visible_text(value@),
{
    let mut text = String::new();
    let mut i: usize = 0;
    while i < value.len()
        invariant
            i <= value@.len(),
            text@.len() == i,
            forall|j: int| 0 <= j < i ==> is_visible(#[trigger] value@[j]),
            forall|j: int| 0 <= j < i ==> text@[j] == value@[j] as char,
        decreases value@.len() - i,
    {
        let byte = value[i];
        if byte != 9 && (byte < 32 || byte >= 127) {
            assert(!is_visible(value@[i as int]));
            return None;
        }
        text.push(byte as char);
        i += 1;
    }
    assert(text@ =~= value@.map_values(|byte: u8| byte as char));
    Some(text)
}

proof fn lemma_header_lines_prefix(list: Seq<(Seq<char>, Seq<u8>)>, upto: int)
    requires
        0 <= upto <= list.len(),
        header_lines(list.take(upto)) is None,
    ensures
        header_lines(list) is None,
    decreases list.len() - upto,
{
    if upto == list.len() {
        assert(list.take(upto) =~= list);
    } else {
        assert(list.take(upto + 1).drop_last() =~= list.take(upto));
        lemma_header_lines_prefix(list, upto + 1);
    }
}

/// Writes a response with the given headers, in their order.
pub fn write_response(
    status: u16,
    list: &Vec<(String, Vec<u8>)>,
    body: Option<String>,
) -> (result: Result<String, NinoverseHttpHandlerError>)
    ensures
        match result {
            Ok(text) => response_text(status, headers::header_list(list@), text::opt_text(body)) == Ok::<
                Seq<char>,
                HandlerErrorView,
            >(text@),
            Err(error) => response_text(status, headers::header_list(list@), text::opt_text(body)) == Err::<
                Seq<char>,
                HandlerErrorView,
            >(error@),
        },
{
    let ghost all = headers::header_list(list@);
    let mut lines = String::new();
    let mut i: usize = 0;
    while i < list.len()
        invariant
            i <= list@.len(),
            all == headers::header_list(list@),
            header_lines(all.take(i as int)) == Some(lines@),
        decreases list@.len() - i,
    {
        assert(all.take(i + 1).drop_last() =~= all.take(i as int));
        assert(all.take(i + 1).last() == (list@[i as int].0@, list@[i as int].1@));
        match show_value(&list[i].1) {
            Some(value) => {
                lines.append(&cat4(&list[i].0, ": ", &value, "\r\n"));
            },
            None => {
                proof {
                    lemma_header_lines_prefix(all, i + 1);
                }
                return Err(buffer_error("Converting header value to &str."));
            },
        }
        i += 1;
    }
    assert(all.take(i as int) =~= all);
    match body {
        None => Err(buffer_error("Serializing body with serde_json.")),
        Some(text) => Ok(
            cat4(
                "HTTP/1.1 ",
                &format_u64(status as u64),
                "\r\n",
                &cat3(&lines, "\r\n", &text),
            ),
        ),
    }
}

/// Writes a response: the status line, the headers, an empty line and the body.
/// The headers stand in the order in which the map gives them out, which is
/// open but for the values of one name.
pub fn response_to_string(
    status: u16,
    headers: &http::HeaderMap<http::HeaderValue>,
    body: Option<String>,
) -> (result: Result<String, NinoverseHttpHandlerError>)
    ensures
        exists|list: Seq<(Seq<char>, Seq<u8>)>| #[trigger]
            headers::lists(headers::held(*headers), list) && match result {
                Ok(text) => response_text(status, list, text::opt_text(body)) == Ok::<
                    Seq<char>,
                    HandlerErrorView,
                >(text@),
                Err(error) => response_text(status, list, text::opt_text(body)) == Err::<
                    Seq<char>,
                    HandlerErrorView,
                >(error@),
            },
{
    let list = list_headers(headers);
    let result = write_response(status, &list, body);
    assert(headers::lists(headers::held(*headers), headers::header_list(list@)));
    result
}

/// A value can be shown where all its bytes are printable ASCII or tabs, and is
/// then shown character by character.
pub proof fn visible_values_are_shown_as_they_are(value: Seq<u8>)
    ensures
        visible_text(value) is Some <==> forall|i: int|
            0 <= i < value.len() ==> 32 <= #[trigger] value[i] <= 126 || value[i] == 9,
        visible_text(value) matches Some(shown) ==> shown.len() == value.len() && forall|i: int|
            0 <= i < value.len() ==> (#[trigger] shown[i]) as int == value[i] as int,
{
    if visible_text(value) is Some {
        assert forall|i: int| 0 <= i < value.len() implies 32 <= #[trigger] value[i] <= 126
            || value[i] == 9 by {
            assert(is_visible(value[i]));
        }
    }
}

/// The headers are written in order, each on a line; one that cannot be shown
/// keeps them all from being written.
pub proof fn headers_are_written_line_by_line(
    list: Seq<(Seq<char>, Seq<u8>)>,
    name: Seq<char>,
    value: Seq<u8>,
)
    ensures
        header_lines(Seq::empty()) == Some(Seq::<char>::empty()),
        header_lines(list) is Some && visible_text(value) is Some ==> header_lines(
            list.push((name, value)),
        ) == Some(header_lines(list)->0 + name + ": "@ + visible_text(value)->0 + "\r\n"@),
        header_lines(list) is None || visible_text(value) is None ==> header_lines(
            list.push((name, value)),
        ) is None,
{
    assert(list.push((name, value)).drop_last() =~= list);
    if header_lines(list) is Some && visible_text(value) is Some {
        assert(header_lines(list)->0 + (name + ": "@ + visible_text(value)->0 + "\r\n"@)
            =~= header_lines(list)->0 + name + ": "@ + visible_text(value)->0 + "\r\n"@);
    }
}

/// A response is its status line, its headers, an empty line and its body, in this
/// order; one whose headers or whose body cannot be written says which.
pub proof fn response_is_written_in_order(
    status: u16,
    list: Seq<(Seq<char>, Seq<u8>)>,
    lines: Seq<char>,
    body: Seq<char>,
)
    ensures
        header_lines(list) == Some(lines) ==> response_text(status, list, Some(body)) == Ok::<
            Seq<char>,
            HandlerErrorView,
        >(
            "HTTP/1.1 "@ + numbers::digits(status as nat) + "\r\n"@ + lines + "\r\n"@ + body,
        ),
        header_lines(list) == Some(lines) ==> response_text(status, list, None) == Err::<
            Seq<char>,
            HandlerErrorView,
        >(HandlerErrorView::BufferError("Serializing body with serde_json."@)),
        header_lines(list) is None ==> response_text(status, list, Some(body)) == Err::<
            Seq<char>,
            HandlerErrorView,
        >(HandlerErrorView::BufferError("Converting header value to &str."@)),
        header_lines(list) is None ==> response_text(status, list, None) == Err::<
            Seq<char>,
            HandlerErrorView,
        >(HandlerErrorView::BufferError("Converting header value to &str."@)),
{
    assert("HTTP/1.1 "@ + numbers::digits(status as nat) + "\r\n"@ + (lines + "\r\n"@ + body)
        =~= "HTTP/1.1 "@ + numbers::digits(status as nat) + "\r\n"@ + lines + "\r\n"@ + body);
}

} // verus!
