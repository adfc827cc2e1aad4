//! Headers, and the outside crate that holds them.

use crate::text;
use vstd::prelude::*;

verus! {

/// The outside type `http::HeaderMap`.
#[verifier::external_type_specification]
#[verifier::external_body]
#[verifier::reject_recursive_types(T)]
pub struct ExHeaderMap<T>(http::HeaderMap<T>);

/// The outside type `http::HeaderValue`.
#[verifier::external_type_specification]
#[verifier::external_body]
pub struct ExHeaderValue(http::HeaderValue);

/// The headers that an `http::HeaderMap` holds: for each name its values, in the
/// order in which they were added.
pub uninterp spec fn held(headers: http::HeaderMap<http::HeaderValue>) -> Map<
    Seq<char>,
    Seq<Seq<u8>>,
>;

/// How many names an `http::HeaderMap` takes whatever they are. Above that it
/// depends on how their hashes fall whether it takes one more.
pub const SURE_HEADER_NAMES: usize = 6553;

/// No headers.
pub open spec fn no_headers() -> Map<Seq<char>, Seq<Seq<u8>>> {
    Map::empty()
}

/// The headers with one more value.
pub open spec fn with_header(
    headers: Map<Seq<char>, Seq<Seq<u8>>>,
    name: Seq<char>,
    value: Seq<u8>,
) -> Map<Seq<char>, Seq<Seq<u8>>> {
    if headers.contains_key(name) {
        headers.insert(name, headers[name].push(value))
    } else {
        headers.insert(name, seq![value])
    }
}

/// Whether a character may stand in a token.
pub open spec fn is_token_char(c: char) -> bool {
    ||| 'a' <= c <= 'z'
    ||| 'A' <= c <= 'Z'
    ||| '0' <= c <= '9'
    ||| c == '!' || c == '#' || c == '$' || c == '%' || c == '&' || c == '\'' || c == '*' || c
        == '+' || c == '-' || c == '.' || c == '^' || c == '_' || c == '`' || c == '|' || c == '~'
}

/// Whether a text is a token.
pub open spec fn is_token(text: Seq<char>) -> bool {
    text.len() > 0 && forall|i: int| 0 <= i < text.len() ==> is_token_char(#[trigger] text[i])
}

/// Whether a text is the name of a header: a token that is not too long.
pub open spec fn is_header_name(text: Seq<char>) -> bool {
    is_token(text) && text.len() <= 65535
}

/// A text in small letters.
pub open spec fn lowered(text: Seq<char>) -> Seq<char> {
    text.map_values(|c: char| text::ascii_lower(c))
}

/// Whether a byte may stand in the value of a header.
pub open spec fn is_value_byte(byte: u8) -> bool {
    byte == 9 || (32 <= byte && byte != 127)
}

/// Whether bytes are the value of a header.
pub open spec fn is_header_value(bytes: Seq<u8>) -> bool {
    forall|i: int| 0 <= i < bytes.len() ==> is_value_byte(#[trigger] bytes[i])
}

/// `str::parse` for `http::Method`: any token is a method, and nothing else is.
/// The method is the token as it stands.
#[verifier::external_body]
pub(crate) fn parse_method(text: &str) -> (method: Option<String>)
    ensures
        method is Some <==> is_token(text@),
        method is Some ==> method->0@ == text@,
{
    text.parse::<http::Method>().ok().map(|method| method.as_str().to_owned())
}

/// The path of the URI that a text is, where it is one.
pub uninterp spec fn uri_path(text: Seq<char>) -> Option<Seq<char>>;

/// `str::parse` for `http::Uri`, and `http::Uri::path` on the result. Both are
/// functions of the text alone; which texts are URIs and what their paths are is
/// left to the name `uri_path`.
#[verifier::external_body]
pub(crate) fn parse_uri_path(text: &str) -> (path: Option<String>)
    ensures
        match path {
            Some(found) => uri_path(text@) == Some(found@),
            None => uri_path(text@) is None,
        },
{
    text.parse::<http::Uri>().ok().map(|uri| uri.path().to_owned())
}

/// `str::parse` for `http::HeaderName`: a token of at most 65535 characters,
/// taken in small letters.
#[verifier::external_body]
pub(crate) fn parse_header_name(text: &str) -> (name: Option<String>)
    ensures
        name is Some <==> is_header_name(text@),
        name is Some ==> name->0@ == lowered(text@),
{
    text.parse::<http::HeaderName>().ok().map(|name| name.as_str().to_owned())
}

/// `str::parse` for `http::HeaderValue`: any text whose UTF-8 bytes may all stand
/// in the value of a header. The value is these bytes.
#[verifier::external_body]
pub(crate) fn parse_header_value(text: &str) -> (value: Option<Vec<u8>>)
    ensures
        value is Some <==> is_header_value(vstd::utf8::encode_utf8(text@)),
        value is Some ==> value->0@ == vstd::utf8::encode_utf8(text@),
{
    text.parse::<http::HeaderValue>().ok().map(|value| value.as_bytes().to_vec())
}

/// `http::HeaderMap::new`: no headers.
#[verifier::external_body]
pub(crate) fn new_headers() -> (headers: http::HeaderMap<http::HeaderValue>)
    ensures
        held(headers) == no_headers(),
{
    http::HeaderMap::new()
}

/// `http::HeaderMap::append`: the value is added behind those that the name
/// already has. It panics where the map takes no more names, which cannot happen
/// up to the given number.
#[verifier::external_body]
pub(crate) fn add_header(
    headers: &mut http::HeaderMap<http::HeaderValue>,
    name: &str,
    value: &Vec<u8>,
)
    requires
        is_header_name(name@),
        is_header_value(value@),
        held(*old(headers)).dom().finite(),
        held(*old(headers)).dom().len() <= SURE_HEADER_NAMES,
    ensures
        held(*final(headers)) == with_header(held(*old(headers)), lowered(name@), value@),
{
    let name = http::HeaderName::from_bytes(name.as_bytes()).unwrap();
    let value = http::HeaderValue::from_bytes(value).unwrap();
    headers.append(name, value);
}

/// The values that a list of headers has for a name, in order.
pub open spec fn values_for(list: Seq<(Seq<char>, Seq<u8>)>, name: Seq<char>) -> Seq<Seq<u8>>
    decreases list.len(),
{
    if list.len() == 0 {
        Seq::empty()
    } else if list.last().0 == name {
        values_for(list.drop_last(), name).push(list.last().1)
    } else {
        values_for(list.drop_last(), name)
    }
}

/// The contents of a list of headers.
pub open spec fn header_list(list: Seq<(String, Vec<u8>)>) -> Seq<(Seq<char>, Seq<u8>)> {
    Seq::new(list.len(), |i: int| (list[i].0@, list[i].1@))
}

/// Whether a list holds exactly the given headers, the values of each name in
/// order. Nothing is said of the order of the names.
pub open spec fn lists(
    headers: Map<Seq<char>, Seq<Seq<u8>>>,
    list: Seq<(Seq<char>, Seq<u8>)>,
) -> bool {
    forall|name: Seq<char>| #[trigger]
        values_for(list, name) == (if headers.contains_key(name) {
            headers[name]
        } else {
            Seq::empty()
        })
}

/// `http::HeaderMap::iter`: every name with each of its values, the values of
/// one name in the order in which they were added. The order of the names is
/// open.
#[verifier::external_body]
pub(crate) fn list_headers(headers: &http::HeaderMap<http::HeaderValue>) -> (list: Vec<
    (String, Vec<u8>),
>)
    ensures
        lists(held(*headers), header_list(list@)),
{
    headers.iter().map(|(name, value)| (name.as_str().to_owned(), value.as_bytes().to_vec())).collect()
}

/// A token is made of the visible ASCII characters without the separators.
pub proof fn tokens_hold_no_separators(c: char)
    ensures
        is_token_char(c) <==> {
            let code = c as u32;
            33 <= code <= 126 && c != '"' && c != '(' && c != ')' && c != ',' && c != '/' && c != ':'
                && c != ';' && c != '<' && c != '=' && c != '>' && c != '?' && c != '@' && c != '['
                && c != '\\' && c != ']' && c != '{' && c != '}'
        },
{
}

/// A header name is a token of at most sixty-four kilobytes, and a value holds no
/// control character but the tab.
pub proof fn names_are_tokens_and_values_are_printable(text: Seq<char>, bytes: Seq<u8>)
    ensures
        is_header_name(text) <==> 0 < text.len() < 65536 && forall|i: int|
            0 <= i < text.len() ==> is_token_char(#[trigger] text[i]),
        is_token(text) <==> text.len() > 0 && forall|i: int|
            0 <= i < text.len() ==> is_token_char(#[trigger] text[i]),
        is_header_value(bytes) <==> forall|i: int|
            0 <= i < bytes.len() ==> (#[trigger] bytes[i] >= 32 || bytes[i] == 9) && bytes[i]
                != 127,
{
    if is_header_value(bytes) {
        assert forall|i: int| 0 <= i < bytes.len() implies (#[trigger] bytes[i] >= 32 || bytes[i]
            == 9) && bytes[i] != 127 by {
            assert(is_value_byte(bytes[i]));
        }
    }
}

/// A header is put behind the values that its name has already, and no other name
/// changes. A name counts without regard to capitals.
pub proof fn header_is_put_behind_its_like(
    headers: Map<Seq<char>, Seq<Seq<u8>>>,
    name: Seq<char>,
    value: Seq<u8>,
    other: Seq<char>,
    i: int,
)
    ensures
        ({
            let after = with_header(headers, name, value);
            &&& after.contains_key(name)
            &&& headers.contains_key(name) ==> after[name] == headers[name].push(value)
            &&& !headers.contains_key(name) ==> after[name] == seq![value]
            &&& other != name ==> (after.contains_key(other) <==> headers.contains_key(other))
            &&& other != name ==> after[other] == headers[other]
        }),
        lowered(name).len() == name.len(),
        0 <= i < name.len() ==> {
            &&& 'A' <= name[i] <= 'Z' ==> lowered(name)[i] as int == name[i] as int + 32
            &&& !('A' <= name[i] <= 'Z') ==> lowered(name)[i] == name[i]
        },
{
}

/// The values of a name are those that are listed under it, in order.
pub proof fn values_are_listed_under_their_name(
    list: Seq<(Seq<char>, Seq<u8>)>,
    name: Seq<char>,
    value: Seq<u8>,
    other: Seq<char>,
)
    ensures
        values_for(Seq::empty(), name).len() == 0,
        values_for(list.push((name, value)), name) == values_for(list, name).push(value),
        other != name ==> values_for(list.push((name, value)), other) == values_for(list, other),
{
    assert(list.push((name, value)).drop_last() =~= list);
}

} // verus!
