//! Requests: their head as the HTTP parser reads it, and what is taken from it.

use vstd::prelude::*;
use vstd::utf8::{
    decode_utf8, decode_utf8_encode_utf8, encode_utf8, encode_utf8_decode_utf8,
    encode_utf8_valid_utf8, is_ascii_chars, is_ascii_chars_encode_utf8, valid_utf8,
};

use crate::number::{parse_unsigned, unsigned_value, without_plus};
use crate::text::{
    before, chars_of, equal_ignoring_ascii_case, find, lemma_before_at, lemma_before_is_prefix,
    same_ignoring_ascii_case,
};

verus! {

/// How many headers a request may have.
pub const MAX_HEADERS: usize = 32;

/// A header: its name and its value.
pub struct Header {
    pub name: String,
    pub value: Vec<u8>,
}

/// What a [`Header`] holds.
pub struct HeaderView {
    pub name: Seq<char>,
    pub value: Seq<u8>,
}

impl View for Header {
    type V = HeaderView;

    open spec fn view(&self) -> HeaderView {
        HeaderView { name: self.name@, value: self.value@ }
    }
}

/// The head of a request.
pub struct Head {
    /// The number of bytes in front of the body.
    pub len: usize,
    pub method: Option<String>,
    pub path: Option<String>,
    pub headers: Vec<Header>,
}

/// What a [`Head`] holds.
pub struct HeadView {
    pub len: nat,
    pub method: Option<Seq<char>>,
    pub path: Option<Seq<char>>,
    pub headers: Seq<HeaderView>,
}

/// The text of an optional string.
pub open spec fn text_of(s: Option<String>) -> Option<Seq<char>> {
    match s {
        Some(s) => Some(s@),
        None => None,
    }
}

/// The contents of a list of headers.
pub open spec fn header_views(headers: Seq<Header>) -> Seq<HeaderView> {
    headers.map_values(|header: Header| header@)
}

impl View for Head {
    type V = HeadView;

    open spec fn view(&self) -> HeadView {
        HeadView {
            len: self.len as nat,
            method: text_of(self.method),
            path: text_of(self.path),
            headers: header_views(self.headers@),
        }
    }
}

/// What the bytes of a request turn out to be.
pub enum Parsed {
    /// A complete head.
    Complete(Head),
    /// The beginning of a head.
    Partial,
    /// No head.
    Invalid,
}

/// What a [`Parsed`] holds.
pub enum ParsedView {
    Complete(HeadView),
    Partial,
    Invalid,
}

impl View for Parsed {
    type V = ParsedView;

    open spec fn view(&self) -> ParsedView {
        match self {
            Parsed::Complete(head) => ParsedView::Complete(head@),
            Parsed::Partial => ParsedView::Partial,
            Parsed::Invalid => ParsedView::Invalid,
        }
    }
}

/// The request head that `httparse` finds in `bytes`, with room for `max_headers` headers.
pub uninterp spec fn parsed_head(bytes: Seq<u8>, max_headers: nat) -> ParsedView;

/// Reads the head of a request.
///
/// Calls `httparse::Request::parse`. Its result depends on the bytes and on the room for
/// headers alone. A complete head is no longer than the bytes, has its method and its path, and
/// has at most as many headers as there is room for.
#[verifier::external_body]
pub(crate) fn parse_head(bytes: &[u8], max_headers: usize) -> (parsed: Parsed)
    requires
        max_headers <= MAX_HEADERS,
    ensures
        parsed@ == parsed_head(bytes@, max_headers as nat),
        parsed@ matches ParsedView::Complete(head) ==> {
            &&& head.len <= bytes@.len()
            &&& head.method is Some
            &&& head.path is Some
            &&& head.headers.len() <= max_headers
        },
{
    let mut room = vec![httparse::EMPTY_HEADER; max_headers];
    let mut request = httparse::Request::new(&mut room);
    match request.parse(bytes) {
        Ok(httparse::Status::Complete(len)) => Parsed::Complete(Head {
            len,
            method: request.method.map(|method| method.to_owned()),
            path: request.path.map(|path| path.to_owned()),
            headers: request.headers.iter().map(|header| Header {
                name: header.name.to_owned(),
                value: header.value.to_owned(),
            }).collect(),
        }),
        Ok(httparse::Status::Partial) => Parsed::Partial,
        Err(_) => Parsed::Invalid,
    }
}

/// A path without its query and without one slash at its end.
pub open spec fn normalized(path: Seq<char>) -> Seq<char> {
    let bare = before(path, '?');
    if bare.len() > 0 && bare.last() == '/' {
        bare.drop_last()
    } else {
        bare
    }
}

/// A query does not count.
pub proof fn law_query_is_ignored(path: Seq<char>, query: Seq<char>)
    ensures
        normalized(path + seq!['?'] + query) == normalized(path),
{
    let whole = path + seq!['?'] + query;
    lemma_before_is_prefix(path, '?');
    let i = before(path, '?').len() as int;
    assert forall|j: int| 0 <= j < i implies whole[j] != '?' by {
        assert(whole[j] == before(path, '?')[j]);
    }
    assert(whole[i] == '?');
    lemma_before_at(whole, '?', i);
    assert(whole.take(i) == before(path, '?'));
}

/// One slash at the end of a path does not count, and nothing else is taken off a path without
/// a query.
pub proof fn law_one_trailing_slash_is_ignored(path: Seq<char>)
    requires
        !path.contains('?'),
    ensures
        normalized(path.push('/')) == path,
        path.len() == 0 || path.last() != '/' ==> normalized(path) == path,
{
    let slashed = path.push('/');
    lemma_before_at(path, '?', path.len() as int);
    assert forall|j: int| 0 <= j < slashed.len() implies slashed[j] != '?' by {
        if j < path.len() {
            assert(slashed[j] == path[j]);
        }
    }
    lemma_before_at(slashed, '?', slashed.len() as int);
    assert(path.take(path.len() as int) == path);
    assert(slashed.take(slashed.len() as int) == slashed);
    assert(slashed.drop_last() == path);
}

/// Takes the query and one slash at the end off a path.
pub fn normalize_path(path: &str) -> (bare: &str)
    ensures
        bare@ == normalized(path@),
{
    let chars = chars_of(path);
    let end = find(&chars, 0, '?');
    proof {
        assert(chars@.skip(0) == chars@);
        lemma_before_is_prefix(chars@, '?');
    }
    if end > 0 && chars[end - 1] == '/' {
        let bare = path.substring_char(0, end - 1);
        assert(bare@ == before(path@, '?').drop_last());
        bare
    } else {
        path.substring_char(0, end)
    }
}

/// Bytes as the characters with the same numbers.
spec fn byte_chars(bytes: Seq<u8>) -> Seq<char> {
    bytes.map_values(|b: u8| b as char)
}

/// The number that a header value writes in UTF-8.
pub open spec fn number_in(value: Seq<u8>) -> Option<nat> {
    if valid_utf8(value) {
        unsigned_value(decode_utf8(value), usize::MAX as nat)
    } else {
        None
    }
}

/// The length that the first `Content-Length` header gives; zero where there is none, or where
/// it is not a number.
pub open spec fn body_length(headers: Seq<HeaderView>) -> nat
    decreases headers.len(),
{
    if headers.len() == 0 {
        0
    } else if same_ignoring_ascii_case(headers[0].name, "Content-Length"@) {
        match number_in(headers[0].value) {
            Some(length) => length,
            None => 0,
        }
    } else {
        body_length(headers.drop_first())
    }
}

/// A number in UTF-8 can be read byte by byte: it holds ASCII characters only, and bytes that are
/// not UTF-8 hold others.
proof fn lemma_number_in_bytes(value: Seq<u8>)
    ensures
        unsigned_value(byte_chars(value), usize::MAX as nat) == number_in(value),
{
    let max = usize::MAX as nat;
    let chars = byte_chars(value);
    if is_ascii_chars(chars) {
        is_ascii_chars_encode_utf8(chars);
        assert forall|i: int| 0 <= i < value.len() implies #[trigger] value[i] == encode_utf8(
            chars,
        )[i] by {
            assert(chars[i] as u8 == value[i]);
        }
        assert(encode_utf8(chars) == value);
        encode_utf8_valid_utf8(chars);
        encode_utf8_decode_utf8(chars);
    } else {
        lemma_numbers_are_ascii(chars, max);
        if valid_utf8(value) {
            let text = decode_utf8(value);
            lemma_numbers_are_ascii(text, max);
            decode_utf8_encode_utf8(value);
            if is_ascii_chars(text) {
                is_ascii_chars_encode_utf8(text);
                assert forall|i: int| 0 <= i < chars.len() implies '\0' <= #[trigger] chars[i]
                    <= '\u{7f}' by {
                    assert(text[i] as u8 == value[i]);
                }
            }
        }
    }
}

/// What reads as a number holds ASCII characters only.
proof fn lemma_numbers_are_ascii(s: Seq<char>, max: nat)
    ensures
        unsigned_value(s, max) is Some ==> is_ascii_chars(s),
{
    let digits = without_plus(s);
    if unsigned_value(s, max) is Some {
        assert forall|i: int| 0 <= i < s.len() implies '\0' <= #[trigger] s[i] <= '\u{7f}' by {
            if digits.len() == s.len() {
                assert(digits[i] == s[i]);
            } else if i > 0 {
                assert(digits[i - 1] == s[i]);
            }
        }
    }
}

/// The characters with the numbers of the bytes.
fn chars_of_bytes(bytes: &Vec<u8>) -> (chars: Vec<char>)
    ensures
        chars@ == byte_chars(bytes@),
{
    let mut chars: Vec<char> = Vec::new();
    for i in 0..bytes.len()
        invariant
            chars@ == byte_chars(bytes@.take(i as int)),
    {
        chars.push(bytes[i] as char);
        assert(byte_chars(bytes@.take(i + 1)) == byte_chars(bytes@.take(i as int)).push(
            bytes@[i as int] as char,
        ));
    }
    assert(bytes@.take(bytes@.len() as int) == bytes@);
    chars
}

/// The length of the body that the headers announce.
pub fn content_length(headers: &Vec<Header>) -> (length: usize)
    ensures
        length == body_length(header_views(headers@)),
        forall|i: int|
            0 <= i < headers@.len() && same_ignoring_ascii_case(
                (#[trigger] headers@[i]).name@,
                "Content-Length"@,
            ) && (forall|j: int|
                0 <= j < i ==> !same_ignoring_ascii_case(
                    (#[trigger] headers@[j]).name@,
                    "Content-Length"@,
                )) ==> length == match number_in(headers@[i].value@) {
                Some(n) => n,
                None => 0,
            },
{
    proof {
        lemma_content_length_fields(headers@);
    }
    let ghost all = header_views(headers@);
    assert(all.skip(0) == all);
    for i in 0..headers.len()
        invariant
            all == header_views(headers@),
            body_length(all) == body_length(all.skip(i as int)),
    {
        assert(all.skip(i as int)[0] == headers@[i as int]@);
        assert(all.skip(i as int).drop_first() == all.skip(i + 1));
        if equal_ignoring_ascii_case(headers[i].name.as_str(), "Content-Length") {
            proof {
                lemma_number_in_bytes(headers@[i as int].value@);
                lemma_content_length_fields(headers@);
            }
            return match parse_unsigned(&chars_of_bytes(&headers[i].value), usize::MAX) {
                Some(length) => length,
                None => 0,
            };
        }
    }
    0
}

/// The length of the body is what the first header named `Content-Length` writes, whatever
/// headers stand in front of it and behind it, and zero where it writes no number. Names are the
/// same up to the case of ASCII letters, and a number is written in UTF-8.
pub proof fn law_first_content_length_counts(headers: Seq<HeaderView>, i: int)
    requires
        0 <= i < headers.len(),
        same_ignoring_ascii_case(headers[i].name, "Content-Length"@),
        forall|j: int|
            0 <= j < i ==> !same_ignoring_ascii_case(
                (#[trigger] headers[j]).name,
                "Content-Length"@,
            ),
    ensures
        valid_utf8(headers[i].value) ==> {
            let written = unsigned_value(decode_utf8(headers[i].value), usize::MAX as nat);
            &&& written is Some ==> body_length(headers) == written->0
            &&& written is None ==> body_length(headers) == 0
        },
        !valid_utf8(headers[i].value) ==> body_length(headers) == 0,
    decreases headers.len(),
{
    if i > 0 {
        assert(!same_ignoring_ascii_case(headers[0].name, "Content-Length"@));
        let rest = headers.drop_first();
        assert(rest[i - 1] == headers[i]);
        assert forall|j: int| 0 <= j < i - 1 implies !same_ignoring_ascii_case(
            (#[trigger] rest[j]).name,
            "Content-Length"@,
        ) by {
            assert(rest[j] == headers[j + 1]);
        }
        law_first_content_length_counts(rest, i - 1);
    }
}

/// Without a header named `Content-Length` there is no body.
pub proof fn law_no_content_length_no_body(headers: Seq<HeaderView>)
    requires
        forall|j: int|
            0 <= j < headers.len() ==> !same_ignoring_ascii_case(
                (#[trigger] headers[j]).name,
                "Content-Length"@,
            ),
    ensures
        body_length(headers) == 0,
    decreases headers.len(),
{
    if headers.len() > 0 {
        assert(!same_ignoring_ascii_case(headers[0].name, "Content-Length"@));
        let rest = headers.drop_first();
        assert forall|j: int| 0 <= j < rest.len() implies !same_ignoring_ascii_case(
            (#[trigger] rest[j]).name,
            "Content-Length"@,
        ) by {
            assert(rest[j] == headers[j + 1]);
        }
        law_no_content_length_no_body(rest);
    }
}

/// A header of another name does not count, wherever it stands.
pub proof fn law_other_headers_do_not_count(
    front: Seq<HeaderView>,
    other: HeaderView,
    back: Seq<HeaderView>,
)
    requires
        !same_ignoring_ascii_case(other.name, "Content-Length"@),
    ensures
        body_length(front + seq![other] + back) == body_length(front + back),
    decreases front.len(),
{
    let whole = front + seq![other] + back;
    if front.len() == 0 {
        assert(whole.drop_first() == back);
        assert(front + back == back);
        assert(whole[0] == other);
    } else {
        assert(whole.drop_first() == front.drop_first() + seq![other] + back);
        assert((front + back).drop_first() == front.drop_first() + back);
        assert(whole[0] == front[0]);
        assert((front + back)[0] == front[0]);
        law_other_headers_do_not_count(front.drop_first(), other, back);
    }
}

/// What the first `Content-Length` header gives, over the headers themselves.
proof fn lemma_content_length_fields(headers: Seq<Header>)
    ensures
        forall|i: int|
            0 <= i < headers.len() && same_ignoring_ascii_case(
                (#[trigger] headers[i]).name@,
                "Content-Length"@,
            ) && (forall|j: int|
                0 <= j < i ==> !same_ignoring_ascii_case(
                    (#[trigger] headers[j]).name@,
                    "Content-Length"@,
                )) ==> body_length(header_views(headers)) == match number_in(headers[i].value@) {
                Some(n) => n,
                None => 0,
            },
{
    let all = header_views(headers);
    assert forall|i: int|
        0 <= i < headers.len() && same_ignoring_ascii_case(
            (#[trigger] headers[i]).name@,
            "Content-Length"@,
        ) && (forall|j: int|
            0 <= j < i ==> !same_ignoring_ascii_case(
                (#[trigger] headers[j]).name@,
                "Content-Length"@,
            )) implies body_length(all) == match number_in(headers[i].value@) {
        Some(n) => n,
        None => 0,
    } by {
        assert(all[i] == headers[i]@);
        assert forall|j: int| 0 <= j < i implies !same_ignoring_ascii_case(
            (#[trigger] all[j]).name,
            "Content-Length"@,
        ) by {
            assert(all[j] == headers[j]@);
        }
        law_first_content_length_counts(all, i);
    }
}

} // verus!
