//! Where the status endpoint listens, as it is given on the command line.

use std::str::FromStr;

use vstd::prelude::*;

use crate::number::{
    all_digits, decimal, digits_value, law_number_is_digits_in_range,
    law_written_number_reads_back, lemma_decimal, lemma_digits_are_decimal, parse_unsigned,
    unsigned_value,
};
use crate::text::{
    before, chars_of, find, has_prefix, law_text_is_cut_at_separators, lemma_before_at,
    lemma_before_is_prefix, lemma_pieces_lack_separator, lemma_pieces_of_joined, pieces,
    same_chars, same_text, split, views,
};

verus! {

/// How the endpoint is reached.
#[derive(Clone, Copy, Debug, PartialEq, Eq, Structural)]
pub enum UriScheme {
    Tcp,
    Unix,
    Disabled,
}

impl Default for UriScheme {
    fn default() -> (scheme: Self)
        ensures
            scheme == UriScheme::Disabled,
    {
        UriScheme::Disabled
    }
}

/// Why a text is not the URI of an endpoint.
#[derive(Clone, Copy, Debug, PartialEq, Eq, Structural)]
pub enum UriError {
    /// The scheme is none of the known ones.
    Scheme,
    /// The text does not begin with a known scheme and `://`.
    SchemeInput,
    /// No path follows `unix://`.
    EmptyPath,
    /// What follows `tcp://` is not an address and a port with one colon between them.
    Format,
    /// The address is not an IPv4 address.
    Address,
    /// The port is not a number that a port can have.
    Port,
}

/// The scheme that `s` names.
pub open spec fn scheme_of(s: Seq<char>) -> Result<UriScheme, UriError> {
    if s == "tcp"@ {
        Ok(UriScheme::Tcp)
    } else if s == "unix"@ {
        Ok(UriScheme::Unix)
    } else if s == "none"@ {
        Ok(UriScheme::Disabled)
    } else {
        Err(UriError::Scheme)
    }
}

impl FromStr for UriScheme {
    type Err = UriError;

    fn from_str(s: &str) -> (scheme: Result<Self, UriError>)
        ensures
            scheme == scheme_of(s@),
            scheme == Ok::<UriScheme, UriError>(UriScheme::Tcp) <==> s@ == "tcp"@,
            scheme == Ok::<UriScheme, UriError>(UriScheme::Unix) <==> s@ == "unix"@,
            scheme == Ok::<UriScheme, UriError>(UriScheme::Disabled) <==> s@ == "none"@,
            scheme is Err ==> scheme->Err_0 == UriError::Scheme,
    {
        proof {
            lemma_schemes();
        }
        if same_text(s, "tcp") {
            Ok(UriScheme::Tcp)
        } else if same_text(s, "unix") {
            Ok(UriScheme::Unix)
        } else if same_text(s, "none") {
            Ok(UriScheme::Disabled)
        } else {
            Err(UriError::Scheme)
        }
    }
}

/// The message of each error.
pub open spec fn error_text(error: UriError) -> Seq<char> {
    match error {
        UriError::Scheme => "invalid scheme"@,
        UriError::SchemeInput => "invalid scheme input"@,
        UriError::EmptyPath => "empty unix socket path"@,
        UriError::Format => "restful URI formatted incorrectly"@,
        UriError::Address => "restful URI IP address formatted incorrectly"@,
        UriError::Port => "restful URI port number formatted incorrectly"@,
    }
}

impl UriError {
    /// The message of the error.
    pub fn to_string(&self) -> (message: String)
        ensures
            message@ == error_text(*self),
            self is Scheme ==> message@ == "invalid scheme"@,
            self is SchemeInput ==> message@ == "invalid scheme input"@,
            self is EmptyPath ==> message@ == "empty unix socket path"@,
            self is Format ==> message@ == "restful URI formatted incorrectly"@,
            self is Address ==> message@ == "restful URI IP address formatted incorrectly"@,
            self is Port ==> message@ == "restful URI port number formatted incorrectly"@,
    {
        let message = match self {
            UriError::Scheme => "invalid scheme",
            UriError::SchemeInput => "invalid scheme input",
            UriError::EmptyPath => "empty unix socket path",
            UriError::Format => "restful URI formatted incorrectly",
            UriError::Address => "restful URI IP address formatted incorrectly",
            UriError::Port => "restful URI port number formatted incorrectly",
        };
        message.to_owned()
    }
}

/// An IPv4 address: its four octets, the most significant first.
#[derive(Clone, Copy, Debug, PartialEq, Eq, Structural)]
pub struct Ipv4Addr(pub u8, pub u8, pub u8, pub u8);

impl Ipv4Addr {
    /// The address with these octets.
    pub fn new(a: u8, b: u8, c: u8, d: u8) -> (addr: Self)
        ensures
            addr == Ipv4Addr(a, b, c, d),
    {
        Ipv4Addr(a, b, c, d)
    }
}

/// The octet that `s` writes: up to three digits for at most 255, without a leading zero.
pub open spec fn octet_of(s: Seq<char>) -> Option<u8> {
    if 1 <= s.len() <= 3 && all_digits(s) && (s.len() == 1 || s[0] != '0') && digits_value(s)
        <= 255 {
        Some(digits_value(s) as u8)
    } else {
        None
    }
}

/// The address that `s` writes: four octets with dots between them.
pub open spec fn ipv4_of(s: Seq<char>) -> Option<Ipv4Addr> {
    let parts = pieces(s, '.');
    if parts.len() != 4 {
        None
    } else {
        match (octet_of(parts[0]), octet_of(parts[1]), octet_of(parts[2]), octet_of(parts[3])) {
            (Some(a), Some(b), Some(c), Some(d)) => Some(Ipv4Addr(a, b, c, d)),
            _ => None,
        }
    }
}

/// The text of an address.
pub open spec fn dotted(addr: Ipv4Addr) -> Seq<char> {
    decimal(addr.0 as nat) + seq!['.'] + (decimal(addr.1 as nat) + seq!['.'] + (decimal(
        addr.2 as nat,
    ) + seq!['.'] + decimal(addr.3 as nat)))
}

/// The host that an address part stands for: `localhost` is the loopback address.
pub open spec fn host_of(s: Seq<char>) -> Seq<char> {
    if s == "localhost"@ {
        "127.0.0.1"@
    } else {
        s
    }
}

/// The address and port that `s` writes, with one colon between them.
pub open spec fn tcp_of(s: Seq<char>) -> Result<(Ipv4Addr, u16), UriError> {
    let parts = pieces(s, ':');
    if parts.len() != 2 {
        Err(UriError::Format)
    } else {
        match (ipv4_of(host_of(parts[0])), unsigned_value(parts[1], u16::MAX as nat)) {
            (None, _) => Err(UriError::Address),
            (Some(_), None) => Err(UriError::Port),
            (Some(addr), Some(port)) => Ok((addr, port as u16)),
        }
    }
}

/// Reads one octet of an address.
fn parse_octet(chars: &Vec<char>) -> (octet: Option<u8>)
    ensures
        octet == octet_of(chars@),
{
    if chars.len() < 1 || 3 < chars.len() {
        return None;
    }
    if chars[0] == '+' || (chars.len() > 1 && chars[0] == '0') {
        return None;
    }
    match parse_unsigned(chars, 255) {
        Some(value) => Some(value as u8),
        None => None,
    }
}

/// Reads an address in dotted decimal notation.
fn parse_ipv4(chars: &Vec<char>) -> (addr: Option<Ipv4Addr>)
    ensures
        addr == ipv4_of(chars@),
{
    let parts = split(chars, '.');
    assert(parts@.len() == views(parts@).len());
    if parts.len() != 4 {
        return None;
    }
    assert forall|i: int| 0 <= i < 4 implies views(parts@)[i] == #[trigger] parts@[i]@ by {}
    match (
        parse_octet(&parts[0]),
        parse_octet(&parts[1]),
        parse_octet(&parts[2]),
        parse_octet(&parts[3]),
    ) {
        (Some(a), Some(b), Some(c), Some(d)) => Some(Ipv4Addr(a, b, c, d)),
        _ => None,
    }
}

/// Reads an address and a port.
pub fn parse_tcp_input(input: &str) -> (parsed: Result<(Ipv4Addr, u16), UriError>)
    ensures
        parsed == tcp_of(input@),
{
    let parts = split(&chars_of(input), ':');
    assert(parts@.len() == views(parts@).len());
    if parts.len() != 2 {
        return Err(UriError::Format);
    }
    assert(views(parts@)[0] == parts@[0]@);
    assert(views(parts@)[1] == parts@[1]@);
    // An IPv4 address in dotted decimal notation has no name for the loopback address.
    let addr = if same_chars(&parts[0], "localhost") {
        parse_ipv4(&chars_of("127.0.0.1"))
    } else {
        parse_ipv4(&parts[0])
    };
    match addr {
        None => Err(UriError::Address),
        Some(addr) => match parse_unsigned(&parts[1], 65535) {
            None => Err(UriError::Port),
            Some(port) => Ok((addr, port as u16)),
        },
    }
}

/// The endpoint on which requests for the state of the machine are answered.
#[derive(Debug, PartialEq)]
pub enum RestfulUri {
    /// A TCP socket.
    Tcp(Ipv4Addr, u16),
    /// A unix socket with this path.
    Unix(String),
    /// No endpoint.
    Disabled,
}

/// What a [`RestfulUri`] holds.
pub enum RestfulUriView {
    Tcp(Ipv4Addr, u16),
    Unix(Seq<char>),
    Disabled,
}

impl View for RestfulUri {
    type V = RestfulUriView;

    open spec fn view(&self) -> RestfulUriView {
        match self {
            RestfulUri::Tcp(addr, port) => RestfulUriView::Tcp(*addr, *port),
            RestfulUri::Unix(path) => RestfulUriView::Unix(path@),
            RestfulUri::Disabled => RestfulUriView::Disabled,
        }
    }
}

impl Clone for RestfulUri {
    fn clone(&self) -> (copy: Self)
        ensures
            copy == *self,
    {
        match self {
            RestfulUri::Tcp(addr, port) => RestfulUri::Tcp(*addr, *port),
            RestfulUri::Unix(path) => RestfulUri::Unix(path.clone()),
            RestfulUri::Disabled => RestfulUri::Disabled,
        }
    }
}

impl Default for RestfulUri {
    fn default() -> (uri: Self)
        ensures
            uri@ == RestfulUriView::Disabled,
    {
        RestfulUri::Disabled
    }
}

/// The scheme and the rest of the first line of `s`, where `s` begins with that scheme and `://`.
pub open spec fn captured(s: Seq<char>) -> Option<(Seq<char>, Seq<char>)> {
    if "none://"@.is_prefix_of(s) {
        Some(("none"@, before(s.skip(7), '\n')))
    } else if "tcp://"@.is_prefix_of(s) {
        Some(("tcp"@, before(s.skip(6), '\n')))
    } else if "unix://"@.is_prefix_of(s) {
        Some(("unix"@, before(s.skip(7), '\n')))
    } else {
        None
    }
}

/// The endpoint that a scheme and what follows it stand for.
pub open spec fn endpoint_of(scheme: UriScheme, value: Seq<char>) -> Result<
    RestfulUriView,
    UriError,
> {
    match scheme {
        UriScheme::Tcp => match tcp_of(value) {
            Ok((addr, port)) => Ok(RestfulUriView::Tcp(addr, port)),
            Err(error) => Err(error),
        },
        UriScheme::Unix => if value.len() == 0 {
            Err(UriError::EmptyPath)
        } else {
            Ok(RestfulUriView::Unix(value))
        },
        UriScheme::Disabled => Ok(RestfulUriView::Disabled),
    }
}

/// The endpoint that `s` writes.
pub open spec fn uri_of(s: Seq<char>) -> Result<RestfulUriView, UriError> {
    match captured(s) {
        None => Err(UriError::SchemeInput),
        Some((scheme, value)) => match scheme_of(scheme) {
            Err(error) => Err(error),
            Ok(scheme) => endpoint_of(scheme, value),
        },
    }
}

/// Takes `s` apart into its scheme and the rest of its first line.
fn capture(s: &str) -> (parts: Option<(&str, &str)>)
    ensures
        match parts {
            Some((scheme, value)) => captured(s@) == Some((scheme@, value@)),
            None => captured(s@) is None,
        },
{
    proof {
        reveal_strlit("none://");
        reveal_strlit("tcp://");
        reveal_strlit("unix://");
    }
    let chars = chars_of(s);
    let (scheme, start): (&str, usize) = if has_prefix(&chars, "none://") {
        ("none", 7)
    } else if has_prefix(&chars, "tcp://") {
        ("tcp", 6)
    } else if has_prefix(&chars, "unix://") {
        ("unix", 7)
    } else {
        return None;
    };
    let end = find(&chars, start, '\n');
    proof {
        lemma_before_is_prefix(chars@.skip(start as int), '\n');
    }
    let value = s.substring_char(start, end);
    assert(value@ == before(chars@.skip(start as int), '\n'));
    Some((scheme, value))
}

impl FromStr for RestfulUri {
    type Err = UriError;

    fn from_str(s: &str) -> (uri: Result<Self, UriError>)
        ensures
            match uri {
                Ok(uri) => uri_of(s@) == Ok::<RestfulUriView, UriError>(uri@),
                Err(error) => uri_of(s@) == Err::<RestfulUriView, UriError>(error),
            },
            match uri {
                Ok(RestfulUri::Tcp(addr, port)) => uri_of(s@) == Ok::<RestfulUriView, UriError>(
                    RestfulUriView::Tcp(addr, port),
                ),
                Ok(RestfulUri::Unix(path)) => uri_of(s@) == Ok::<RestfulUriView, UriError>(
                    RestfulUriView::Unix(path@),
                ),
                Ok(RestfulUri::Disabled) => uri_of(s@) == Ok::<RestfulUriView, UriError>(
                    RestfulUriView::Disabled,
                ),
                Err(error) => true,
            },
    {
        let (scheme, value) = match capture(s) {
            Some(parts) => parts,
            None => return Err(UriError::SchemeInput),
        };
        match UriScheme::from_str(scheme) {
            Err(error) => Err(error),
            Ok(UriScheme::Tcp) => match parse_tcp_input(value) {
                Ok((addr, port)) => Ok(RestfulUri::Tcp(addr, port)),
                Err(error) => Err(error),
            },
            Ok(UriScheme::Unix) => if value.is_empty() {
                Err(UriError::EmptyPath)
            } else {
                Ok(RestfulUri::Unix(value.to_owned()))
            },
            Ok(UriScheme::Disabled) => Ok(RestfulUri::Disabled),
        }
    }
}

/// An octet reads back from its decimal text, and from no other text.
proof fn lemma_octet(s: Seq<char>, octet: u8)
    ensures
        octet_of(s) == Some(octet) <==> s == decimal(octet as nat),
{
    lemma_decimal(octet as nat);
    if octet_of(s) == Some(octet) {
        lemma_digits_are_decimal(s);
    }
    if s == decimal(octet as nat) && s[0] == '0' {
        assert(s.len() == 1);
    }
}

/// The pieces of the text of an address are its octets.
proof fn lemma_dotted_pieces(addr: Ipv4Addr)
    ensures
        pieces(dotted(addr), '.') == seq![
            decimal(addr.0 as nat),
            decimal(addr.1 as nat),
            decimal(addr.2 as nat),
            decimal(addr.3 as nat),
        ],
        !dotted(addr).contains(':'),
{
    let a = decimal(addr.0 as nat);
    let b = decimal(addr.1 as nat);
    let c = decimal(addr.2 as nat);
    let d = decimal(addr.3 as nat);
    lemma_decimal(addr.0 as nat);
    lemma_decimal(addr.1 as nat);
    lemma_decimal(addr.2 as nat);
    lemma_decimal(addr.3 as nat);
    let last_two = c + seq!['.'] + d;
    let last_three = b + seq!['.'] + last_two;
    lemma_pieces_of_joined(c, d, '.');
    lemma_pieces_of_joined(b, last_two, '.');
    lemma_pieces_of_joined(a, last_three, '.');
    assert(pieces(d, '.') == seq![d]);
    assert(pieces(dotted(addr), '.') =~= seq![a, b, c, d]);
}

/// Putting the pieces together again gives the text back.
proof fn lemma_join_of_pieces(s: Seq<char>, c: char)
    requires
        pieces(s, c).len() > 1,
    ensures
        s == pieces(s, c)[0] + seq![c] + s.skip(pieces(s, c)[0].len() as int + 1),
        pieces(s, c).skip(1) == pieces(s.skip(pieces(s, c)[0].len() as int + 1), c),
{
    lemma_before_is_prefix(s, c);
    let first = before(s, c);
    let rest = s.skip(first.len() as int + 1);
    assert(pieces(s, c) == seq![first] + pieces(rest, c));
    assert(pieces(s, c).skip(1) == pieces(rest, c));
    assert(s == first + seq![c] + rest);
}

/// A text with one piece is that piece.
proof fn lemma_single_piece(s: Seq<char>, c: char)
    requires
        pieces(s, c).len() == 1,
    ensures
        pieces(s, c)[0] == s,
{
    if s.contains(c) {
        lemma_pieces_lack_separator(s.skip(before(s, c).len() as int + 1), c);
    }
}

/// An address reads back from its text in dotted decimal notation, and from no other text.
pub proof fn law_address_has_one_text(s: Seq<char>, addr: Ipv4Addr)
    ensures
        ipv4_of(s) == Some(addr) <==> s == dotted(addr),
        ipv4_of(s) == Some(addr) <==> s == decimal(addr.0 as nat) + seq!['.'] + decimal(
            addr.1 as nat,
        ) + seq!['.'] + decimal(addr.2 as nat) + seq!['.'] + decimal(addr.3 as nat),
{
    assert(dotted(addr) == decimal(addr.0 as nat) + seq!['.'] + decimal(addr.1 as nat) + seq!['.']
        + decimal(addr.2 as nat) + seq!['.'] + decimal(addr.3 as nat));
    lemma_dotted_pieces(addr);
    lemma_octet(decimal(addr.0 as nat), addr.0);
    lemma_octet(decimal(addr.1 as nat), addr.1);
    lemma_octet(decimal(addr.2 as nat), addr.2);
    lemma_octet(decimal(addr.3 as nat), addr.3);
    if ipv4_of(s) == Some(addr) {
        let parts = pieces(s, '.');
        lemma_octet(parts[0], addr.0);
        lemma_octet(parts[1], addr.1);
        lemma_octet(parts[2], addr.2);
        lemma_octet(parts[3], addr.3);
        let s1 = s.skip(parts[0].len() as int + 1);
        lemma_join_of_pieces(s, '.');
        assert(parts.skip(1)[0] == parts[1]);
        let s2 = s1.skip(parts[1].len() as int + 1);
        lemma_join_of_pieces(s1, '.');
        assert(pieces(s1, '.').skip(1)[0] == parts[2]);
        let s3 = s2.skip(parts[2].len() as int + 1);
        lemma_join_of_pieces(s2, '.');
        assert(pieces(s2, '.').skip(1)[0] == parts[3]);
        lemma_single_piece(s3, '.');
    }
}

/// What follows a scheme and `://` is captured up to the end of the line.
proof fn lemma_captured(value: Seq<char>)
    ensures
        captured("none://"@ + value) == Some(("none"@, before(value, '\n'))),
        captured("tcp://"@ + value) == Some(("tcp"@, before(value, '\n'))),
        captured("unix://"@ + value) == Some(("unix"@, before(value, '\n'))),
{
    reveal_strlit("none://");
    reveal_strlit("tcp://");
    reveal_strlit("unix://");
    let none = "none://"@ + value;
    let tcp = "tcp://"@ + value;
    let unix = "unix://"@ + value;
    assert(none.subrange(0, 7) == "none://"@);
    assert(none.skip(7) == value);
    assert(tcp[0] == 't');
    assert("none://"@[0] == 'n');
    if "none://"@.is_prefix_of(tcp) {
        assert(tcp.subrange(0, 7)[0] == 't');
    }
    assert(tcp.subrange(0, 6) == "tcp://"@);
    assert(tcp.skip(6) == value);
    assert(unix[0] == 'u');
    assert(unix.subrange(0, 7)[0] == 'u');
    assert(unix.subrange(0, 6)[0] == 'u');
    assert(!"none://"@.is_prefix_of(unix));
    assert(!"tcp://"@.is_prefix_of(unix));
    assert(unix.subrange(0, 7) == "unix://"@);
    assert(unix.skip(7) == value);
}

/// The names of the schemes.
proof fn lemma_schemes()
    ensures
        scheme_of("tcp"@) == Ok::<UriScheme, UriError>(UriScheme::Tcp),
        scheme_of("unix"@) == Ok::<UriScheme, UriError>(UriScheme::Unix),
        scheme_of("none"@) == Ok::<UriScheme, UriError>(UriScheme::Disabled),
{
    reveal_strlit("tcp");
    reveal_strlit("unix");
    reveal_strlit("none");
    assert("unix"@[0] == 'u');
    assert("none"@[0] == 'n');
}

/// Every address and port can be given: the URI that writes them reads back.
pub proof fn law_tcp_uri_reads_back(addr: Ipv4Addr, port: u16)
    ensures
        uri_of("tcp://"@ + (dotted(addr) + seq![':'] + decimal(port as nat))) == Ok::<
            RestfulUriView,
            UriError,
        >(RestfulUriView::Tcp(addr, port)),
{
    let value = dotted(addr) + seq![':'] + decimal(port as nat);
    lemma_dotted_pieces(addr);
    lemma_decimal(port as nat);
    lemma_pieces_of_joined(dotted(addr), decimal(port as nat), ':');
    assert(pieces(decimal(port as nat), ':') == seq![decimal(port as nat)]);
    assert(pieces(value, ':') =~= seq![dotted(addr), decimal(port as nat)]);
    law_address_has_one_text(dotted(addr), addr);
    law_written_number_reads_back(port as nat, u16::MAX as nat);
    reveal_strlit("localhost");
    if dotted(addr) == "localhost"@ {
        lemma_decimal(addr.0 as nat);
        assert(dotted(addr)[0] == decimal(addr.0 as nat)[0]);
        assert("localhost"@[0] == 'l');
    }
    assert(!value.contains('\n')) by {
        lemma_decimal(addr.0 as nat);
        lemma_decimal(addr.1 as nat);
        lemma_decimal(addr.2 as nat);
        lemma_decimal(addr.3 as nat);
    }
    lemma_captured(value);
    lemma_schemes();
    value.index_of_first_ensures('\n');
}

/// A prefix without `c` is kept by `before`.
proof fn lemma_before_after_prefix(prefix: Seq<char>, s: Seq<char>, c: char)
    requires
        !prefix.contains(c),
    ensures
        before(prefix + s, c) == prefix + before(s, c),
{
    lemma_before_is_prefix(s, c);
    let i = prefix.len() + before(s, c).len();
    let whole = prefix + s;
    assert forall|j: int| 0 <= j < i implies whole[j] != c by {
        if j < prefix.len() {
            assert(whole[j] == prefix[j]);
        } else {
            assert(whole[j] == before(s, c)[j - prefix.len()]);
        }
    }
    lemma_before_at(whole, c, i as int);
    assert(whole.take(i as int) == prefix + before(s, c));
}

/// A line break and what follows it neither make nor change what a prefix captures.
proof fn lemma_captured_of_longer(prefix: Seq<char>, line: Seq<char>, rest: Seq<char>)
    requires
        !prefix.contains('\n'),
    ensures
        prefix.is_prefix_of(line + seq!['\n'] + rest) <==> prefix.is_prefix_of(line),
        prefix.is_prefix_of(line) ==> before(
            (line + seq!['\n'] + rest).skip(prefix.len() as int),
            '\n',
        ) == before(line.skip(prefix.len() as int), '\n'),
{
    let s = line + seq!['\n'] + rest;
    let n = prefix.len() as int;
    if prefix.is_prefix_of(s) && line.len() < n {
        assert(s[line.len() as int] == '\n');
        assert(prefix[line.len() as int] == s.subrange(0, n)[line.len() as int]);
    }
    if n <= line.len() {
        assert(s.subrange(0, n) == line.subrange(0, n));
        let short = line.skip(n);
        lemma_before_is_prefix(short, '\n');
        let i = before(short, '\n').len() as int;
        assert forall|j: int| 0 <= j < i implies s.skip(n)[j] != '\n' by {
            assert(s.skip(n)[j] == before(short, '\n')[j]);
        }
        assert(s.skip(n)[i] == '\n');
        lemma_before_at(s.skip(n), '\n', i);
        assert(s.skip(n).take(i) == before(short, '\n'));
    }
}

/// `localhost` names the loopback address, whatever port follows.
pub proof fn law_localhost_is_loopback(port: Seq<char>)
    ensures
        uri_of("tcp://"@ + ("localhost:"@ + port)) == uri_of("tcp://"@ + ("127.0.0.1:"@ + port)),
{
    reveal_strlit("localhost");
    reveal_strlit("127.0.0.1");
    reveal_strlit("localhost:");
    reveal_strlit("127.0.0.1:");
    let name = "localhost:"@ + port;
    let address = "127.0.0.1:"@ + port;
    let line = before(port, '\n');
    lemma_captured(name);
    lemma_captured(address);
    lemma_schemes();
    lemma_before_after_prefix("localhost:"@, port, '\n');
    lemma_before_after_prefix("127.0.0.1:"@, port, '\n');
    assert("localhost:"@ + line == "localhost"@ + seq![':'] + line);
    assert("127.0.0.1:"@ + line == "127.0.0.1"@ + seq![':'] + line);
    lemma_pieces_of_joined("localhost"@, line, ':');
    lemma_pieces_of_joined("127.0.0.1"@, line, ':');
    assert("127.0.0.1"@[0] == '1');
    assert("localhost"@[0] == 'l');
}

/// Every path of one line can be given for a unix socket, and is kept as it is.
pub proof fn law_unix_path_is_kept(path: Seq<char>)
    requires
        path.len() > 0,
        !path.contains('\n'),
    ensures
        uri_of("unix://"@ + path) == Ok::<RestfulUriView, UriError>(RestfulUriView::Unix(path)),
{
    lemma_captured(path);
    lemma_schemes();
    path.index_of_first_ensures('\n');
}

/// Whatever follows `none://`, there is no endpoint.
pub proof fn law_none_ignores_the_rest(rest: Seq<char>)
    ensures
        uri_of("none://"@ + rest) == Ok::<RestfulUriView, UriError>(RestfulUriView::Disabled),
{
    lemma_captured(rest);
    lemma_schemes();
}

/// A text is refused for its scheme exactly where it begins with none of the three.
pub proof fn law_scheme_is_required(s: Seq<char>)
    ensures
        uri_of(s) == Err::<RestfulUriView, UriError>(UriError::SchemeInput) <==> {
            &&& !"none://"@.is_prefix_of(s)
            &&& !"tcp://"@.is_prefix_of(s)
            &&& !"unix://"@.is_prefix_of(s)
        },
        uri_of(s) != Err::<RestfulUriView, UriError>(UriError::Scheme),
{
    lemma_schemes();
}

/// Nothing behind the first line counts.
pub proof fn law_only_the_first_line_counts(line: Seq<char>, rest: Seq<char>)
    ensures
        uri_of(line + seq!['\n'] + rest) == uri_of(line),
{
    let s = line + seq!['\n'] + rest;
    reveal_strlit("none://");
    reveal_strlit("tcp://");
    reveal_strlit("unix://");
    assert(!"none://"@.contains('\n'));
    assert(!"tcp://"@.contains('\n'));
    assert(!"unix://"@.contains('\n'));
    lemma_captured_of_longer("none://"@, line, rest);
    lemma_captured_of_longer("tcp://"@, line, rest);
    lemma_captured_of_longer("unix://"@, line, rest);
    assert(captured(s) == captured(line));
}

/// Whether `host` names `addr`: `localhost` is the loopback address, every other address is
/// written with four decimal numbers.
proof fn lemma_host_names(host: Seq<char>, addr: Ipv4Addr)
    ensures
        ipv4_of(host_of(host)) == Some(addr) <==> {
            ||| host == "localhost"@ && addr == Ipv4Addr(127, 0, 0, 1)
            ||| host == decimal(addr.0 as nat) + seq!['.'] + decimal(addr.1 as nat) + seq!['.']
                + decimal(addr.2 as nat) + seq!['.'] + decimal(addr.3 as nat)
        },
{
    reveal_strlit("localhost");
    reveal_strlit("127.0.0.1");
    law_address_has_one_text(host, addr);
    law_address_has_one_text("127.0.0.1"@, addr);
    law_address_has_one_text("127.0.0.1"@, Ipv4Addr(127, 0, 0, 1));
    lemma_decimal(addr.0 as nat);
    if host == "localhost"@ {
        assert("localhost"@[0] == 'l');
        assert(dotted(addr)[0] == decimal(addr.0 as nat)[0]);
        law_address_has_one_text(host, addr);
    }
    assert("127.0.0.1"@ == decimal(127) + seq!['.'] + decimal(0) + seq!['.'] + decimal(0) + seq![
        '.',
    ] + decimal(1)) by {
        reveal_with_fuel(decimal, 4);
        assert(decimal(127) == seq!['1', '2', '7']);
        assert(decimal(0) == seq!['0']);
        assert(decimal(1) == seq!['1']);
    }
}

/// The pieces of an address and a port.
proof fn lemma_tcp_pieces(host: Seq<char>, digits: Seq<char>)
    requires
        !host.contains(':'),
        !digits.contains(':'),
    ensures
        pieces(host + seq![':'] + digits, ':') == seq![host, digits],
{
    law_text_is_cut_at_separators(host, ':', digits);
    law_text_is_cut_at_separators(digits, ':', digits);
    assert(seq![host] + seq![digits] =~= seq![host, digits]);
}

/// A line behind `tcp://` is read as an address and a port.
proof fn lemma_tcp_line(value: Seq<char>)
    requires
        !value.contains('\n'),
    ensures
        uri_of("tcp://"@ + value) == match tcp_of(value) {
            Ok((addr, port)) => Ok::<RestfulUriView, UriError>(RestfulUriView::Tcp(addr, port)),
            Err(error) => Err(error),
        },
{
    lemma_captured(value);
    lemma_schemes();
    value.index_of_first_ensures('\n');
}

/// What reads as a number holds neither a colon nor a line break.
proof fn lemma_number_has_no_colon(s: Seq<char>, max: nat)
    requires
        unsigned_value(s, max) is Some,
    ensures
        !s.contains(':'),
        !s.contains('\n'),
{
    law_number_is_digits_in_range(s, max, unsigned_value(s, max)->0);
}

/// An endpoint comes of a `tcp://` line only if that line is a host, one colon and a port: the
/// host names the address, and the digits stand for the port. The host and the digits are given.
pub proof fn law_tcp_endpoint_was_asked_for(value: Seq<char>, addr: Ipv4Addr, port: u16) -> (parts:
    (Seq<char>, Seq<char>))
    requires
        !value.contains('\n'),
        uri_of("tcp://"@ + value) == Ok::<RestfulUriView, UriError>(
            RestfulUriView::Tcp(addr, port),
        ),
    ensures
        value == parts.0 + seq![':'] + parts.1,
        !parts.0.contains(':'),
        !parts.1.contains(':'),
        unsigned_value(parts.1, 65535) == Some(port as nat),
        ({
            ||| parts.0 == "localhost"@ && addr == Ipv4Addr(127, 0, 0, 1)
            ||| parts.0 == decimal(addr.0 as nat) + seq!['.'] + decimal(addr.1 as nat) + seq!['.']
                + decimal(addr.2 as nat) + seq!['.'] + decimal(addr.3 as nat)
        }),
{
    lemma_tcp_line(value);
    let parts = pieces(value, ':');
    lemma_pieces_lack_separator(value, ':');
    lemma_join_of_pieces(value, ':');
    let rest = value.skip(parts[0].len() as int + 1);
    assert(parts.skip(1)[0] == parts[1]);
    lemma_single_piece(rest, ':');
    lemma_host_names(parts[0], addr);
    (parts[0], parts[1])
}

/// A host that names an address, one colon and digits for a port are an endpoint, with a line
/// break and anything after it or without.
pub proof fn law_tcp_endpoint_is_understood(
    host: Seq<char>,
    digits: Seq<char>,
    rest: Seq<char>,
    addr: Ipv4Addr,
    port: u16,
)
    requires
        unsigned_value(digits, 65535) == Some(port as nat),
        ({
            ||| host == "localhost"@ && addr == Ipv4Addr(127, 0, 0, 1)
            ||| host == decimal(addr.0 as nat) + seq!['.'] + decimal(addr.1 as nat) + seq!['.']
                + decimal(addr.2 as nat) + seq!['.'] + decimal(addr.3 as nat)
        }),
    ensures
        uri_of("tcp://"@ + (host + seq![':'] + digits)) == Ok::<RestfulUriView, UriError>(
            RestfulUriView::Tcp(addr, port),
        ),
        uri_of("tcp://"@ + (host + seq![':'] + digits) + seq!['\n'] + rest) == Ok::<
            RestfulUriView,
            UriError,
        >(RestfulUriView::Tcp(addr, port)),
{
    let value = host + seq![':'] + digits;
    reveal_strlit("localhost");
    lemma_host_names(host, addr);
    lemma_number_has_no_colon(digits, 65535);
    assert(!host.contains(':') && !host.contains('\n')) by {
        lemma_decimal(addr.0 as nat);
        lemma_decimal(addr.1 as nat);
        lemma_decimal(addr.2 as nat);
        lemma_decimal(addr.3 as nat);
    }
    lemma_tcp_pieces(host, digits);
    assert(!value.contains('\n'));
    lemma_tcp_line(value);
    law_only_the_first_line_counts("tcp://"@ + value, rest);
}

/// Without a colon, or with more than one, there is no address and port.
pub proof fn law_tcp_needs_exactly_one_colon(a: Seq<char>, b: Seq<char>, c: Seq<char>)
    requires
        !a.contains(':'),
        !a.contains('\n'),
        !b.contains('\n'),
        !c.contains('\n'),
    ensures
        uri_of("tcp://"@ + a) == Err::<RestfulUriView, UriError>(UriError::Format),
        uri_of("tcp://"@ + (a + seq![':'] + b + seq![':'] + c)) == Err::<RestfulUriView, UriError>(
            UriError::Format,
        ),
        !b.contains(':') ==> uri_of("tcp://"@ + (a + seq![':'] + b)) != Err::<
            RestfulUriView,
            UriError,
        >(UriError::Format),
{
    lemma_tcp_line(a);
    law_text_is_cut_at_separators(a, ':', b);
    let two = a + seq![':'] + b + seq![':'] + c;
    let tail = b + seq![':'] + c;
    assert(two == a + seq![':'] + tail);
    law_text_is_cut_at_separators(a, ':', tail);
    assert(tail[b.len() as int] == ':');
    lemma_before_is_prefix(tail, ':');
    lemma_pieces_lack_separator(tail.skip(before(tail, ':').len() as int + 1), ':');
    assert(pieces(two, ':').len() > 2);
    assert(!two.contains('\n'));
    lemma_tcp_line(two);
    if !b.contains(':') {
        lemma_tcp_pieces(a, b);
        assert(!(a + seq![':'] + b).contains('\n'));
        lemma_tcp_line(a + seq![':'] + b);
    }
}

/// With one colon, an endpoint is refused for its address only if the host names no address, and
/// for its port exactly if the host names one and what follows the colon is not a port.
pub proof fn law_tcp_address_and_port_are_checked(
    host: Seq<char>,
    digits: Seq<char>,
    addr: Ipv4Addr,
)
    requires
        !host.contains(':'),
        !host.contains('\n'),
        !digits.contains(':'),
        !digits.contains('\n'),
    ensures
        ({
            let result = uri_of("tcp://"@ + (host + seq![':'] + digits));
            let named = {
                ||| host == "localhost"@ && addr == Ipv4Addr(127, 0, 0, 1)
                ||| host == decimal(addr.0 as nat) + seq!['.'] + decimal(addr.1 as nat) + seq!['.']
                    + decimal(addr.2 as nat) + seq!['.'] + decimal(addr.3 as nat)
            };
            let port = unsigned_value(digits, 65535);
            &&& result is Ok || result == Err::<RestfulUriView, UriError>(UriError::Address)
                || result == Err::<RestfulUriView, UriError>(UriError::Port)
            &&& named ==> result != Err::<RestfulUriView, UriError>(UriError::Address)
            &&& named ==> (result == Err::<RestfulUriView, UriError>(UriError::Port) <==> port
                is None)
            &&& result is Ok ==> port is Some
        }),
{
    lemma_tcp_pieces(host, digits);
    assert(!(host + seq![':'] + digits).contains('\n'));
    lemma_tcp_line(host + seq![':'] + digits);
    lemma_host_names(host, addr);
}

/// Where an endpoint is refused for its port, or not at all, its host names an address, which is
/// given.
pub proof fn law_unrefused_host_names_an_address(host: Seq<char>, digits: Seq<char>) -> (addr:
    Ipv4Addr)
    requires
        !host.contains(':'),
        !host.contains('\n'),
        !digits.contains(':'),
        !digits.contains('\n'),
        uri_of("tcp://"@ + (host + seq![':'] + digits)) != Err::<RestfulUriView, UriError>(
            UriError::Address,
        ),
    ensures
        ({
            ||| host == "localhost"@ && addr == Ipv4Addr(127, 0, 0, 1)
            ||| host == decimal(addr.0 as nat) + seq!['.'] + decimal(addr.1 as nat) + seq!['.']
                + decimal(addr.2 as nat) + seq!['.'] + decimal(addr.3 as nat)
        }),
{
    lemma_tcp_pieces(host, digits);
    assert(!(host + seq![':'] + digits).contains('\n'));
    lemma_tcp_line(host + seq![':'] + digits);
    let addr = ipv4_of(host_of(host))->0;
    lemma_host_names(host, addr);
    addr
}

/// An address and a port stand behind `tcp://` as they stand alone.
pub proof fn law_address_and_port_alone(value: Seq<char>, addr: Ipv4Addr, port: u16, error: UriError)
    requires
        !value.contains('\n'),
    ensures
        tcp_of(value) == Ok::<(Ipv4Addr, u16), UriError>((addr, port)) <==> uri_of(
            "tcp://"@ + value,
        ) == Ok::<RestfulUriView, UriError>(RestfulUriView::Tcp(addr, port)),
        tcp_of(value) == Err::<(Ipv4Addr, u16), UriError>(error) <==> uri_of("tcp://"@ + value)
            == Err::<RestfulUriView, UriError>(error),
{
    lemma_tcp_line(value);
}

/// A line break in an address or a port makes it none.
pub proof fn law_line_break_is_no_part_of_an_address(a: Seq<char>, b: Seq<char>)
    ensures
        tcp_of(a + seq!['\n'] + b) is Err,
{
    let value = a + seq!['\n'] + b;
    let parts = pieces(value, ':');
    if tcp_of(value) is Ok {
        let addr = (tcp_of(value)->Ok_0).0;
        lemma_join_of_pieces(value, ':');
        let rest = value.skip(parts[0].len() as int + 1);
        assert(parts.skip(1)[0] == parts[1]);
        lemma_single_piece(rest, ':');
        lemma_number_has_no_colon(parts[1], u16::MAX as nat);
        lemma_host_names(parts[0], addr);
        reveal_strlit("localhost");
        lemma_decimal(addr.0 as nat);
        lemma_decimal(addr.1 as nat);
        lemma_decimal(addr.2 as nat);
        lemma_decimal(addr.3 as nat);
        assert(value[a.len() as int] == '\n');
        assert(!parts[0].contains('\n'));
        assert(value == parts[0] + seq![':'] + parts[1]);
    }
}

/// A unix endpoint is refused exactly where its first line holds no path.
pub proof fn law_unix_path_is_required(path: Seq<char>)
    ensures
        uri_of("unix://"@ + path) == Err::<RestfulUriView, UriError>(UriError::EmptyPath) <==> (
        path.len() == 0 || path[0] == '\n'),
        uri_of("unix://"@ + path) is Ok <==> path.len() > 0 && path[0] != '\n',
{
    lemma_captured(path);
    lemma_schemes();
    lemma_before_is_prefix(path, '\n');
    if path.len() > 0 && path[0] == '\n' {
        lemma_before_at(path, '\n', 0);
    }
}

/// Three texts name a scheme, and no other text does.
pub proof fn law_names_of_the_schemes(s: Seq<char>)
    ensures
        scheme_of(s) == Ok::<UriScheme, UriError>(UriScheme::Tcp) <==> s == "tcp"@,
        scheme_of(s) == Ok::<UriScheme, UriError>(UriScheme::Unix) <==> s == "unix"@,
        scheme_of(s) == Ok::<UriScheme, UriError>(UriScheme::Disabled) <==> s == "none"@,
        scheme_of(s) is Err ==> scheme_of(s) == Err::<UriScheme, UriError>(UriError::Scheme),
{
    lemma_schemes();
}

/// The endpoint of a text is of the kind that its beginning names.
pub proof fn law_endpoint_is_of_the_named_kind(s: Seq<char>)
    ensures
        uri_of(s) matches Ok(RestfulUriView::Tcp(_, _)) ==> "tcp://"@.is_prefix_of(s),
        uri_of(s) matches Ok(RestfulUriView::Unix(_)) ==> "unix://"@.is_prefix_of(s),
        uri_of(s) matches Ok(RestfulUriView::Disabled) ==> "none://"@.is_prefix_of(s),
{
    lemma_schemes();
}

/// An address and a port are a host that names the address, one colon and a port, in any text:
/// without a colon or with two the text is refused as a whole, and with one colon for its host or
/// for its port.
pub proof fn law_address_and_port_in_any_text(
    host: Seq<char>,
    digits: Seq<char>,
    more: Seq<char>,
    addr: Ipv4Addr,
)
    requires
        !host.contains(':'),
    ensures
        tcp_of(host) == Err::<(Ipv4Addr, u16), UriError>(UriError::Format),
        tcp_of(host + seq![':'] + digits + seq![':'] + more) == Err::<(Ipv4Addr, u16), UriError>(
            UriError::Format,
        ),
        !digits.contains(':') ==> {
            let result = tcp_of(host + seq![':'] + digits);
            let named = {
                ||| host == "localhost"@ && addr == Ipv4Addr(127, 0, 0, 1)
                ||| host == decimal(addr.0 as nat) + seq!['.'] + decimal(addr.1 as nat) + seq!['.']
                    + decimal(addr.2 as nat) + seq!['.'] + decimal(addr.3 as nat)
            };
            let port = unsigned_value(digits, 65535);
            &&& named && port is Some ==> result == Ok::<(Ipv4Addr, u16), UriError>(
                (addr, port->0 as u16),
            )
            &&& named && port is None ==> result == Err::<(Ipv4Addr, u16), UriError>(
                UriError::Port,
            )
            &&& result is Ok && (result->Ok_0).0 == addr ==> named
            &&& result is Err ==> result->Err_0 is Address || result->Err_0 is Port
        },
{
    law_text_is_cut_at_separators(host, ':', digits);
    let tail = digits + seq![':'] + more;
    assert(host + seq![':'] + digits + seq![':'] + more == host + seq![':'] + tail);
    law_text_is_cut_at_separators(host, ':', tail);
    assert(tail[digits.len() as int] == ':');
    lemma_before_is_prefix(tail, ':');
    lemma_pieces_lack_separator(tail.skip(before(tail, ':').len() as int + 1), ':');
    lemma_host_names(host, addr);
    if !digits.contains(':') {
        lemma_tcp_pieces(host, digits);
    }
}

} // verus!
