//! Answers: their HTTP framing and their JSON bodies.

use vstd::prelude::*;
use vstd::utf8::encode_utf8;

use crate::number::{
    all_digits, decimal, decimal_text, law_written_number_reads_back, lemma_decimal, unsigned_value,
};

verus! {

/// The first line of an answer, with its line break.
pub open spec fn status_line(status: u16, reason: Seq<char>) -> Seq<char> {
    "HTTP/1.1 "@ + decimal(status as nat) + " "@ + reason + "\r\n"@
}

/// What precedes the body of an answer that carries JSON of `length` bytes.
pub open spec fn json_head(status: u16, reason: Seq<char>, length: nat) -> Seq<char> {
    status_line(status, reason) + "Content-Type: application/json\r\n"@ + "Content-Length: "@
        + decimal(length) + "\r\n\r\n"@
}

/// An answer that carries `body`, as bytes.
pub open spec fn http_response(status: u16, reason: Seq<char>, body: Seq<char>) -> Seq<u8> {
    encode_utf8(json_head(status, reason, encode_utf8(body).len()) + body)
}

/// An answer without a body, as bytes.
pub open spec fn http_error(status: u16, reason: Seq<char>) -> Seq<u8> {
    encode_utf8(status_line(status, reason) + "Content-Length: 0\r\n\r\n"@)
}

/// Texts are encoded one after the other.
pub proof fn lemma_encode_utf8_concat(a: Seq<char>, b: Seq<char>)
    ensures
        encode_utf8(a + b) == encode_utf8(a) + encode_utf8(b),
    decreases a.len(),
{
    if a.len() == 0 {
        assert(a + b == b);
    } else {
        lemma_encode_utf8_concat(a.drop_first(), b);
        assert((a + b).drop_first() == a.drop_first() + b);
    }
}

/// An answer is its head and then the bytes of its body, as many as the head announces.
pub proof fn law_announced_length_is_body_length(status: u16, reason: Seq<char>, body: Seq<char>)
    ensures
        http_response(status, reason, body) == encode_utf8(
            json_head(status, reason, encode_utf8(body).len()),
        ) + encode_utf8(body),
{
    lemma_encode_utf8_concat(json_head(status, reason, encode_utf8(body).len()), body);
}

/// Appends `bytes` to what is to be sent.
fn push_bytes(stream: &mut Vec<u8>, bytes: &[u8])
    ensures
        final(stream)@ == old(stream)@ + bytes@,
{
    let ghost start = stream@;
    for i in 0..bytes.len()
        invariant
            stream@ == start + bytes@.take(i as int),
    {
        stream.push(bytes[i]);
        assert(bytes@.take(i + 1) == bytes@.take(i as int).push(bytes@[i as int]));
    }
    assert(bytes@.take(bytes@.len() as int) == bytes@);
}

/// The first line of an answer.
fn status_line_text(status: u16, reason: &str) -> (text: String)
    ensures
        text@ == status_line(status, reason@),
{
    let mut text = "HTTP/1.1 ".to_owned();
    text.append(decimal_text(status as usize).as_str());
    text.append(" ");
    text.append(reason);
    text.append("\r\n");
    text
}

/// Appends an answer that carries JSON to what is to be sent.
pub fn write_http_response(stream: &mut Vec<u8>, status: u16, reason: &str, body: &str)
    ensures
        final(stream)@ == old(stream)@ + http_response(status, reason@, body@),
{
    let mut text = status_line_text(status, reason);
    text.append("Content-Type: application/json\r\n");
    text.append("Content-Length: ");
    text.append(decimal_text(body.as_bytes().len()).as_str());
    text.append("\r\n\r\n");
    text.append(body);
    push_bytes(stream, text.as_str().as_bytes());
}

/// Appends an answer without a body to what is to be sent.
pub fn write_http_error(stream: &mut Vec<u8>, status: u16, reason: &str)
    ensures
        final(stream)@ == old(stream)@ + http_error(status, reason@),
{
    let mut text = status_line_text(status, reason);
    text.append("Content-Length: 0\r\n\r\n");
    push_bytes(stream, text.as_str().as_bytes());
}

/// A hexadecimal digit in lower case.
pub open spec fn hex_digit(d: nat) -> char
    recommends
        d < 16,
{
    if d < 10 {
        (d + '0' as nat) as char
    } else {
        (d - 10 + 'a' as nat) as char
    }
}

/// One character inside a JSON string: quotes, backslashes and control characters are escaped.
pub open spec fn json_char(c: char) -> Seq<char> {
    if c == '"' || c == '\\' {
        seq!['\\', c]
    } else if c == '\u{8}' {
        seq!['\\', 'b']
    } else if c == '\t' {
        seq!['\\', 't']
    } else if c == '\n' {
        seq!['\\', 'n']
    } else if c == '\u{c}' {
        seq!['\\', 'f']
    } else if c == '\r' {
        seq!['\\', 'r']
    } else if c <= '\u{1f}' {
        seq!['\\', 'u', '0', '0', hex_digit(c as nat / 16), hex_digit(c as nat % 16)]
    } else {
        seq![c]
    }
}

/// `s` as a JSON string.
pub open spec fn json_string(s: Seq<char>) -> Seq<char> {
    seq!['"'] + s.map_values(|c: char| json_char(c)).flatten() + seq!['"']
}

/// Text without quotes, backslashes and control characters is only put between quotes.
pub proof fn law_plain_text_is_only_quoted(s: Seq<char>)
    requires
        forall|i: int| 0 <= i < s.len() ==> '\u{1f}' < #[trigger] s[i] && s[i] != '"' && s[i] != '\\',
    ensures
        json_string(s) == seq!['"'] + s + seq!['"'],
{
    lemma_plain_chars(s);
}

proof fn lemma_plain_chars(s: Seq<char>)
    requires
        forall|i: int| 0 <= i < s.len() ==> '\u{1f}' < #[trigger] s[i] && s[i] != '"' && s[i] != '\\',
    ensures
        s.map_values(|c: char| json_char(c)).flatten() == s,
    decreases s.len(),
{
    let escaped = s.map_values(|c: char| json_char(c));
    if s.len() > 0 {
        let rest = s.drop_first();
        assert(escaped.drop_first() == rest.map_values(|c: char| json_char(c)));
        assert forall|i: int| 0 <= i < rest.len() implies '\u{1f}' < #[trigger] rest[i] && rest[i]
            != '"' && rest[i] != '\\' by {
            assert(rest[i] == s[i + 1]);
        }
        lemma_plain_chars(rest);
        assert('\u{1f}' < s[0]);
        assert(escaped.first() == seq![s[0]]);
        assert(s == seq![s[0]] + rest);
    }
}

/// Writes `s` as a JSON string.
///
/// Calls `serde_json::to_string`, which puts a string between quotes, escapes quotes,
/// backslashes and the characters below the space, and copies every other character. Writing a
/// string into memory does not fail.
#[verifier::external_body]
fn quote_json(s: &str) -> (quoted: String)
    ensures
        quoted@ == json_string(s@),
{
    serde_json::to_string(s).unwrap()
}

/// What the state of the machine is and what can be asked of it.
pub struct VmStateResponse {
    pub state: String,
    pub can_start: bool,
    pub can_pause: bool,
    pub can_resume: bool,
    pub can_stop: bool,
    pub can_hard_stop: bool,
}

/// A JSON boolean.
pub open spec fn json_bool(b: bool) -> Seq<char> {
    if b {
        "true"@
    } else {
        "false"@
    }
}

fn bool_text(b: bool) -> (text: &'static str)
    ensures
        text@ == json_bool(b),
{
    if b {
        "true"
    } else {
        "false"
    }
}

/// The JSON object of an answer: its fields in order, named in camel case.
pub open spec fn state_json(
    state: Seq<char>,
    can_start: bool,
    can_pause: bool,
    can_resume: bool,
    can_stop: bool,
    can_hard_stop: bool,
) -> Seq<char> {
    "{\"state\":"@ + json_string(state) + ",\"canStart\":"@ + json_bool(can_start)
        + ",\"canPause\":"@ + json_bool(can_pause) + ",\"canResume\":"@ + json_bool(can_resume)
        + ",\"canStop\":"@ + json_bool(can_stop) + ",\"canHardStop\":"@ + json_bool(can_hard_stop)
        + "}"@
}

impl VmStateResponse {
    /// The JSON object of the answer.
    pub open spec fn json(self) -> Seq<char> {
        state_json(
            self.state@,
            self.can_start,
            self.can_pause,
            self.can_resume,
            self.can_stop,
            self.can_hard_stop,
        )
    }

    /// A machine in `state`, which can only be stopped, and only if `can_stop`.
    pub fn new(state: &str, can_stop: bool) -> (response: Self)
        ensures
            response.state@ == state@,
            !response.can_start,
            !response.can_pause,
            !response.can_resume,
            response.can_stop == can_stop,
            response.can_hard_stop == can_stop,
    {
        VmStateResponse {
            state: state.to_owned(),
            can_start: false,
            can_pause: false,
            can_resume: false,
            can_stop,
            can_hard_stop: can_stop,
        }
    }

    /// The answer as JSON.
    pub fn to_json(&self) -> (text: String)
        ensures
            text@ == self.json(),
    {
        let mut text = "{\"state\":".to_owned();
        text.append(quote_json(self.state.as_str()).as_str());
        text.append(",\"canStart\":");
        text.append(bool_text(self.can_start));
        text.append(",\"canPause\":");
        text.append(bool_text(self.can_pause));
        text.append(",\"canResume\":");
        text.append(bool_text(self.can_resume));
        text.append(",\"canStop\":");
        text.append(bool_text(self.can_stop));
        text.append(",\"canHardStop\":");
        text.append(bool_text(self.can_hard_stop));
        text.append("}");
        text
    }
}

/// A line break cannot be the first of two where the next line is not empty.
proof fn lemma_first_empty_line(a: Seq<char>, b: Seq<char>, c: Seq<char>, body: Seq<char>, i: int)
    requires
        !a.contains('\r'),
        !b.contains('\r'),
        !c.contains('\r'),
        b.len() > 0,
        c.len() > 0,
        0 <= i < (a + "\r\n"@ + b + "\r\n"@ + c).len(),
    ensures
        (a + "\r\n"@ + b + "\r\n"@ + c + "\r\n\r\n"@ + body).subrange(i, i + 4) != "\r\n\r\n"@,
{
    reveal_strlit("\r\n");
    reveal_strlit("\r\n\r\n");
    let t = a + "\r\n"@ + b + "\r\n"@ + c + "\r\n\r\n"@ + body;
    let cut = t.subrange(i, i + 4);
    assert(cut[0] == t[i]);
    assert(cut[2] == t[i + 2]);
    let second = a.len() + 2;
    let third = second + b.len() + 2;
    if i < a.len() {
        assert(t[i] == a[i]);
    } else if i == a.len() {
        assert(t[i + 2] == b[0]);
    } else if i < second {
        assert(t[i] == '\n');
    } else if i < second + b.len() {
        assert(t[i] == b[i - second]);
    } else if i == second + b.len() {
        assert(t[i + 2] == c[0]);
    } else if i < third {
        assert(t[i] == '\n');
    } else {
        assert(t[i] == c[i - third]);
    }
}

/// An answer that carries a body is a head and then the body. The head tells the status and the
/// reason; the digits behind `Content-Length: ` read back as the number of bytes that follow the
/// head. The head and the digits are given.
pub proof fn law_answer_announces_its_body(
    status: u16,
    reason: Seq<char>,
    body: Seq<char>,
    max: nat,
) -> (parts: (Seq<char>, Seq<char>))
    requires
        encode_utf8(body).len() <= max,
    ensures
        http_response(status, reason, body) == encode_utf8(parts.0) + encode_utf8(body),
        http_response(status, reason, body).skip(encode_utf8(parts.0).len() as int) == encode_utf8(
            body,
        ),
        parts.0 == "HTTP/1.1 "@ + decimal(status as nat) + " "@ + reason + "\r\n"@
            + "Content-Type: application/json"@ + "\r\n"@ + ("Content-Length: "@ + parts.1)
            + "\r\n\r\n"@,
        unsigned_value(parts.1, max) == Some(encode_utf8(body).len()),
        all_digits(parts.1),
{
    let length = encode_utf8(body).len();
    let head = json_head(status, reason, length);
    let digits = decimal(length);
    lemma_encode_utf8_concat(head, body);
    lemma_decimal(length);
    law_written_number_reads_back(length, max);
    reveal_strlit("Content-Type: application/json\r\n");
    reveal_strlit("Content-Type: application/json");
    reveal_strlit("\r\n");
    assert("Content-Type: application/json\r\n"@ == "Content-Type: application/json"@ + "\r\n"@);
    assert(head == "HTTP/1.1 "@ + decimal(status as nat) + " "@ + reason + "\r\n"@
        + "Content-Type: application/json"@ + "\r\n"@ + ("Content-Length: "@ + digits)
        + "\r\n\r\n"@);
    assert((encode_utf8(head) + encode_utf8(body)).skip(encode_utf8(head).len() as int)
        == encode_utf8(body));
    (head, digits)
}

/// The first empty line of an answer ends its head, so that a client that reads up to it is left
/// with the body: the text of the answer, whose head is given, has no empty line in that head but
/// the one that ends it. A reason that breaks the line has no place in an answer.
pub proof fn law_first_empty_line_ends_the_head(status: u16, reason: Seq<char>, body: Seq<char>) -> (
head: Seq<char>)
    requires
        !reason.contains('\r'),
    ensures
        http_response(status, reason, body) == encode_utf8(head + body),
        head.len() >= 4,
        head.skip(head.len() - 4) == "\r\n\r\n"@,
        forall|i: int|
            0 <= i < head.len() - 4 ==> #[trigger] (head + body).subrange(i, i + 4)
                != "\r\n\r\n"@,
{
    let length = encode_utf8(body).len();
    let (head, digits) = law_answer_announces_its_body(status, reason, body, length);
    lemma_encode_utf8_concat(head, body);
    let a = "HTTP/1.1 "@ + decimal(status as nat) + " "@ + reason;
    let b = "Content-Type: application/json"@;
    let c = "Content-Length: "@ + digits;
    reveal_strlit("HTTP/1.1 ");
    reveal_strlit(" ");
    reveal_strlit("Content-Type: application/json");
    reveal_strlit("Content-Length: ");
    reveal_strlit("\r\n\r\n");
    lemma_decimal(status as nat);
    assert(!a.contains('\r'));
    assert(!b.contains('\r'));
    assert(!c.contains('\r'));
    assert(head.skip(head.len() - 4) == "\r\n\r\n"@);
    assert forall|i: int| 0 <= i < head.len() - 4 implies #[trigger] (head + body).subrange(
        i,
        i + 4,
    ) != "\r\n\r\n"@ by {
        lemma_first_empty_line(a, b, c, body, i);
    }
    head
}

/// The status of an answer reads back from its first line, with a body or without; the reason
/// follows it up to the end of the line.
pub proof fn law_status_reads_back(status: u16, reason: Seq<char>, body: Seq<char>) -> (rest: (
    Seq<char>,
    Seq<char>,
))
    ensures
        unsigned_value(decimal(status as nat), 65535) == Some(status as nat),
        http_response(status, reason, body) == encode_utf8(
            "HTTP/1.1 "@ + decimal(status as nat) + " "@ + reason + "\r\n"@ + rest.0,
        ),
        http_error(status, reason) == encode_utf8(
            "HTTP/1.1 "@ + decimal(status as nat) + " "@ + reason + "\r\n"@ + rest.1,
        ),
        rest.1 == "Content-Length: 0\r\n\r\n"@,
{
    law_written_number_reads_back(status as nat, 65535);
    let length = encode_utf8(body).len();
    let rest = "Content-Type: application/json\r\n"@ + "Content-Length: "@ + decimal(length)
        + "\r\n\r\n"@ + body;
    assert(json_head(status, reason, length) + body == status_line(status, reason) + rest);
    (rest, "Content-Length: 0\r\n\r\n"@)
}

/// An answer tells the state and each permission under its own name, in this order, a permission
/// as `true` exactly where it is given.
pub proof fn law_every_field_is_told(response: VmStateResponse)
    ensures
        response.json() == "{\"state\":"@ + json_string(response.state@) + (
        if response.can_start {
            ",\"canStart\":true"@
        } else {
            ",\"canStart\":false"@
        }) + (if response.can_pause {
            ",\"canPause\":true"@
        } else {
            ",\"canPause\":false"@
        }) + (if response.can_resume {
            ",\"canResume\":true"@
        } else {
            ",\"canResume\":false"@
        }) + (if response.can_stop {
            ",\"canStop\":true"@
        } else {
            ",\"canStop\":false"@
        }) + (if response.can_hard_stop {
            ",\"canHardStop\":true"@
        } else {
            ",\"canHardStop\":false"@
        }) + "}"@,
{
    let s0 = "{\"state\":"@ + json_string(response.state@);
    lemma_append_grouped(s0, ",\"canStart\":"@, json_bool(response.can_start));
    lemma_can_start_text(response.can_start);
    let s1 = s0 + (",\"canStart\":"@ + json_bool(response.can_start));
    lemma_append_grouped(s1, ",\"canPause\":"@, json_bool(response.can_pause));
    lemma_can_pause_text(response.can_pause);
    let s2 = s1 + (",\"canPause\":"@ + json_bool(response.can_pause));
    lemma_append_grouped(s2, ",\"canResume\":"@, json_bool(response.can_resume));
    lemma_can_resume_text(response.can_resume);
    let s3 = s2 + (",\"canResume\":"@ + json_bool(response.can_resume));
    lemma_append_grouped(s3, ",\"canStop\":"@, json_bool(response.can_stop));
    lemma_can_stop_text(response.can_stop);
    let s4 = s3 + (",\"canStop\":"@ + json_bool(response.can_stop));
    lemma_append_grouped(s4, ",\"canHardStop\":"@, json_bool(response.can_hard_stop));
    lemma_can_hard_stop_text(response.can_hard_stop);
    let s5 = s4 + (",\"canHardStop\":"@ + json_bool(response.can_hard_stop));
    assert(response.json() == s5 + "}"@);
}

/// Appending two texts is appending their concatenation.
proof fn lemma_append_grouped(a: Seq<char>, b: Seq<char>, c: Seq<char>)
    ensures
        a + b + c == a + (b + c),
{
    assert(a + b + c =~= a + (b + c));
}

proof fn lemma_can_start_text(given: bool)
    ensures
        ",\"canStart\":"@ + json_bool(given) == if given {
            ",\"canStart\":true"@
        } else {
            ",\"canStart\":false"@
        },
{
    reveal_strlit("true");
    reveal_strlit("false");
    reveal_strlit(",\"canStart\":");
    reveal_strlit(",\"canStart\":true");
    reveal_strlit(",\"canStart\":false");
    if given {
        assert(",\"canStart\":"@ + "true"@ == ",\"canStart\":true"@);
    } else {
        assert(",\"canStart\":"@ + "false"@ == ",\"canStart\":false"@);
    }
}

proof fn lemma_can_pause_text(given: bool)
    ensures
        ",\"canPause\":"@ + json_bool(given) == if given {
            ",\"canPause\":true"@
        } else {
            ",\"canPause\":false"@
        },
{
    reveal_strlit("true");
    reveal_strlit("false");
    reveal_strlit(",\"canPause\":");
    reveal_strlit(",\"canPause\":true");
    reveal_strlit(",\"canPause\":false");
    if given {
        assert(",\"canPause\":"@ + "true"@ == ",\"canPause\":true"@);
    } else {
        assert(",\"canPause\":"@ + "false"@ == ",\"canPause\":false"@);
    }
}

proof fn lemma_can_resume_text(given: bool)
    ensures
        ",\"canResume\":"@ + json_bool(given) == if given {
            ",\"canResume\":true"@
        } else {
            ",\"canResume\":false"@
        },
{
    reveal_strlit("true");
    reveal_strlit("false");
    reveal_strlit(",\"canResume\":");
    reveal_strlit(",\"canResume\":true");
    reveal_strlit(",\"canResume\":false");
    if given {
        assert(",\"canResume\":"@ + "true"@ == ",\"canResume\":true"@);
    } else {
        assert(",\"canResume\":"@ + "false"@ == ",\"canResume\":false"@);
    }
}

proof fn lemma_can_stop_text(given: bool)
    ensures
        ",\"canStop\":"@ + json_bool(given) == if given {
            ",\"canStop\":true"@
        } else {
            ",\"canStop\":false"@
        },
{
    reveal_strlit("true");
    reveal_strlit("false");
    reveal_strlit(",\"canStop\":");
    reveal_strlit(",\"canStop\":true");
    reveal_strlit(",\"canStop\":false");
    if given {
        assert(",\"canStop\":"@ + "true"@ == ",\"canStop\":true"@);
    } else {
        assert(",\"canStop\":"@ + "false"@ == ",\"canStop\":false"@);
    }
}

proof fn lemma_can_hard_stop_text(given: bool)
    ensures
        ",\"canHardStop\":"@ + json_bool(given) == if given {
            ",\"canHardStop\":true"@
        } else {
            ",\"canHardStop\":false"@
        },
{
    reveal_strlit("true");
    reveal_strlit("false");
    reveal_strlit(",\"canHardStop\":");
    reveal_strlit(",\"canHardStop\":true");
    reveal_strlit(",\"canHardStop\":false");
    if given {
        assert(",\"canHardStop\":"@ + "true"@ == ",\"canHardStop\":true"@);
    } else {
        assert(",\"canHardStop\":"@ + "false"@ == ",\"canHardStop\":false"@);
    }
}

/// Joined lists of texts flatten to the joined texts.
proof fn lemma_flatten_of_joined(a: Seq<Seq<char>>, b: Seq<Seq<char>>)
    ensures
        (a + b).flatten() == a.flatten() + b.flatten(),
    decreases a.len(),
{
    if a.len() == 0 {
        assert(a + b == b);
    } else {
        lemma_flatten_of_joined(a.drop_first(), b);
        assert((a + b).drop_first() == a.drop_first() + b);
        assert((a + b).first() == a.first());
    }
}

/// The escapes of a text are those of its parts, one after the other.
pub proof fn law_text_is_escaped_part_by_part(a: Seq<char>, b: Seq<char>)
    ensures
        json_string(Seq::<char>::empty()) == seq!['"', '"'],
        json_string(a + b) == json_string(a).drop_last() + json_string(b).drop_first(),
{
    let f = |c: char| json_char(c);
    assert((a + b).map_values(f) == a.map_values(f) + b.map_values(f));
    lemma_flatten_of_joined(a.map_values(f), b.map_values(f));
    assert(Seq::<char>::empty().map_values(f) == Seq::<Seq<char>>::empty());
}

/// Quotes, backslashes and control characters are escaped as JSON has it: five of the control
/// characters by a letter, the others by their number in four hexadecimal digits.
pub proof fn law_special_characters_are_escaped(c: char)
    requires
        c == '"' || c == '\\' || c <= '\u{1f}',
    ensures
        ({
            let t = json_string(seq![c]);
            &&& t[0] == '"'
            &&& t[1] == '\\'
            &&& t.last() == '"'
            &&& c == '"' || c == '\\' ==> t.len() == 4 && t[2] == c
            &&& c == '\u{8}' ==> t.len() == 4 && t[2] == 'b'
            &&& c == '\t' ==> t.len() == 4 && t[2] == 't'
            &&& c == '\n' ==> t.len() == 4 && t[2] == 'n'
            &&& c == '\u{c}' ==> t.len() == 4 && t[2] == 'f'
            &&& c == '\r' ==> t.len() == 4 && t[2] == 'r'
            &&& t.len() != 4 ==> {
                &&& t.len() == 8
                &&& t[2] == 'u'
                &&& t[3] == '0'
                &&& t[4] == '0'
                &&& t[5] == '0' || t[5] == '1'
                &&& '0' <= t[6] <= '9' ==> c as int == 16 * (t[5] as int - '0' as int) + (
                t[6] as int - '0' as int)
                &&& !('0' <= t[6] <= '9') ==> 'a' <= t[6] <= 'f' && c as int == 16 * (t[5] as int
                    - '0' as int) + (t[6] as int - 'a' as int) + 10
            }
            &&& t.len() == 4 ==> c == '"' || c == '\\' || c == '\u{8}' || c == '\t' || c == '\n'
                || c == '\u{c}' || c == '\r'
        }),
{
    let f = |d: char| json_char(d);
    assert(seq![c].map_values(f) == seq![json_char(c)]);
    seq![json_char(c)].lemma_flatten_one_element();
    assert(json_string(seq![c]) == seq!['"'] + json_char(c) + seq!['"']);
}

} // verus!
