//! Answering requests for the state of the machine and for its shutdown.

use vstd::bytes::{
    lemma_auto_spec_u64_to_from_le_bytes, spec_u64_from_le_bytes, spec_u64_to_le_bytes_open,
    spec_u64_to_le_bytes_to_open,
};
use vstd::prelude::*;
use vstd::slice::{slice_subrange, slice_to_vec};
use vstd::utf8::encode_utf8;

use crate::number::decimal;
use crate::request::{
    body_length, content_length, law_one_trailing_slash_is_ignored, law_query_is_ignored,
    normalize_path, normalized, parse_head, parsed_head, HeadView, Parsed, ParsedView, MAX_HEADERS,
};
use crate::response::{
    http_error, http_response, law_plain_text_is_only_quoted, state_json, write_http_error, write_http_response, VmStateResponse,
};
use crate::text::same_text;

verus! {

/// The path at which the state of the machine is read and changed.
pub const VM_STATE_PATH: &'static str = "/vm/state";

/// How many bytes of a request are read.
pub const REQUEST_LIMIT: usize = 4096;

/// A request to change the state of the machine.
pub struct VmStateRequest {
    pub state: String,
}

/// What is to be done with what was read from a connection.
pub enum Step {
    /// Nothing was read: there is nothing to answer.
    Close,
    /// The request is settled: these bytes are the answer.
    Send(Vec<u8>),
    /// A change of state is asked for: these bytes are to be decoded as a [`VmStateRequest`] and
    /// the outcome is to be handed to [`change_state`].
    Decode(Vec<u8>),
}

/// What a [`Step`] holds.
pub enum StepView {
    Close,
    Send(Seq<u8>),
    Decode(Seq<u8>),
}

impl View for Step {
    type V = StepView;

    open spec fn view(&self) -> StepView {
        match self {
            Step::Close => StepView::Close,
            Step::Send(bytes) => StepView::Send(bytes@),
            Step::Decode(bytes) => StepView::Decode(bytes@),
        }
    }
}

/// The JSON that tells the state of the machine.
pub open spec fn report(stopping: bool) -> Seq<char> {
    if stopping {
        state_json("VirtualMachineStateStopping"@, false, false, false, false, false)
    } else {
        state_json("VirtualMachineStateRunning"@, false, false, false, true, true)
    }
}

/// The answer to a request that is not understood.
pub open spec fn bad_request() -> Seq<u8> {
    http_error(400, "Bad Request"@)
}

/// Whether the head asks for a change of the state.
pub open spec fn asks_for_change(head: HeadView) -> bool {
    &&& head.method == Some("POST"@)
    &&& head.path is Some
    &&& normalized(head.path->0) == VM_STATE_PATH@
}

/// The body that follows the head: as much of the announced length as was read.
pub open spec fn body_of(head: HeadView, bytes: Seq<u8>) -> Seq<u8> {
    let end = head.len + body_length(head.headers);
    bytes.subrange(
        head.len as int,
        if end <= bytes.len() {
            end as int
        } else {
            bytes.len() as int
        },
    )
}

/// Whether the end of the announced body is a number that a length can have.
pub open spec fn body_is_addressable(parsed: ParsedView) -> bool {
    parsed matches ParsedView::Complete(head) ==> (asks_for_change(head) ==> head.len + body_length(
        head.headers,
    ) <= usize::MAX)
}

/// What is done with a request, by what its bytes turn out to be.
pub open spec fn routed(parsed: ParsedView, bytes: Seq<u8>, stopping: bool) -> StepView {
    match parsed {
        ParsedView::Complete(head) => match (head.method, head.path) {
            (Some(method), Some(path)) => if normalized(path) != VM_STATE_PATH@ {
                StepView::Send(http_error(404, "Not Found"@))
            } else if method == "GET"@ {
                StepView::Send(http_response(200, "OK"@, report(stopping)))
            } else if method == "POST"@ {
                StepView::Decode(body_of(head, bytes))
            } else {
                StepView::Send(http_error(405, "Method Not Allowed"@))
            },
            _ => StepView::Send(bad_request()),
        },
        _ => StepView::Send(bad_request()),
    }
}

/// The JSON that tells the state of the machine, as text.
fn report_text(stopping: bool) -> (text: String)
    ensures
        text@ == report(stopping),
{
    let (state, can_stop): (&str, bool) = if stopping {
        ("VirtualMachineStateStopping", false)
    } else {
        ("VirtualMachineStateRunning", true)
    };
    VmStateResponse::new(state, can_stop).to_json()
}

/// An answer without a body.
fn refusal(status: u16, reason: &str) -> (step: Step)
    ensures
        step@ == StepView::Send(http_error(status, reason@)),
{
    let mut answer: Vec<u8> = Vec::new();
    write_http_error(&mut answer, status, reason);
    assert(answer@ == http_error(status, reason@));
    Step::Send(answer)
}

/// Decides what is done with a request whose bytes have been parsed.
pub fn route(parsed: &Parsed, bytes: &[u8], stopping: bool) -> (step: Step)
    requires
        parsed@ matches ParsedView::Complete(head) ==> head.len <= bytes@.len(),
        body_is_addressable(parsed@),
    ensures
        step@ == routed(parsed@, bytes@, stopping),
{
    let head = match parsed {
        Parsed::Complete(head) => head,
        _ => return refusal(400, "Bad Request"),
    };
    let (method, path): (&str, &str) = match (&head.method, &head.path) {
        (Some(method), Some(path)) => (method.as_str(), path.as_str()),
        _ => return refusal(400, "Bad Request"),
    };
    if !same_text(normalize_path(path), VM_STATE_PATH) {
        return refusal(404, "Not Found");
    }
    if same_text(method, "GET") {
        let mut answer: Vec<u8> = Vec::new();
        write_http_response(&mut answer, 200, "OK", report_text(stopping).as_str());
        assert(answer@ == http_response(200, "OK"@, report(stopping)));
        Step::Send(answer)
    } else if same_text(method, "POST") {
        let announced = content_length(&head.headers);
        let end = head.len + announced;
        let end = if end <= bytes.len() {
            end
        } else {
            bytes.len()
        };
        Step::Decode(slice_to_vec(slice_subrange(bytes, head.len, end)))
    } else {
        refusal(405, "Method Not Allowed")
    }
}

/// What is done with the bytes that one read from a connection gave; nothing where the announced
/// end of the body is beyond every length.
pub open spec fn handled(bytes: Seq<u8>, stopping: bool) -> Option<StepView> {
    let parsed = parsed_head(bytes, MAX_HEADERS as nat);
    if bytes.len() == 0 {
        Some(StepView::Close)
    } else if body_is_addressable(parsed) {
        Some(routed(parsed, bytes, stopping))
    } else {
        None
    }
}

/// Decides what is done with the bytes that one read from a connection gave.
///
/// There is no step where the announced end of the body is beyond every length.
pub fn handle_incoming_stream(bytes: &[u8], stopping: bool) -> (step: Option<Step>)
    ensures
        match step {
            Some(step) => handled(bytes@, stopping) == Some(step@),
            None => handled(bytes@, stopping) is None,
        },
        step is None <==> bytes@.len() > 0 && !body_is_addressable(
            parsed_head(bytes@, MAX_HEADERS as nat),
        ),
        step matches Some(step) ==> step@ == if bytes@.len() == 0 {
            StepView::Close
        } else {
            routed(parsed_head(bytes@, MAX_HEADERS as nat), bytes@, stopping)
        },
{
    if bytes.len() == 0 {
        return Some(Step::Close);
    }
    let parsed = parse_head(bytes, MAX_HEADERS);
    if has_addressable_body(&parsed) {
        Some(route(&parsed, bytes, stopping))
    } else {
        None
    }
}

/// Whether the end of the announced body can be computed.
fn has_addressable_body(parsed: &Parsed) -> (yes: bool)
    ensures
        yes == body_is_addressable(parsed@),
{
    match parsed {
        Parsed::Complete(head) => match (&head.method, &head.path) {
            (Some(method), Some(path)) => {
                !same_text(method.as_str(), "POST") || !same_text(
                    normalize_path(path.as_str()),
                    VM_STATE_PATH,
                ) || content_length(&head.headers) <= usize::MAX - head.len
            },
            _ => true,
        },
        _ => true,
    }
}

/// The answer to a request for a change of state, and what is to be written to the shutdown
/// event of the machine.
pub struct Answer {
    pub response: Vec<u8>,
    pub shutdown: Option<Vec<u8>>,
}

/// Whether a request asks for the machine to stop.
pub open spec fn asks_to_stop(request: Option<VmStateRequest>) -> bool {
    request is Some && (request->0.state@ == "Stop"@ || request->0.state@ == "HardStop"@)
}

/// The answer to a decoded request; there is none where the body could not be decoded.
pub open spec fn answered(request: Option<VmStateRequest>) -> Seq<u8> {
    match request {
        None => http_response(
            400,
            "Bad Request"@,
            "{\"error\":\"missing or invalid 'state' field\"}"@,
        ),
        Some(change) => if asks_to_stop(request) {
            http_response(200, "OK"@, report(true))
        } else {
            http_response(
                400,
                "Bad Request"@,
                "{\"error\":\"unsupported state change: "@ + change.state@ + "\"}"@,
            )
        },
    }
}

/// What the shutdown event is written with: the number one, in eight bytes, the lowest first.
pub open spec fn shutdown_event() -> Seq<u8> {
    seq![1u8, 0u8, 0u8, 0u8, 0u8, 0u8, 0u8, 0u8]
}

/// Answers a decoded request for a change of state. Stopping is the only change there is.
pub fn change_state(request: Option<VmStateRequest>, stopping: &mut bool) -> (answer: Answer)
    ensures
        *final(stopping) == (*old(stopping) || asks_to_stop(request)),
        answer.response@ == answered(request),
        answer.shutdown is Some <==> asks_to_stop(request),
        answer.shutdown is Some ==> answer.shutdown->0@ == shutdown_event(),
        ({
            let stop = request is Some && (request->0.state@ == "Stop"@ || request->0.state@
                == "HardStop"@);
            &&& stop ==> *final(stopping)
            &&& !stop ==> *final(stopping) == *old(stopping)
            &&& stop ==> answer.shutdown is Some && answer.shutdown->0@ == seq![
                1u8,
                0u8,
                0u8,
                0u8,
                0u8,
                0u8,
                0u8,
                0u8,
            ]
            &&& !stop ==> answer.shutdown is None
            &&& stop ==> answer.response@ == http_response(
                200,
                "OK"@,
                "{\"state\":\"VirtualMachineStateStopping\",\"canStart\":false,\"canPause\":false,\"canResume\":false,\"canStop\":false,\"canHardStop\":false}"@,
            )
            &&& !stop && request is Some ==> answer.response@ == http_response(
                400,
                "Bad Request"@,
                "{\"error\":\"unsupported state change: "@ + request->0.state@ + "\"}"@,
            )
            &&& request is None ==> answer.response@ == http_response(
                400,
                "Bad Request"@,
                "{\"error\":\"missing or invalid 'state' field\"}"@,
            )
        }),
{
    proof {
        law_report_in_full();
    }
    let mut response: Vec<u8> = Vec::new();
    let mut shutdown: Option<Vec<u8>> = None;
    match &request {
        None => {
            write_http_response(
                &mut response,
                400,
                "Bad Request",
                "{\"error\":\"missing or invalid 'state' field\"}",
            );
        },
        Some(change) => {
            let state = change.state.as_str();
            if same_text(state, "Stop") || same_text(state, "HardStop") {
                *stopping = true;
                write_http_response(&mut response, 200, "OK", report_text(true).as_str());
                shutdown = Some(vec![1, 0, 0, 0, 0, 0, 0, 0]);
            } else {
                let mut error = "{\"error\":\"unsupported state change: ".to_owned();
                error.append(state);
                error.append("\"}");
                write_http_response(&mut response, 400, "Bad Request", error.as_str());
            }
        },
    }
    assert(response@ == answered(request));
    Answer { response, shutdown }
}

/// The state after a series of decoded requests.
pub open spec fn stopping_after(stopping: bool, requests: Seq<Option<VmStateRequest>>) -> bool
    decreases requests.len(),
{
    if requests.len() == 0 {
        stopping
    } else {
        stopping_after(stopping, requests.drop_last()) || asks_to_stop(requests.last())
    }
}

/// A machine is stopping exactly from the first request to stop on, and nothing takes it back.
pub proof fn law_stopping_since_first_stop(
    stopping: bool,
    requests: Seq<Option<VmStateRequest>>,
)
    ensures
        stopping_after(stopping, requests) <==> {
            ||| stopping
            ||| exists|i: int| 0 <= i < requests.len() && asks_to_stop(#[trigger] requests[i])
        },
    decreases requests.len(),
{
    if requests.len() > 0 {
        let init = requests.drop_last();
        law_stopping_since_first_stop(stopping, init);
        if exists|i: int| 0 <= i < init.len() && asks_to_stop(#[trigger] init[i]) {
            let i = choose|i: int| 0 <= i < init.len() && asks_to_stop(#[trigger] init[i]);
            assert(asks_to_stop(requests[i]));
        }
        if exists|i: int| 0 <= i < requests.len() && asks_to_stop(#[trigger] requests[i]) {
            let i = choose|i: int| 0 <= i < requests.len() && asks_to_stop(#[trigger] requests[i]);
            if i < init.len() {
                assert(asks_to_stop(init[i]));
            }
        }
    }
}

/// A question for the state is answered with what the requests before it have led to.
pub proof fn law_state_is_reported(
    requests: Seq<Option<VmStateRequest>>,
    head: HeadView,
    bytes: Seq<u8>,
)
    requires
        head.method == Some("GET"@),
        head.path is Some,
        normalized(head.path->0) == VM_STATE_PATH@,
    ensures
        routed(ParsedView::Complete(head), bytes, stopping_after(false, requests))
            == StepView::Send(
            http_response(
                200,
                "OK"@,
                report(
                    exists|i: int|
                        0 <= i < requests.len() && asks_to_stop(#[trigger] requests[i]),
                ),
            ),
        ),
{
    law_stopping_since_first_stop(false, requests);
}

/// A request to stop is answered as a question for the state is from then on.
pub proof fn law_stop_is_answered_with_the_new_state(
    request: Option<VmStateRequest>,
    head: HeadView,
    bytes: Seq<u8>,
)
    requires
        asks_to_stop(request),
        head.method == Some("GET"@),
        head.path is Some,
        normalized(head.path->0) == VM_STATE_PATH@,
    ensures
        routed(ParsedView::Complete(head), bytes, true) == StepView::Send(answered(request)),
{
}

/// The state is found at its path, with one slash at the end or without, whatever the query.
pub proof fn law_path_of_the_state(query: Seq<char>)
    ensures
        normalized(VM_STATE_PATH@) == VM_STATE_PATH@,
        normalized(VM_STATE_PATH@.push('/')) == VM_STATE_PATH@,
        normalized(VM_STATE_PATH@ + seq!['?'] + query) == VM_STATE_PATH@,
        normalized(VM_STATE_PATH@.push('/') + seq!['?'] + query) == VM_STATE_PATH@,
{
    reveal_strlit("/vm/state");
    law_one_trailing_slash_is_ignored(VM_STATE_PATH@);
    law_query_is_ignored(VM_STATE_PATH@, query);
    law_query_is_ignored(VM_STATE_PATH@.push('/'), query);
}

/// Every other path is refused, whatever the method and the state.
pub proof fn law_other_paths_are_not_found(head: HeadView, bytes: Seq<u8>, stopping: bool)
    requires
        head.method is Some,
        head.path is Some,
        normalized(head.path->0) != VM_STATE_PATH@,
    ensures
        routed(ParsedView::Complete(head), bytes, stopping) == StepView::Send(
            http_error(404, "Not Found"@),
        ),
{
}

/// At the path of the state, every method but two is refused.
pub proof fn law_other_methods_are_not_allowed(head: HeadView, bytes: Seq<u8>, stopping: bool)
    requires
        head.method is Some,
        head.method->0 != "GET"@,
        head.method->0 != "POST"@,
        head.path is Some,
        normalized(head.path->0) == VM_STATE_PATH@,
    ensures
        routed(ParsedView::Complete(head), bytes, stopping) == StepView::Send(
            http_error(405, "Method Not Allowed"@),
        ),
{
}

/// Only a request for a change at the path of the state has its body looked at, and that body is
/// a part of what was read.
pub proof fn law_only_changes_are_decoded(parsed: ParsedView, bytes: Seq<u8>, stopping: bool)
    ensures
        routed(parsed, bytes, stopping) is Decode <==> {
            &&& parsed is Complete
            &&& asks_for_change(parsed->Complete_0)
        },
        routed(parsed, bytes, stopping) matches StepView::Decode(body) ==> {
            let head = parsed->Complete_0;
            head.len <= bytes.len() ==> {
                &&& body.is_prefix_of(bytes.skip(head.len as int))
                &&& body.len() <= body_length(head.headers)
            }
        },
{
    reveal_strlit("GET");
    reveal_strlit("POST");
    assert("GET"@.len() != "POST"@.len());
    if routed(parsed, bytes, stopping) is Decode {
        let head = parsed->Complete_0;
        let body = body_of(head, bytes);
        if head.len <= bytes.len() {
            assert(bytes.skip(head.len as int).subrange(0, body.len() as int) == body);
        }
    }
}

/// The file descriptor that the machine returned, unless it is negative.
pub open spec fn valid_eventfd(fd: i32) -> Option<i32> {
    if fd < 0 {
        None
    } else {
        Some(fd)
    }
}

/// The file descriptor of the shutdown event, given what the machine returned for it: a negative
/// number stands for a failure.
pub fn get_shutdown_eventfd(fd: i32) -> (eventfd: Option<i32>)
    ensures
        eventfd == valid_eventfd(fd),
        fd < 0 ==> eventfd is None,
        fd >= 0 ==> eventfd == Some(fd),
{
    if fd < 0 {
        None
    } else {
        Some(fd)
    }
}

/// The report in full: in both states nothing can be started, paused or resumed, and the machine
/// can be stopped exactly while it is not stopping.
pub proof fn law_report_in_full()
    ensures
        report(false)
            == "{\"state\":\"VirtualMachineStateRunning\",\"canStart\":false,\"canPause\":false,\"canResume\":false,\"canStop\":true,\"canHardStop\":true}"@,
        report(true)
            == "{\"state\":\"VirtualMachineStateStopping\",\"canStart\":false,\"canPause\":false,\"canResume\":false,\"canStop\":false,\"canHardStop\":false}"@,
{
    lemma_report_running();
    lemma_report_stopping();
}

proof fn lemma_report_running()
    ensures
        report(false)
            == "{\"state\":\"VirtualMachineStateRunning\",\"canStart\":false,\"canPause\":false,\"canResume\":false,\"canStop\":true,\"canHardStop\":true}"@,
{
    reveal_strlit("VirtualMachineStateRunning");
    reveal_strlit(
        "{\"state\":\"VirtualMachineStateRunning\",\"canStart\":false,\"canPause\":false,\"canResume\":false,\"canStop\":true,\"canHardStop\":true}",
    );
    reveal_strlit("{\"state\":");
    reveal_strlit(",\"canStart\":");
    reveal_strlit(",\"canPause\":");
    reveal_strlit(",\"canResume\":");
    reveal_strlit(",\"canStop\":");
    reveal_strlit(",\"canHardStop\":");
    reveal_strlit("true");
    reveal_strlit("false");
    reveal_strlit("}");
    law_plain_text_is_only_quoted("VirtualMachineStateRunning"@);
}

proof fn lemma_report_stopping()
    ensures
        report(true)
            == "{\"state\":\"VirtualMachineStateStopping\",\"canStart\":false,\"canPause\":false,\"canResume\":false,\"canStop\":false,\"canHardStop\":false}"@,
{
    reveal_strlit("VirtualMachineStateStopping");
    reveal_strlit(
        "{\"state\":\"VirtualMachineStateStopping\",\"canStart\":false,\"canPause\":false,\"canResume\":false,\"canStop\":false,\"canHardStop\":false}",
    );
    reveal_strlit("{\"state\":");
    reveal_strlit(",\"canStart\":");
    reveal_strlit(",\"canPause\":");
    reveal_strlit(",\"canResume\":");
    reveal_strlit(",\"canStop\":");
    reveal_strlit(",\"canHardStop\":");
    reveal_strlit("false");
    reveal_strlit("}");
    law_plain_text_is_only_quoted("VirtualMachineStateStopping"@);
}

/// The texts of the refusals.
proof fn lemma_refusals()
    ensures
        http_error(400, "Bad Request"@) == encode_utf8(
            "HTTP/1.1 400 Bad Request\r\nContent-Length: 0\r\n\r\n"@,
        ),
        http_error(404, "Not Found"@) == encode_utf8(
            "HTTP/1.1 404 Not Found\r\nContent-Length: 0\r\n\r\n"@,
        ),
        http_error(405, "Method Not Allowed"@) == encode_utf8(
            "HTTP/1.1 405 Method Not Allowed\r\nContent-Length: 0\r\n\r\n"@,
        ),
{
    reveal_with_fuel(decimal, 4);
    assert(decimal(400) == seq!['4', '0', '0']);
    assert(decimal(404) == seq!['4', '0', '4']);
    assert(decimal(405) == seq!['4', '0', '5']);
    reveal_strlit("HTTP/1.1 ");
    reveal_strlit(" ");
    reveal_strlit("\r\n");
    reveal_strlit("Content-Length: 0\r\n\r\n");
    reveal_strlit("Bad Request");
    reveal_strlit("Not Found");
    reveal_strlit("Method Not Allowed");
    reveal_strlit("HTTP/1.1 400 Bad Request\r\nContent-Length: 0\r\n\r\n");
    reveal_strlit("HTTP/1.1 404 Not Found\r\nContent-Length: 0\r\n\r\n");
    reveal_strlit("HTTP/1.1 405 Method Not Allowed\r\nContent-Length: 0\r\n\r\n");
    assert("HTTP/1.1 "@ + decimal(400) + " "@ + "Bad Request"@ + "\r\n"@
        + "Content-Length: 0\r\n\r\n"@ == "HTTP/1.1 400 Bad Request\r\nContent-Length: 0\r\n\r\n"@);
    assert("HTTP/1.1 "@ + decimal(404) + " "@ + "Not Found"@ + "\r\n"@
        + "Content-Length: 0\r\n\r\n"@ == "HTTP/1.1 404 Not Found\r\nContent-Length: 0\r\n\r\n"@);
    assert("HTTP/1.1 "@ + decimal(405) + " "@ + "Method Not Allowed"@ + "\r\n"@
        + "Content-Length: 0\r\n\r\n"@
        == "HTTP/1.1 405 Method Not Allowed\r\nContent-Length: 0\r\n\r\n"@);
}

/// Where nothing was read nothing is sent, and only there.
pub proof fn law_nothing_read_nothing_sent(bytes: Seq<u8>, stopping: bool)
    ensures
        handled(bytes, stopping) == Some(StepView::Close) <==> bytes.len() == 0,
{
}

/// Bytes that are not a whole request head, with its method and path and no more than 32 headers,
/// are answered with a refusal, whatever the state.
pub proof fn law_bad_requests_are_refused(bytes: Seq<u8>, stopping: bool)
    requires
        bytes.len() > 0,
        parsed_head(bytes, 32) matches ParsedView::Complete(head) ==> head.method is None
            || head.path is None,
    ensures
        handled(bytes, stopping) == Some(
            StepView::Send(
                encode_utf8("HTTP/1.1 400 Bad Request\r\nContent-Length: 0\r\n\r\n"@),
            ),
        ),
{
    lemma_refusals();
}

/// A request is answered by its path first and by its method then: 404 for any other path, 405
/// for any other method, and the report in full for a question, whatever its body is.
pub proof fn law_requests_are_answered_by_path_and_method(
    bytes: Seq<u8>,
    stopping: bool,
    head: HeadView,
)
    requires
        bytes.len() > 0,
        parsed_head(bytes, 32) == ParsedView::Complete(head),
        head.method is Some,
        head.path is Some,
    ensures
        normalized(head.path->0) != "/vm/state"@ ==> handled(bytes, stopping) == Some(
            StepView::Send(encode_utf8("HTTP/1.1 404 Not Found\r\nContent-Length: 0\r\n\r\n"@)),
        ),
        normalized(head.path->0) == "/vm/state"@ && head.method->0 != "GET"@ && head.method->0
            != "POST"@ ==> handled(bytes, stopping) == Some(
            StepView::Send(
                encode_utf8("HTTP/1.1 405 Method Not Allowed\r\nContent-Length: 0\r\n\r\n"@),
            ),
        ),
        normalized(head.path->0) == "/vm/state"@ && head.method->0 == "GET"@ ==> handled(
            bytes,
            stopping,
        ) == Some(
            StepView::Send(
                http_response(
                    200,
                    "OK"@,
                    if stopping {
                        "{\"state\":\"VirtualMachineStateStopping\",\"canStart\":false,\"canPause\":false,\"canResume\":false,\"canStop\":false,\"canHardStop\":false}"@
                    } else {
                        "{\"state\":\"VirtualMachineStateRunning\",\"canStart\":false,\"canPause\":false,\"canResume\":false,\"canStop\":true,\"canHardStop\":true}"@
                    },
                ),
            ),
        ),
{
    lemma_refusals();
    law_report_in_full();
    reveal_strlit("GET");
    reveal_strlit("POST");
    assert("GET"@.len() != "POST"@.len());
}

/// A request for a change has its body decoded, whatever the state: what follows the head, as long
/// as the headers announce, or to the end of what was read where that comes first. There is no
/// step exactly where the announced end is beyond every length.
pub proof fn law_changes_are_decoded_from_the_body(bytes: Seq<u8>, stopping: bool, head: HeadView)
    requires
        bytes.len() > 0,
        parsed_head(bytes, 32) == ParsedView::Complete(head),
        head.method == Some("POST"@),
        head.path is Some,
        normalized(head.path->0) == "/vm/state"@,
        head.len <= bytes.len(),
    ensures
        handled(bytes, stopping) is None <==> head.len + body_length(head.headers) > usize::MAX,
        handled(bytes, stopping) is Some ==> handled(bytes, stopping)->0 is Decode,
        handled(bytes, stopping) matches Some(StepView::Decode(body)) ==> {
            &&& body.is_prefix_of(bytes.skip(head.len as int))
            &&& body.len() == body_length(head.headers) || body.len() == bytes.len() - head.len
            &&& body.len() <= body_length(head.headers)
        },
{
    reveal_strlit("GET");
    reveal_strlit("POST");
    assert("GET"@.len() != "POST"@.len());
    let body = body_of(head, bytes);
    assert(bytes.skip(head.len as int).subrange(0, body.len() as int) == body);
}

/// Two texts stop the machine, and no other text and no undecodable body does: a stop is answered
/// with the report of a stopping machine, every other change with a refusal that names it.
pub proof fn law_only_stop_and_hard_stop_are_taken(
    request: Option<VmStateRequest>,
    stopping: bool,
    before: Seq<Option<VmStateRequest>>,
)
    ensures
        ({
            let stop = request is Some && (request->0.state@ == "Stop"@ || request->0.state@
                == "HardStop"@);
            let was = stopping_after(stopping, before);
            let now = stopping_after(stopping, before.push(request));
            &&& stop ==> now
            &&& !stop ==> now == was
            &&& asks_to_stop(request) == stop
            &&& stop ==> answered(request) == http_response(
                200,
                "OK"@,
                "{\"state\":\"VirtualMachineStateStopping\",\"canStart\":false,\"canPause\":false,\"canResume\":false,\"canStop\":false,\"canHardStop\":false}"@,
            )
            &&& !stop && request is Some ==> answered(request) == http_response(
                400,
                "Bad Request"@,
                "{\"error\":\"unsupported state change: "@ + request->0.state@ + "\"}"@,
            )
            &&& request is None ==> answered(request) == http_response(
                400,
                "Bad Request"@,
                "{\"error\":\"missing or invalid 'state' field\"}"@,
            )
        }),
{
    law_report_in_full();
    assert(before.push(request).drop_last() == before);
    assert(before.push(request).last() == request);
}

/// What is written to the shutdown event is the number one in eight bytes, the lowest first.
pub proof fn law_shutdown_event_is_one()
    ensures
        shutdown_event().len() == 8,
        spec_u64_from_le_bytes(shutdown_event()) == 1,
{
    lemma_auto_spec_u64_to_from_le_bytes();
    spec_u64_to_le_bytes_to_open(1);
    assert(spec_u64_to_le_bytes_open(1) == shutdown_event()) by {
        assert(1u64 & 0xff == 1 && (1u64 >> 8) & 0xff == 0 && (1u64 >> 16) & 0xff == 0 && (1u64
            >> 24) & 0xff == 0 && (1u64 >> 32) & 0xff == 0 && (1u64 >> 40) & 0xff == 0 && (1u64
            >> 48) & 0xff == 0 && (1u64 >> 56) & 0xff == 0) by (bit_vector);
    }
}

/// How much of a request is read, and how many headers it may have.
pub proof fn law_limits()
    ensures
        REQUEST_LIMIT == 4096,
        MAX_HEADERS == 32,
{
}

/// A file descriptor is what the machine returned, where that is not negative.
pub proof fn law_file_descriptors_are_not_negative(fd: i32, eventfd: i32)
    ensures
        valid_eventfd(fd) == Some(eventfd) <==> fd >= 0 && eventfd == fd,
        valid_eventfd(fd) is None <==> fd < 0,
{
}

} // verus!
