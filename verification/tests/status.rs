use krun_status::request::{content_length, normalize_path, Head, Header, Parsed};
use krun_status::response::{write_http_error, write_http_response, VmStateResponse};
use krun_status::status::{
    change_state, get_shutdown_eventfd, handle_incoming_stream, route, Answer, Step,
    VmStateRequest,
};

fn make_request(method: &str, path: &str, body: Option<&str>) -> Vec<u8> {
    let mut req = format!("{method} {path} HTTP/1.1\r\nHost: localhost\r\n");
    if let Some(b) = body {
        req.push_str(&format!("Content-Length: {}\r\n", b.len()));
        req.push_str("Content-Type: application/json\r\n");
    }
    req.push_str("\r\n");
    if let Some(b) = body {
        req.push_str(b);
    }
    req.into_bytes()
}

fn decode(body: &[u8]) -> Option<VmStateRequest> {
    let value: serde_json::Value = serde_json::from_slice(body).ok()?;
    let state = value.get("state")?.as_str()?.to_string();
    Some(VmStateRequest { state })
}

fn answer_request(request: &[u8], stopping: &mut bool) -> Answer {
    match handle_incoming_stream(request, *stopping) {
        Some(Step::Send(response)) => Answer { response, shutdown: None },
        Some(Step::Decode(body)) => change_state(decode(&body), stopping),
        Some(Step::Close) => Answer { response: Vec::new(), shutdown: None },
        None => panic!("the announced body has no end"),
    }
}

fn handle_request(request: &[u8], stopping: &mut bool) -> String {
    String::from_utf8(answer_request(request, stopping).response).unwrap()
}

fn response_status(response: &str) -> u16 {
    response
        .split_whitespace()
        .nth(1)
        .and_then(|s| s.parse().ok())
        .unwrap()
}

fn response_body(response: &str) -> &str {
    response.split("\r\n\r\n").nth(1).unwrap_or("")
}

fn header(name: &str, value: &[u8]) -> Header {
    Header { name: name.to_string(), value: value.to_vec() }
}

fn head(method: Option<&str>, path: Option<&str>, len: usize, headers: Vec<Header>) -> Parsed {
    Parsed::Complete(Head {
        len,
        method: method.map(|m| m.to_string()),
        path: path.map(|p| p.to_string()),
        headers,
    })
}

fn sent(step: Step) -> String {
    match step {
        Step::Send(bytes) => String::from_utf8(bytes).unwrap(),
        _ => panic!("no answer"),
    }
}

#[test]
fn get_vm_state_returns_running() {
    let req = make_request("GET", "/vm/state", None);
    let mut stopping = false;
    let resp = handle_request(&req, &mut stopping);
    assert_eq!(response_status(&resp), 200);
    let body = response_body(&resp);
    assert!(body.contains("\"state\":\"VirtualMachineStateRunning\""));
    assert!(body.contains("\"canStop\":true"));
}

#[test]
fn get_vm_state_trailing_slash() {
    let req = make_request("GET", "/vm/state/", None);
    let mut stopping = false;
    let resp = handle_request(&req, &mut stopping);
    assert_eq!(response_status(&resp), 200);
    assert!(response_body(&resp).contains("VirtualMachineStateRunning"));
}

#[test]
fn get_vm_state_while_stopping() {
    let req = make_request("GET", "/vm/state", None);
    let mut stopping = true;
    let resp = handle_request(&req, &mut stopping);
    assert_eq!(response_status(&resp), 200);
    let body = response_body(&resp);
    assert!(body.contains("\"state\":\"VirtualMachineStateStopping\""));
    assert!(body.contains("\"canStop\":false"));
}

#[test]
fn post_stop_returns_stopping() {
    let req = make_request("POST", "/vm/state", Some("{\"state\":\"Stop\"}"));
    let mut stopping = false;
    let resp = handle_request(&req, &mut stopping);
    assert_eq!(response_status(&resp), 200);
    assert!(response_body(&resp).contains("VirtualMachineStateStopping"));
    assert!(stopping);
}

#[test]
fn post_hardstop_returns_stopping() {
    let req = make_request("POST", "/vm/state", Some("{\"state\":\"HardStop\"}"));
    let mut stopping = false;
    let resp = handle_request(&req, &mut stopping);
    assert_eq!(response_status(&resp), 200);
    assert!(stopping);
}

#[test]
fn post_invalid_state_returns_400() {
    let req = make_request("POST", "/vm/state", Some("{\"state\":\"Pause\"}"));
    let mut stopping = false;
    let resp = handle_request(&req, &mut stopping);
    assert_eq!(response_status(&resp), 400);
    assert!(!stopping);
}

#[test]
fn post_missing_body_returns_400() {
    let req = make_request("POST", "/vm/state", None);
    let mut stopping = false;
    let resp = handle_request(&req, &mut stopping);
    assert_eq!(response_status(&resp), 400);
}

#[test]
fn unknown_path_returns_404() {
    let req = make_request("GET", "/vm/inspect", None);
    let mut stopping = false;
    let resp = handle_request(&req, &mut stopping);
    assert_eq!(response_status(&resp), 404);
}

#[test]
fn unknown_method_returns_405() {
    let req = make_request("DELETE", "/vm/state", None);
    let mut stopping = false;
    let resp = handle_request(&req, &mut stopping);
    assert_eq!(response_status(&resp), 405);
}

#[test]
fn path_with_query_string() {
    let req = make_request("GET", "/vm/state?foo=bar", None);
    let mut stopping = false;
    let resp = handle_request(&req, &mut stopping);
    assert_eq!(response_status(&resp), 200);
}

#[test]
fn serialize_vm_state_response() {
    let resp = VmStateResponse::new("VirtualMachineStateRunning", true);
    let json: serde_json::Value = serde_json::from_str(&resp.to_json()).unwrap();
    assert_eq!(json["state"], "VirtualMachineStateRunning");
    assert_eq!(json["canStop"], true);
    assert_eq!(json["canHardStop"], true);
    assert_eq!(json["canPause"], false);
}

#[test]
fn state_text_is_escaped() {
    let text = VmStateResponse::new("a\"b\\c\n\t\r\u{8}\u{c}\u{1}\u{1f}\u{7f}/\u{e9}", false).to_json();
    assert_eq!(
        text,
        "{\"state\":\"a\\\"b\\\\c\\n\\t\\r\\b\\f\\u0001\\u001f\u{7f}/\u{e9}\",\"canStart\":false,\
         \"canPause\":false,\"canResume\":false,\"canStop\":false,\"canHardStop\":false}"
    );
}

#[test]
fn plain_state_text_is_only_quoted() {
    let text = VmStateResponse::new("Plain text", true).to_json();
    assert!(text.starts_with("{\"state\":\"Plain text\",\"canStart\":false,"));
    assert!(text.ends_with(",\"canStop\":true,\"canHardStop\":true}"));
}

#[test]
fn whole_answer_while_running() {
    let mut stopping = false;
    let resp = handle_request(&make_request("GET", "/vm/state", None), &mut stopping);
    assert_eq!(
        resp,
        "HTTP/1.1 200 OK\r\nContent-Type: application/json\r\nContent-Length: 124\r\n\r\n\
         {\"state\":\"VirtualMachineStateRunning\",\"canStart\":false,\"canPause\":false,\
         \"canResume\":false,\"canStop\":true,\"canHardStop\":true}"
    );
}

#[test]
fn announced_length_counts_bytes() {
    let mut out = vec![7u8];
    write_http_response(&mut out, 200, "OK", "\u{e9}\u{20ac}");
    assert_eq!(out[0], 7);
    assert_eq!(
        &out[1..],
        "HTTP/1.1 200 OK\r\nContent-Type: application/json\r\nContent-Length: 5\r\n\r\n\u{e9}\u{20ac}"
            .as_bytes()
    );
}

#[test]
fn answer_without_body() {
    let mut out = Vec::new();
    write_http_error(&mut out, 404, "Not Found");
    assert_eq!(out, b"HTTP/1.1 404 Not Found\r\nContent-Length: 0\r\n\r\n");
}

#[test]
fn stop_is_remembered_and_signalled() {
    let mut stopping = false;
    let stop = make_request("POST", "/vm/state", Some("{\"state\":\"Stop\"}"));
    let answer = answer_request(&stop, &mut stopping);
    assert_eq!(answer.shutdown, Some(vec![1, 0, 0, 0, 0, 0, 0, 0]));
    assert_eq!(answer.shutdown, Some(1u64.to_le_bytes().to_vec()));
    let asked = answer_request(&make_request("GET", "/vm/state", None), &mut stopping);
    assert_eq!(asked.response, answer.response);
    assert_eq!(asked.shutdown, None);
    let pause = make_request("POST", "/vm/state", Some("{\"state\":\"Pause\"}"));
    let refused = answer_request(&pause, &mut stopping);
    assert_eq!(refused.shutdown, None);
    assert!(stopping);
}

#[test]
fn unsupported_change_is_named() {
    let mut stopping = false;
    let pause = make_request("POST", "/vm/state", Some("{\"state\":\"Pause\"}"));
    let resp = handle_request(&pause, &mut stopping);
    assert_eq!(response_body(&resp), "{\"error\":\"unsupported state change: Pause\"}");
}

#[test]
fn undecodable_change_is_refused() {
    let mut stopping = true;
    let answer = change_state(None, &mut stopping);
    let resp = String::from_utf8(answer.response).unwrap();
    assert_eq!(response_status(&resp), 400);
    assert_eq!(response_body(&resp), "{\"error\":\"missing or invalid 'state' field\"}");
    assert_eq!(answer.shutdown, None);
    assert!(stopping);
}

#[test]
fn nothing_read_nothing_sent() {
    assert!(matches!(handle_incoming_stream(b"", false), Some(Step::Close)));
}

#[test]
fn incomplete_and_invalid_heads_are_bad_requests() {
    let bad = "HTTP/1.1 400 Bad Request\r\nContent-Length: 0\r\n\r\n";
    let mut stopping = false;
    assert_eq!(handle_request(b"GET /vm/state HTTP/1.1\r\nHost:", &mut stopping), bad);
    assert_eq!(handle_request(b"\x00\x01", &mut stopping), bad);
    assert_eq!(sent(route(&head(None, Some("/vm/state"), 0, vec![]), b"", false)), bad);
    assert_eq!(sent(route(&head(Some("GET"), None, 0, vec![]), b"", false)), bad);
    assert_eq!(sent(route(&Parsed::Partial, b"", false)), bad);
    assert_eq!(sent(route(&Parsed::Invalid, b"", false)), bad);
}

#[test]
fn headers_beyond_the_room_are_a_bad_request() {
    let mut stopping = false;
    let mut req = String::from("GET /vm/state HTTP/1.1\r\n");
    for i in 0..32 {
        req.push_str(&format!("H{i}: v\r\n"));
    }
    let fits = format!("{req}\r\n");
    assert_eq!(response_status(&handle_request(fits.as_bytes(), &mut stopping)), 200);
    let beyond = format!("{req}One: more\r\n\r\n");
    assert_eq!(response_status(&handle_request(beyond.as_bytes(), &mut stopping)), 400);
}

#[test]
fn path_is_looked_at_before_the_method() {
    let mut stopping = false;
    let resp = handle_request(&make_request("DELETE", "/vm", None), &mut stopping);
    assert_eq!(resp, "HTTP/1.1 404 Not Found\r\nContent-Length: 0\r\n\r\n");
    let resp = handle_request(&make_request("get", "/vm/state", None), &mut stopping);
    assert_eq!(resp, "HTTP/1.1 405 Method Not Allowed\r\nContent-Length: 0\r\n\r\n");
}

#[test]
fn body_is_cut_to_the_announced_length_and_to_what_was_read() {
    let mut bytes = b"head{\"state\":\"Stop\"}rest".to_vec();
    let announced = |n: &[u8]| head(Some("POST"), Some("/vm/state"), 4, vec![header("content-length", n)]);
    match route(&announced(b"16"), &bytes, false) {
        Step::Decode(body) => assert_eq!(body, b"{\"state\":\"Stop\"}"),
        _ => panic!("not decoded"),
    }
    bytes.truncate(10);
    match route(&announced(b"16"), &bytes, false) {
        Step::Decode(body) => assert_eq!(body, b"{\"stat"),
        _ => panic!("not decoded"),
    }
    match route(&head(Some("POST"), Some("/vm/state"), 4, vec![]), &bytes, false) {
        Step::Decode(body) => assert_eq!(body, b""),
        _ => panic!("not decoded"),
    }
}

#[test]
fn body_without_an_end_gives_no_step() {
    let req = format!("POST /vm/state HTTP/1.1\r\nContent-Length: {}\r\n\r\n", usize::MAX);
    assert!(handle_incoming_stream(req.as_bytes(), false).is_none());
    let req = format!("GET /vm/state HTTP/1.1\r\nContent-Length: {}\r\n\r\n", usize::MAX);
    assert!(handle_incoming_stream(req.as_bytes(), false).is_some());
}

#[test]
fn content_length_of_headers() {
    assert_eq!(content_length(&vec![]), 0);
    assert_eq!(content_length(&vec![header("Host", b"7")]), 0);
    assert_eq!(content_length(&vec![header("CONTENT-LENGTH", b"15")]), 15);
    assert_eq!(content_length(&vec![header("Content-Length", b"+0015")]), 15);
    assert_eq!(content_length(&vec![header("Content-Length", b"-1")]), 0);
    assert_eq!(content_length(&vec![header("Content-Length", b"")]), 0);
    assert_eq!(content_length(&vec![header("Content-Length", b"+")]), 0);
    assert_eq!(content_length(&vec![header("Content-Length", b"\xff1")]), 0);
    assert_eq!(content_length(&vec![header("Content-Length", b"18446744073709551616")]), 0);
    assert_eq!(
        content_length(&vec![header("Content-Length", b"x"), header("Content-Length", b"3")]),
        0
    );
    assert_eq!(
        content_length(&vec![header("A", b"9"), header("content-Length", b"3")]),
        3
    );
}

#[test]
fn normalized_paths() {
    assert_eq!(normalize_path("/vm/state"), "/vm/state");
    assert_eq!(normalize_path("/vm/state/"), "/vm/state");
    assert_eq!(normalize_path("/vm/state//"), "/vm/state/");
    assert_eq!(normalize_path("/vm/state/?a=/"), "/vm/state");
    assert_eq!(normalize_path("/vm?/state"), "/vm");
    assert_eq!(normalize_path("/"), "");
    assert_eq!(normalize_path(""), "");
    assert_eq!(normalize_path("/\u{e9}/?x"), "/\u{e9}");
}

#[test]
fn negative_eventfd_is_a_failure() {
    assert_eq!(get_shutdown_eventfd(-1), None);
    assert_eq!(get_shutdown_eventfd(0), Some(0));
    assert_eq!(get_shutdown_eventfd(9), Some(9));
}
