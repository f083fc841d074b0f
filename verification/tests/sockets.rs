use krun_status::cleanup::{remove_sockets, LogLine, Removal};
use krun_status::listener::{after_step, status_listener, ListenerEvent, ListenerStep};
use krun_status::uri::{Ipv4Addr, RestfulUri};

#[test]
fn every_socket_is_tried_in_order() {
    let paths = vec!["/a".to_string(), "/b".to_string(), "/c".to_string()];
    let mut outcomes = Vec::new();
    let step = remove_sockets(&paths, &outcomes);
    assert_eq!((step.line, step.remove), (None, Some(0)));
    outcomes.push(Removal::Failed("busy".to_string()));
    let step = remove_sockets(&paths, &outcomes);
    let line = LogLine::Warn("failed to remove vsock socket /a: busy".to_string());
    assert_eq!((step.line, step.remove), (Some(line), Some(1)));
    outcomes.push(Removal::Missing);
    let step = remove_sockets(&paths, &outcomes);
    assert_eq!((step.line, step.remove), (None, Some(2)));
    outcomes.push(Removal::Removed);
    let step = remove_sockets(&paths, &outcomes);
    let line = LogLine::Info("removed vsock socket: /c".to_string());
    assert_eq!((step.line, step.remove), (Some(line), None));
}

#[test]
fn no_socket_nothing_to_remove() {
    let step = remove_sockets(&vec![], &vec![]);
    assert_eq!((step.line, step.remove), (None, None));
}

#[test]
fn tcp_endpoint_is_bound_and_served() {
    let step = status_listener(Some(RestfulUri::Tcp(Ipv4Addr::new(127, 0, 0, 1), 80)));
    assert_eq!(step, ListenerStep::BindTcp(Ipv4Addr::new(127, 0, 0, 1), 80));
    assert_eq!(after_step(&step, &ListenerEvent::Bound), ListenerStep::Serve);
    assert_eq!(
        after_step(&step, &ListenerEvent::BindFailed("taken".to_string())),
        ListenerStep::Fail("Unable to bind to TCP listener: taken".to_string())
    );
}

#[test]
fn unix_endpoint_is_freed_bound_and_served() {
    let first = status_listener(Some(RestfulUri::Unix("/s".to_string())));
    assert_eq!(first, ListenerStep::RemoveSocket("/s".to_string()));
    let bind = ListenerStep::BindUnix("/s".to_string());
    assert_eq!(after_step(&first, &ListenerEvent::Removal(Removal::Missing)), bind);
    assert_eq!(after_step(&first, &ListenerEvent::Removal(Removal::Removed)), bind);
    assert_eq!(
        after_step(&first, &ListenerEvent::Removal(Removal::Failed("denied".to_string()))),
        ListenerStep::Fail("failed to remove socket with error denied".to_string())
    );
    assert_eq!(after_step(&bind, &ListenerEvent::Bound), ListenerStep::Serve);
    assert_eq!(
        after_step(&bind, &ListenerEvent::BindFailed("taken".to_string())),
        ListenerStep::Fail("Unable to bind to unix socket: taken".to_string())
    );
}
