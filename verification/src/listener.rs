//! Opening the endpoint on which requests are answered.

use vstd::pervasive::unreached;
use vstd::prelude::*;

use crate::cleanup::Removal;
use crate::uri::{Ipv4Addr, RestfulUri, RestfulUriView};

verus! {

/// What is to be done next while the endpoint is opened.
#[derive(Debug, PartialEq)]
pub enum ListenerStep {
    /// A TCP socket is to be bound.
    BindTcp(Ipv4Addr, u16),
    /// A file that may be left over at the path of the unix socket is to be removed.
    RemoveSocket(String),
    /// A unix socket is to be bound.
    BindUnix(String),
    /// Connections are to be taken and answered, one after the other.
    Serve,
    /// The endpoint cannot be opened, for this reason.
    Fail(String),
}

/// What a [`ListenerStep`] holds.
pub enum ListenerStepView {
    BindTcp(Ipv4Addr, u16),
    RemoveSocket(Seq<char>),
    BindUnix(Seq<char>),
    Serve,
    Fail(Seq<char>),
}

impl View for ListenerStep {
    type V = ListenerStepView;

    open spec fn view(&self) -> ListenerStepView {
        match self {
            ListenerStep::BindTcp(addr, port) => ListenerStepView::BindTcp(*addr, *port),
            ListenerStep::RemoveSocket(path) => ListenerStepView::RemoveSocket(path@),
            ListenerStep::BindUnix(path) => ListenerStepView::BindUnix(path@),
            ListenerStep::Serve => ListenerStepView::Serve,
            ListenerStep::Fail(reason) => ListenerStepView::Fail(reason@),
        }
    }
}

/// What came of a step.
#[derive(Debug)]
pub enum ListenerEvent {
    /// The left-over file was removed, or was not.
    Removal(Removal),
    /// The socket is bound.
    Bound,
    /// The socket could not be bound, for this reason.
    BindFailed(String),
}

/// The endpoint that is opened: none where none is given.
pub open spec fn chosen(addr: Option<RestfulUri>) -> RestfulUriView {
    match addr {
        Some(uri) => uri@,
        None => RestfulUriView::Disabled,
    }
}

/// The first step towards an endpoint, where there is one.
pub open spec fn first_step(uri: RestfulUriView) -> Option<ListenerStepView> {
    match uri {
        RestfulUriView::Tcp(addr, port) => Some(ListenerStepView::BindTcp(addr, port)),
        RestfulUriView::Unix(path) => Some(ListenerStepView::RemoveSocket(path)),
        RestfulUriView::Disabled => None,
    }
}

/// Whether an event can come of a step.
pub open spec fn fits(step: ListenerStepView, event: ListenerEvent) -> bool {
    match step {
        ListenerStepView::RemoveSocket(_) => event is Removal,
        ListenerStepView::BindTcp(_, _) | ListenerStepView::BindUnix(_) => event is Bound
            || event is BindFailed,
        ListenerStepView::Serve | ListenerStepView::Fail(_) => false,
    }
}

/// The step that follows an event: a missing file is as good as a removed one.
pub open spec fn following(step: ListenerStepView, event: ListenerEvent) -> ListenerStepView {
    match event {
        ListenerEvent::Removal(Removal::Failed(reason)) => ListenerStepView::Fail(
            "failed to remove socket with error "@ + reason@,
        ),
        ListenerEvent::Removal(_) => ListenerStepView::BindUnix(step->RemoveSocket_0),
        ListenerEvent::Bound => ListenerStepView::Serve,
        ListenerEvent::BindFailed(reason) => if step is BindTcp {
            ListenerStepView::Fail("Unable to bind to TCP listener: "@ + reason@)
        } else {
            ListenerStepView::Fail("Unable to bind to unix socket: "@ + reason@)
        },
    }
}

/// Begins to open an endpoint, of which there must be one.
pub fn status_listener(addr: Option<RestfulUri>) -> (step: ListenerStep)
    requires
        chosen(addr) != RestfulUriView::Disabled,
    ensures
        Some(step@) == first_step(chosen(addr)),
        addr matches Some(RestfulUri::Tcp(host, port)) ==> step == ListenerStep::BindTcp(host, port),
        addr matches Some(RestfulUri::Unix(path)) ==> step == ListenerStep::RemoveSocket(path),
{
    match addr {
        Some(RestfulUri::Tcp(addr, port)) => ListenerStep::BindTcp(addr, port),
        Some(RestfulUri::Unix(path)) => ListenerStep::RemoveSocket(path),
        _ => unreached(),
    }
}

/// A reason with what was attempted in front of it.
fn failure(attempt: &str, reason: &str) -> (step: ListenerStep)
    ensures
        step@ == ListenerStepView::Fail(attempt@ + reason@),
{
    let mut text = attempt.to_owned();
    text.append(reason);
    ListenerStep::Fail(text)
}

/// Goes on with the opening of an endpoint, given what came of the last step.
pub fn after_step(step: &ListenerStep, event: &ListenerEvent) -> (next: ListenerStep)
    requires
        fits(step@, *event),
    ensures
        next@ == following(step@, *event),
        event is Bound ==> next == ListenerStep::Serve,
        step matches ListenerStep::RemoveSocket(path) ==> match event {
            ListenerEvent::Removal(Removal::Failed(reason)) => {
                &&& next is Fail
                &&& next->Fail_0@ == "failed to remove socket with error "@ + reason@
            },
            _ => next is BindUnix && next->BindUnix_0@ == path@,
        },
        event matches ListenerEvent::BindFailed(reason) ==> {
            &&& next is Fail
            &&& step is BindTcp ==> next->Fail_0@ == "Unable to bind to TCP listener: "@ + reason@
            &&& step is BindUnix ==> next->Fail_0@ == "Unable to bind to unix socket: "@ + reason@
        },
{
    match event {
        ListenerEvent::Removal(Removal::Failed(reason)) => failure(
            "failed to remove socket with error ",
            reason.as_str(),
        ),
        ListenerEvent::Removal(_) => match step {
            ListenerStep::RemoveSocket(path) => ListenerStep::BindUnix(path.clone()),
            _ => unreached(),
        },
        ListenerEvent::Bound => ListenerStep::Serve,
        ListenerEvent::BindFailed(reason) => match step {
            ListenerStep::BindTcp(_, _) => failure(
                "Unable to bind to TCP listener: ",
                reason.as_str(),
            ),
            _ => failure("Unable to bind to unix socket: ", reason.as_str()),
        },
    }
}

/// A TCP endpoint is served exactly where its address and port can be bound.
pub proof fn law_tcp_endpoint_is_served(addr: Ipv4Addr, port: u16, bind: ListenerEvent)
    requires
        bind is Bound || bind is BindFailed,
    ensures
        ({
            let first = ListenerStepView::BindTcp(addr, port);
            &&& first_step(RestfulUriView::Tcp(addr, port)) == Some(first)
            &&& following(first, bind) == ListenerStepView::Serve <==> bind is Bound
        }),
{
}

/// A unix endpoint is served exactly where its path is free, or was freed, and can be bound.
pub proof fn law_unix_endpoint_is_served(path: Seq<char>, removal: Removal, bind: ListenerEvent)
    requires
        bind is Bound || bind is BindFailed,
    ensures
        ({
            let first = ListenerStepView::RemoveSocket(path);
            let second = following(first, ListenerEvent::Removal(removal));
            &&& first_step(RestfulUriView::Unix(path)) == Some(first)
            &&& removal is Failed <==> second is Fail
            &&& removal !is Failed ==> second == ListenerStepView::BindUnix(path)
            &&& removal !is Failed ==> (following(second, bind) == ListenerStepView::Serve <==> bind
                is Bound)
        }),
{
}

/// A failure to open an endpoint tells what was attempted and why it failed.
pub proof fn law_failures_tell_why(
    event: ListenerEvent,
    addr: Ipv4Addr,
    port: u16,
    path: Seq<char>,
)
    ensures
        event matches ListenerEvent::BindFailed(reason) ==> {
            &&& following(ListenerStepView::BindTcp(addr, port), event) == ListenerStepView::Fail(
                "Unable to bind to TCP listener: "@ + reason@,
            )
            &&& following(ListenerStepView::BindUnix(path), event) == ListenerStepView::Fail(
                "Unable to bind to unix socket: "@ + reason@,
            )
        },
        event matches ListenerEvent::Removal(Removal::Failed(reason)) ==> following(
            ListenerStepView::RemoveSocket(path),
            event,
        ) == ListenerStepView::Fail("failed to remove socket with error "@ + reason@),
{
}

/// Removing a file can end in any of its ways and binding a socket in success or failure; nothing
/// comes of serving or of having failed.
pub proof fn law_events_of_each_step(
    event: ListenerEvent,
    addr: Ipv4Addr,
    port: u16,
    text: Seq<char>,
)
    ensures
        fits(ListenerStepView::RemoveSocket(text), event) <==> event is Removal,
        fits(ListenerStepView::BindTcp(addr, port), event) <==> event !is Removal,
        fits(ListenerStepView::BindUnix(text), event) <==> event !is Removal,
        !fits(ListenerStepView::Serve, event),
        !fits(ListenerStepView::Fail(text), event),
{
}

/// An endpoint that is not given is none, and one that is given is the one that is opened.
pub proof fn law_endpoint_is_the_given_one(addr: Option<RestfulUri>)
    ensures
        addr is None ==> chosen(addr) == RestfulUriView::Disabled,
        addr matches Some(RestfulUri::Tcp(host, port)) ==> chosen(addr) == RestfulUriView::Tcp(
            host,
            port,
        ),
        addr matches Some(RestfulUri::Unix(path)) ==> chosen(addr) == RestfulUriView::Unix(path@),
        addr matches Some(RestfulUri::Disabled) ==> chosen(addr) == RestfulUriView::Disabled,
{
}

} // verus!
