//! What is decided about a client's message, from the frame that brings it to the answer.
//!
//! The transport performs each action and comes back with what the action led to; the
//! functions here say what to do next.
use vstd::prelude::*;

use crate::foreign::{json_object, json_object_text, pairs_view};
use crate::text::join;
use crate::ws::handler::{ConnectionContext, HandlerError};
use crate::ws::types::{Topic, WsSink};

verus! {

/// What arrives from a client.
pub enum ClientFrame {
    /// A text frame.
    Text(String),
    /// A close frame.
    Close,
    /// Any other frame.
    Other,
    /// Nothing any more: the stream has ended, or failed.
    Ended,
}

/// What to do about a frame.
pub enum FrameAction {
    /// Parse the text as a message.
    Parse(String),
    /// Wait for the next frame.
    Ignore,
    /// Stop receiving, and clean up after the connection.
    Disconnect,
}

/// What to do about a text that was parsed.
pub enum ParsedAction<M> {
    /// Hand the message to the handlers.
    Route(M),
    /// Send this text to this sink.
    SendError(WsSink, String),
}

/// A [`ParsedAction`] with the characters of its text.
pub enum ParsedView<M> {
    Route(M),
    SendError(WsSink, Seq<char>),
}

impl<M> View for ParsedAction<M> {
    type V = ParsedView<M>;

    open spec fn view(&self) -> ParsedView<M> {
        match *self {
            ParsedAction::Route(message) => ParsedView::Route(message),
            ParsedAction::SendError(sink, text) => ParsedView::SendError(sink, text@),
        }
    }
}

/// What came of the last step in handling a message; `V` is a direct response and `E` an
/// event to broadcast.
pub enum RouteStep<V, E> {
    /// What the handler for direct messages returned.
    Direct(Result<Option<V>, HandlerError>),
    /// What the handler for broadcast messages returned.
    Broadcast(Result<Option<E>, HandlerError>),
    /// Whether the event was published; if not, why.
    Publish(Result<(), String>),
}

/// What to do next about a message.
pub enum RouteAction<V, E> {
    /// Send the response to this sink; the message is dealt with.
    Respond(WsSink, V),
    /// Call the handler for broadcast messages.
    TryBroadcast,
    /// Publish the event on this topic.
    Publish(Topic, E),
    /// Send this text to this sink; the message is dealt with.
    SendError(WsSink, String),
    /// Nothing; the message is dealt with.
    Done,
}

/// What came of the last step in publishing an event.
pub enum PublishStep {
    /// The text of the event, or why it has none.
    Serialized(Result<String, String>),
    /// Whether there is a connection, if not, why; and the text of the event.
    Connected(Result<(), String>, String),
    /// How many received the event, or why it was not published.
    Published(Result<usize, String>),
}

/// What to do next about an event.
pub enum PublishAction {
    /// Get a connection, with the text at hand.
    Connect(String),
    /// Publish the text on this topic.
    Send(Topic, String),
    /// Nothing; the event is published.
    Succeed,
    /// Nothing; the event is not published, for this reason.
    Fail(String),
}

/// The text of the answer that tells a client about an error.
pub open spec fn error_response(message: Seq<char>) -> Seq<char> {
    json_object_text(seq![("type"@, "error"@), ("message"@, message)])
}

/// The standardized error message to a client: a JSON object with the type `error` and the
/// message.
pub fn send_error_response(message: &str) -> (text: String)
    ensures
        text@ == error_response(message@),
{
    let mut members: Vec<(String, String)> = Vec::new();
    members.push(("type".to_owned(), "error".to_owned()));
    members.push(("message".to_owned(), message.to_owned()));
    assert(pairs_view(members@) =~= seq![("type"@, "error"@), ("message"@, message@)]);
    json_object(&members).unwrap()
}

/// What to do about a frame: text is parsed, a close frame and the end of the stream end
/// the connection, and everything else is passed over.
pub open spec fn frame_action(frame: ClientFrame) -> FrameAction {
    match frame {
        ClientFrame::Text(text) => FrameAction::Parse(text),
        ClientFrame::Close => FrameAction::Disconnect,
        ClientFrame::Other => FrameAction::Ignore,
        ClientFrame::Ended => FrameAction::Disconnect,
    }
}

/// What to do about a frame.
pub fn receive_frame(frame: ClientFrame) -> (action: FrameAction)
    ensures
        action == frame_action(frame),
{
    match frame {
        ClientFrame::Text(text) => FrameAction::Parse(text),
        ClientFrame::Close => FrameAction::Disconnect,
        ClientFrame::Other => FrameAction::Ignore,
        ClientFrame::Ended => FrameAction::Disconnect,
    }
}

/// What to do about a text that a client sent and that was parsed: a message is handed on,
/// and anything else is answered with an error, on the client's own sink.
pub open spec fn parsed_action<M, X>(sink: WsSink, parsed: Result<M, X>) -> ParsedView<M> {
    match parsed {
        Ok(message) => ParsedView::Route(message),
        Err(_) => ParsedView::SendError(sink, error_response("Invalid message format"@)),
    }
}

/// What to do about a text that was parsed.
pub fn receive_parsed<A, U, M, X>(
    context: &ConnectionContext<A, U>,
    parsed: Result<M, X>,
) -> (action: ParsedAction<M>)
    ensures
        action@ == parsed_action(context.sink, parsed),
{
    match parsed {
        Ok(message) => ParsedAction::Route(message),
        Err(_) => {
            ParsedAction::SendError(context.sink, send_error_response("Invalid message format"))
        },
    }
}

/// Whether `text` is the answer that tells a client about `error`.
pub open spec fn tells(text: Seq<char>, error: HandlerError) -> bool {
    exists|message: Seq<char>| #[trigger]
        error.reads(message) && text == error_response(message)
}

/// Whether `action` is what follows `step` in the handling of a message that came from the
/// client with this sink and this topic: answers go to the client's own sink, and events to
/// the client's own topic.
pub open spec fn is_route<V, E>(
    sink: WsSink,
    topic: Seq<char>,
    step: RouteStep<V, E>,
    action: RouteAction<V, E>,
) -> bool {
    match step {
        RouteStep::Direct(Ok(Some(response))) => action == RouteAction::<V, E>::Respond(
            sink,
            response,
        ),
        RouteStep::Direct(Ok(None)) => action is TryBroadcast,
        RouteStep::Direct(Err(error)) => action matches RouteAction::SendError(to, text) && to
            == sink && tells(text@, error),
        RouteStep::Broadcast(Ok(Some(event))) => action matches RouteAction::Publish(on, published)
            && on@ == topic && published == event,
        RouteStep::Broadcast(Ok(None)) => action is Done,
        RouteStep::Broadcast(Err(error)) => action matches RouteAction::SendError(to, text) && to
            == sink && tells(text@, error),
        RouteStep::Publish(Ok(())) => action is Done,
        RouteStep::Publish(Err(_)) => action matches RouteAction::SendError(to, text) && to == sink
            && text@ == error_response("Failed to broadcast event"@),
    }
}

/// Routes a parsed message: the handler for direct messages comes first, and the one for
/// broadcast messages is called only where the first has nothing to answer.
pub fn route_message<A, U, V, E>(
    context: &ConnectionContext<A, U>,
    step: RouteStep<V, E>,
) -> (action: RouteAction<V, E>)
    ensures
        is_route(context.sink, context.topic@, step, action),
{
    match step {
        RouteStep::Direct(Ok(Some(response))) => RouteAction::Respond(context.sink, response),
        RouteStep::Direct(Ok(None)) => RouteAction::TryBroadcast,
        RouteStep::Direct(Err(error)) => {
            RouteAction::SendError(context.sink, send_error_response(error.message().as_str()))
        },
        RouteStep::Broadcast(Ok(Some(event))) => RouteAction::Publish(context.topic.clone(), event),
        RouteStep::Broadcast(Ok(None)) => RouteAction::Done,
        RouteStep::Broadcast(Err(error)) => {
            RouteAction::SendError(context.sink, send_error_response(error.message().as_str()))
        },
        RouteStep::Publish(Ok(())) => RouteAction::Done,
        RouteStep::Publish(Err(_)) => {
            RouteAction::SendError(context.sink, send_error_response("Failed to broadcast event"))
        },
    }
}

/// What is sent to a client's sink of a JSON value, given its text: the text, and nothing where
/// the value has none.
pub fn send_json_to_sink<X>(sink: WsSink, text: Result<String, X>) -> (sent: Result<
    (WsSink, String),
    (),
>)
    ensures
        sent == match text {
            Ok(text) => Ok((sink, text)),
            Err(_) => Err(()),
        },
{
    match text {
        Ok(text) => Ok((sink, text)),
        Err(_) => Err(()),
    }
}

/// Whether `action` is what follows `step` in publishing an event on a topic: its text goes
/// to the topic's channel once there is a connection, and a failure on the way is told with
/// the step that it arose in.
pub open spec fn is_publication(
    topic: Seq<char>,
    step: PublishStep,
    action: PublishAction,
) -> bool {
    match step {
        PublishStep::Serialized(Ok(text)) => action == PublishAction::Connect(text),
        PublishStep::Serialized(Err(cause)) => action matches PublishAction::Fail(reason) && reason@
            == "Failed to serialize event: "@ + cause@,
        PublishStep::Connected(Ok(()), text) => action matches PublishAction::Send(on, sent) && on@
            == topic && sent == text,
        PublishStep::Connected(Err(cause), _) => action matches PublishAction::Fail(reason)
            && reason@ == "Failed to get Redis connection: "@ + cause@,
        PublishStep::Published(Ok(_)) => action is Succeed,
        PublishStep::Published(Err(cause)) => action matches PublishAction::Fail(reason) && reason@
            == "Failed to publish to Redis: "@ + cause@,
    }
}

/// What to do next about an event that is to be published on a topic.
pub fn publish_event(topic: &Topic, step: PublishStep) -> (action: PublishAction)
    ensures
        is_publication(topic@, step, action),
{
    match step {
        PublishStep::Serialized(Ok(text)) => PublishAction::Connect(text),
        PublishStep::Serialized(Err(cause)) => {
            PublishAction::Fail(join("Failed to serialize event: ", cause.as_str()))
        },
        PublishStep::Connected(Ok(()), text) => PublishAction::Send(topic.clone(), text),
        PublishStep::Connected(Err(cause), _) => {
            PublishAction::Fail(join("Failed to get Redis connection: ", cause.as_str()))
        },
        PublishStep::Published(Ok(_)) => PublishAction::Succeed,
        PublishStep::Published(Err(cause)) => {
            PublishAction::Fail(join("Failed to publish to Redis: ", cause.as_str()))
        },
    }
}

} // verus!
