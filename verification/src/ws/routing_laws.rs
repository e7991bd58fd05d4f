//! What the decisions about frames, messages, events, errors and upgrades come to, whoever the
//! client is and whatever the texts say.
use axum::http::StatusCode;
use vstd::prelude::*;
use vstd::std_specs::convert::FromSpec;
use vstd::string::to_string_from_display_ensures;

use crate::foreign::json_object_text;
use crate::ws::handler::{
    custom_message, serialization_message, ConnectionContext, HandlerError,
};
use crate::ws::protocol_laws::{
    is_handling, is_publishing, law_client_is_answered_at_most_once,
    law_event_is_sent_as_serialized,
};
use crate::ws::routing::{
    is_publication, is_route, publish_event, receive_frame, receive_parsed, route_message,
    send_error_response, send_json_to_sink, ClientFrame, FrameAction, ParsedAction, PublishAction,
    PublishStep, RouteAction, RouteStep,
};
use crate::ws::types::{Topic, WsSink};
use crate::ws::upgrade::{upgrade_handler, UpgradeDecision};

verus! {

/// Every text frame is parsed, with all that it holds; a close frame and the end of the stream
/// end the connection, nothing else does, and any other frame is passed over.
pub proof fn law_texts_alone_are_parsed(frame: ClientFrame, action: FrameAction)
    requires
        call_ensures(receive_frame, (frame,), action),
    ensures
        action is Parse <==> frame is Text,
        frame matches ClientFrame::Text(text) ==> (action matches FrameAction::Parse(parsed)
            && parsed == text),
        action is Disconnect <==> frame is Close || frame is Ended,
        action is Ignore <==> frame is Other,
{
}

/// The answer about an error is a JSON object with the type `error` and the whole message.
pub proof fn law_error_answer_holds_the_message(
    message: &str,
    text: String,
    members: Seq<(Seq<char>, Seq<char>)>,
)
    requires
        call_ensures(send_error_response, (message,), text),
        members.len() == 2,
        members[0].0 == "type"@,
        members[0].1 == "error"@,
        members[1].0 == "message"@,
        members[1].1 == message@,
    ensures
        text@ == json_object_text(members),
{
    assert(members =~= seq![("type"@, "error"@), ("message"@, message@)]);
}

/// A text that parses is routed as the message that it is, and any other is answered with one
/// error on the client's own sink.
pub proof fn law_parsed_messages_are_routed<A, U, M, X>(
    context: &ConnectionContext<A, U>,
    parsed: Result<M, X>,
    action: ParsedAction<M>,
    answer: String,
)
    requires
        call_ensures(receive_parsed::<A, U, M, X>, (context, parsed), action),
        call_ensures(send_error_response, ("Invalid message format",), answer),
    ensures
        parsed matches Ok(message) ==> (action matches ParsedAction::Route(routed) && routed
            == message),
        parsed is Err ==> (action matches ParsedAction::SendError(sink, text) && sink
            == context.sink && text@ == answer@),
{
}

/// What a client is told about an error: the handler's own message, whole; without one what
/// the status code displays; and of an error in serialization what that error displays, behind
/// an introduction.
pub proof fn law_error_tells_its_message(error: HandlerError, text: String)
    requires
        call_ensures(HandlerError::message, (error,), text),
    ensures
        error matches HandlerError::Custom(_, Some(message)) ==> text@ == message@,
        error matches HandlerError::Custom(code, None) ==> exists|shown: String| #[trigger]
            to_string_from_display_ensures::<StatusCode>(&code, shown) && text@ == shown@,
        error matches HandlerError::Serialization(cause) ==> exists|shown: String| #[trigger]
            to_string_from_display_ensures::<serde_json::Error>(&cause, shown) && text@
                == "Response serialization error: "@ + shown@,
{
}

/// The two texts that a client is told about an error, given what is displayed.
pub proof fn law_error_texts(
    message: Option<String>,
    shown: String,
    cause: &str,
    custom: String,
    serialization: String,
)
    requires
        call_ensures(custom_message, (message, shown), custom),
        call_ensures(serialization_message, (cause,), serialization),
    ensures
        message matches Some(message) ==> custom@ == message@,
        message is None ==> custom@ == shown@,
        serialization@ == "Response serialization error: "@ + cause@,
{
}

/// An error is made of what it is made from.
pub proof fn law_errors_keep_their_cause(
    code: StatusCode,
    message: Option<String>,
    cause: serde_json::Error,
)
    ensures
        <HandlerError as FromSpec<(StatusCode, Option<String>)>>::obeys_from_spec(),
        <HandlerError as FromSpec<(StatusCode, Option<String>)>>::from_spec((code, message))
            == HandlerError::Custom(code, message),
        <HandlerError as FromSpec<serde_json::Error>>::obeys_from_spec(),
        <HandlerError as FromSpec<serde_json::Error>>::from_spec(cause)
            == HandlerError::Serialization(cause),
{
}

/// What follows each step in the handling of a message, on whatever topic: a direct answer is
/// sent to the client as it is; without one the message goes to the broadcast handler, always;
/// what that hands out is published as it is, on the client's topic, always; and a message is
/// dealt with in silence only where the broadcast handler had nothing to hand out, or what it
/// handed out was published.
pub proof fn law_route_follows_the_handlers<A, U, V, E>(
    context: &ConnectionContext<A, U>,
    step: RouteStep<V, E>,
    action: RouteAction<V, E>,
)
    requires
        call_ensures(route_message::<A, U, V, E>, (context, step), action),
    ensures
        action is TryBroadcast <==> (step matches RouteStep::Direct(Ok(answer)) && answer is None),
        step matches RouteStep::Direct(Ok(Some(answer))) ==> (action matches RouteAction::Respond(
            sink,
            sent,
        ) && sink == context.sink && sent == answer),
        action is Respond ==> (step matches RouteStep::Direct(Ok(answer)) && answer is Some),
        step matches RouteStep::Broadcast(Ok(Some(event))) ==> (
        action matches RouteAction::Publish(topic, published) && topic@ == context.topic@
            && published == event),
        action is Publish ==> (step matches RouteStep::Broadcast(Ok(event)) && event is Some),
        action is Done <==> match step {
            RouteStep::Direct(_) => false,
            RouteStep::Broadcast(result) => result matches Ok(event) && event is None,
            RouteStep::Publish(result) => result is Ok,
        },
        action matches RouteAction::SendError(sink, _) ==> sink == context.sink,
{
}

/// A handler's error is answered with one JSON object on the client's own sink, which holds
/// the whole of what the error tells.
pub proof fn law_handler_errors_are_answered<A, U, V, E>(
    context: &ConnectionContext<A, U>,
    step: RouteStep<V, E>,
    action: RouteAction<V, E>,
    error: HandlerError,
)
    requires
        call_ensures(route_message::<A, U, V, E>, (context, step), action),
        step == RouteStep::<V, E>::Direct(Err(error)) || step == RouteStep::<V, E>::Broadcast(
            Err(error),
        ),
    ensures
        action is SendError,
        action->SendError_0 == context.sink,
        error matches HandlerError::Custom(_, Some(message)) ==> action->SendError_1@
            == json_object_text(seq![("type"@, "error"@), ("message"@, message@)]),
        error matches HandlerError::Custom(code, None) ==> exists|shown: String| #[trigger]
            to_string_from_display_ensures::<StatusCode>(&code, shown) && action->SendError_1@
                == json_object_text(seq![("type"@, "error"@), ("message"@, shown@)]),
        error matches HandlerError::Serialization(cause) ==> exists|shown: String| #[trigger]
            to_string_from_display_ensures::<serde_json::Error>(&cause, shown)
                && action->SendError_1@ == json_object_text(
                seq![
                    ("type"@, "error"@),
                    ("message"@, "Response serialization error: "@ + shown@),
                ],
            ),
{
}

/// An event that could not be published is answered with an error on the client's own sink,
/// whatever the reason was.
pub proof fn law_failed_broadcasts_are_answered<A, U, V, E>(
    context: &ConnectionContext<A, U>,
    reason: String,
    action: RouteAction<V, E>,
)
    requires
        call_ensures(
            route_message::<A, U, V, E>,
            (context, RouteStep::Publish(Err(reason))),
            action,
        ),
    ensures
        action is SendError,
        action->SendError_0 == context.sink,
        action->SendError_1@ == json_object_text(
            seq![("type"@, "error"@), ("message"@, "Failed to broadcast event"@)],
        ),
{
}

/// On every topic: a message that the handler for direct messages leaves unanswered reaches
/// the broadcast handler; the event that this hands out is published; and the message is dealt
/// with in silence only after that, or where there is nothing to publish.
pub proof fn law_unanswered_message_is_broadcast<V, E>(
    sink: WsSink,
    topic: Seq<char>,
    steps: Seq<RouteStep<V, E>>,
    actions: Seq<RouteAction<V, E>>,
)
    requires
        is_handling(sink, topic, steps, actions),
        steps[0] matches RouteStep::Direct(Ok(answer)) && answer is None,
    ensures
        actions[0] is TryBroadcast,
        actions.len() > 1 ==> steps[1] is Broadcast,
        actions.len() > 1 ==> (steps[1] matches RouteStep::Broadcast(Ok(Some(event))) ==> (
        actions[1] matches RouteAction::Publish(on, published) && on@ == topic && published
            == event)),
        actions.last() is Done ==> actions.len() > 1 && match steps.last() {
            RouteStep::Direct(_) => false,
            RouteStep::Broadcast(result) => result matches Ok(event) && event is None,
            RouteStep::Publish(result) => result is Ok && actions[1] is Publish,
        },
{
    let last = steps.len() - 1;
    assert(is_route(sink, topic, steps[0], actions[0]));
    if steps.len() > 1 {
        assert(is_route(sink, topic, steps[1], actions[1]));
    }
    if steps.len() > 2 {
        assert(is_route(sink, topic, steps[2], actions[2]));
    }
    assert(is_route(sink, topic, steps[last], actions[last]));
    law_client_is_answered_at_most_once(sink, topic, steps, actions);
}

/// A JSON value that has a text is sent with that text to the sink that was named, and one
/// without is not sent.
pub proof fn law_values_are_sent_as_they_read<X>(
    sink: WsSink,
    text: Result<String, X>,
    sent: Result<(WsSink, String), ()>,
)
    requires
        call_ensures(send_json_to_sink::<X>, (sink, text), sent),
    ensures
        sent is Ok <==> text is Ok,
        text matches Ok(text) ==> (sent matches Ok(sent) && sent.0 == sink && sent.1 == text),
{
}

/// Publishing goes on from every step that succeeded and fails only where the step failed,
/// with the reason whole behind the name of the step: the text of the event is kept until
/// there is a connection and then sent, whole, on its own topic.
pub proof fn law_publishing_fails_only_with_a_step(
    topic: &Topic,
    step: PublishStep,
    action: PublishAction,
)
    requires
        call_ensures(publish_event, (topic, step), action),
    ensures
        action is Fail <==> match step {
            PublishStep::Serialized(result) => result is Err,
            PublishStep::Connected(result, _) => result is Err,
            PublishStep::Published(result) => result is Err,
        },
        step matches PublishStep::Serialized(Ok(text)) ==> (action matches PublishAction::Connect(
            kept,
        ) && kept@ == text@),
        step matches PublishStep::Connected(Ok(()), text) ==> (action matches PublishAction::Send(
            on,
            sent,
        ) && on@ == topic@ && sent@ == text@),
        step matches PublishStep::Published(Ok(_)) ==> action is Succeed,
        step matches PublishStep::Serialized(Err(cause)) ==> (action matches PublishAction::Fail(
            reason,
        ) && reason@ == "Failed to serialize event: "@ + cause@),
        step matches PublishStep::Connected(Err(cause), _) ==> (action matches PublishAction::Fail(
            reason,
        ) && reason@ == "Failed to get Redis connection: "@ + cause@),
        step matches PublishStep::Published(Err(cause)) ==> (action matches PublishAction::Fail(
            reason,
        ) && reason@ == "Failed to publish to Redis: "@ + cause@),
{
}

/// An event of whatever length, on whatever topic, that no step failed for is published: in
/// three steps, of which the second sends the text of the event on the topic.
pub proof fn law_publishing_without_failure_succeeds(
    topic: Seq<char>,
    steps: Seq<PublishStep>,
    actions: Seq<PublishAction>,
)
    requires
        is_publishing(topic, steps, actions),
        forall|i: int|
            0 <= i < steps.len() ==> match #[trigger] steps[i] {
                PublishStep::Serialized(result) => result is Ok,
                PublishStep::Connected(result, _) => result is Ok,
                PublishStep::Published(result) => result is Ok,
            },
        actions.last() is Succeed || actions.last() is Fail,
    ensures
        steps.len() == 3,
        actions[0] is Connect,
        steps[0] matches PublishStep::Serialized(Ok(text)) && (
        actions[1] matches PublishAction::Send(on, sent) && on@ == topic && sent@ == text@),
        actions[2] is Succeed,
{
    assert(is_publication(topic, steps[0], actions[0]));
    if steps.len() > 1 {
        assert(is_publication(topic, steps[1], actions[1]));
    }
    if steps.len() > 2 {
        assert(is_publication(topic, steps[2], actions[2]));
    }
    law_event_is_sent_as_serialized(topic, steps, actions);
}

/// Only a request that the validator lets pass is upgraded; any other is answered with the
/// status that the validator gave.
pub proof fn law_validated_requests_are_upgraded(
    validation_result: Result<(), StatusCode>,
    decision: UpgradeDecision,
)
    requires
        call_ensures(upgrade_handler, (validation_result,), decision),
    ensures
        decision is Upgrade <==> validation_result is Ok,
        validation_result matches Err(status) ==> (decision matches UpgradeDecision::Reject(
            answered,
        ) && answered == status),
{
}

} // verus!
