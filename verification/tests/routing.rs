use axum::http::StatusCode;
use axum_realtime_kit::text::{join, starts_with, strip_prefix};
use axum_realtime_kit::ws::handler::{
    custom_message, serialization_message, ConnectionContext, HandlerError,
};
use axum_realtime_kit::ws::routing::{
    publish_event, receive_frame, receive_parsed, route_message, send_error_response,
    send_json_to_sink, ClientFrame, FrameAction, ParsedAction, PublishAction, PublishStep,
    RouteAction, RouteStep,
};
use axum_realtime_kit::ws::upgrade::{upgrade_handler, UpgradeDecision};
use std::sync::Arc;

type Step = RouteStep<u8, u16>;
type Action = RouteAction<u8, u16>;

const SINK: u64 = 10;

fn context() -> ConnectionContext<(), u8> {
    ConnectionContext {
        conn_id: 1,
        user_id: 2,
        topic: "general".to_string(),
        app_state: Arc::new(()),
        sink: SINK,
    }
}

fn route(step: Step) -> Action {
    route_message(&context(), step)
}

fn parsed<X>(parsed: Result<u8, X>) -> ParsedAction<u8> {
    receive_parsed(&context(), parsed)
}

fn publish(step: PublishStep) -> PublishAction {
    publish_event(&"general".to_string(), step)
}

fn json_error() -> serde_json::Error {
    serde_json::from_str::<u8>("x").unwrap_err()
}

fn error_text(action: Action) -> String {
    match action {
        RouteAction::SendError(SINK, text) => text,
        _ => panic!("expected an error response"),
    }
}

fn message_in(text: &str) -> String {
    let value: serde_json::Value = serde_json::from_str(text).unwrap();
    let object = value.as_object().unwrap();
    assert_eq!(object.len(), 2);
    assert_eq!(object["type"], "error");
    object["message"].as_str().unwrap().to_string()
}

#[test]
fn error_response_is_a_json_object() {
    assert_eq!(send_error_response("no"), "{\"message\":\"no\",\"type\":\"error\"}");
    assert_eq!(message_in(&send_error_response("say \"x\"\n\u{1}é")), "say \"x\"\n\u{1}é");
    assert_eq!(message_in(&send_error_response("")), "");
}

#[test]
fn handler_errors_have_texts() {
    let code = StatusCode::BAD_REQUEST;
    assert_eq!(HandlerError::Custom(code, Some("mine".to_string())).message(), "mine");
    assert_eq!(HandlerError::Custom(code, None).message(), "400 Bad Request");
    let unknown = StatusCode::from_u16(299).unwrap();
    assert_eq!(HandlerError::Custom(unknown, None).message(), "299 <unknown status code>");
    assert_eq!(
        HandlerError::Serialization(json_error()).message(),
        format!("Response serialization error: {}", json_error())
    );
    assert_eq!(custom_message(None, "404 Not Found".to_string()), "404 Not Found");
    assert_eq!(custom_message(Some("m".to_string()), "404 Not Found".to_string()), "m");
    assert_eq!(serialization_message("bad"), "Response serialization error: bad");
}

#[test]
fn handler_errors_convert() {
    let error = HandlerError::from((StatusCode::FORBIDDEN, Some("m".to_string())));
    assert!(matches!(error, HandlerError::Custom(StatusCode::FORBIDDEN, Some(m)) if m == "m"));
    let error: HandlerError = json_error().into();
    assert!(matches!(error, HandlerError::Serialization(_)));
}

#[test]
fn direct_answers_are_not_broadcast() {
    assert!(matches!(route(Step::Direct(Ok(Some(7)))), RouteAction::Respond(SINK, 7)));
    let refused = HandlerError::Custom(StatusCode::FORBIDDEN, None);
    assert_eq!(
        message_in(&error_text(route(Step::Direct(Err(refused))))),
        "403 Forbidden"
    );
}

#[test]
fn messages_fall_through_to_the_broadcast() {
    assert!(matches!(route(Step::Direct(Ok(None))), RouteAction::TryBroadcast));
    let event = route(Step::Broadcast(Ok(Some(9))));
    assert!(matches!(event, RouteAction::Publish(topic, 9) if topic == "general"));
    assert!(matches!(route(Step::Broadcast(Ok(None))), RouteAction::Done));
    assert!(matches!(route(Step::Publish(Ok(()))), RouteAction::Done));
    let refused = HandlerError::Custom(StatusCode::FORBIDDEN, Some("not here".to_string()));
    assert_eq!(
        message_in(&error_text(route(Step::Broadcast(Err(refused))))),
        "not here"
    );
    assert_eq!(
        message_in(&error_text(route(Step::Publish(Err("down".to_string()))))),
        "Failed to broadcast event"
    );
}

#[test]
fn frames_are_told_apart() {
    let text = receive_frame(ClientFrame::Text("hi".to_string()));
    assert!(matches!(text, FrameAction::Parse(text) if text == "hi"));
    assert!(matches!(receive_frame(ClientFrame::Other), FrameAction::Ignore));
    assert!(matches!(receive_frame(ClientFrame::Close), FrameAction::Disconnect));
    assert!(matches!(receive_frame(ClientFrame::Ended), FrameAction::Disconnect));
}

#[test]
fn texts_that_are_no_messages_are_answered() {
    assert!(matches!(parsed::<()>(Ok(3)), ParsedAction::Route(3)));
    match parsed(Err(json_error())) {
        ParsedAction::SendError(SINK, text) => {
            assert_eq!(message_in(&text), "Invalid message format")
        }
        _ => panic!("expected an error response"),
    }
}

#[test]
fn publishing_goes_step_by_step() {
    let json = || "{}".to_string();
    let action = publish(PublishStep::Serialized(Ok(json())));
    assert!(matches!(action, PublishAction::Connect(text) if text == "{}"));
    let action = publish(PublishStep::Connected(Ok(()), json()));
    assert!(matches!(action, PublishAction::Send(t, text) if t == "general" && text == "{}"));
    assert!(matches!(publish(PublishStep::Published(Ok(3))), PublishAction::Succeed));
    let why = || "why".to_string();
    for (step, reason) in [
        (PublishStep::Serialized(Err(why())), "Failed to serialize event: why"),
        (PublishStep::Connected(Err(why()), json()), "Failed to get Redis connection: why"),
        (PublishStep::Published(Err(why())), "Failed to publish to Redis: why"),
    ] {
        match publish(step) {
            PublishAction::Fail(text) => assert_eq!(text, reason),
            _ => panic!("expected a failure"),
        }
    }
}

#[test]
fn events_are_sent_as_serialized() {
    let mut sent = Vec::new();
    let mut steps = 0;
    let mut step = PublishStep::Serialized(Ok("{\"a\":1}".to_string()));
    loop {
        steps += 1;
        step = match publish(step) {
            PublishAction::Connect(text) => PublishStep::Connected(Ok(()), text),
            PublishAction::Send(topic, text) => {
                sent.push((topic, text));
                PublishStep::Published(Ok(0))
            }
            PublishAction::Succeed => break,
            PublishAction::Fail(_) => panic!("expected success"),
        };
    }
    assert_eq!(steps, 3);
    assert_eq!(sent, vec![("general".to_string(), "{\"a\":1}".to_string())]);
}

#[test]
fn a_session_routes_the_messages_until_the_end() {
    let frames = vec![
        ClientFrame::Text("1".to_string()),
        ClientFrame::Other,
        ClientFrame::Text("x".to_string()),
        ClientFrame::Text("2".to_string()),
        ClientFrame::Close,
        ClientFrame::Text("3".to_string()),
        ClientFrame::Ended,
    ];
    let mut decisions = Vec::new();
    let mut disconnects = 0;
    for frame in frames {
        match receive_frame(frame) {
            FrameAction::Parse(text) => match parsed(serde_json::from_str::<u8>(&text)) {
                ParsedAction::Route(number) => decisions.push(number.to_string()),
                ParsedAction::SendError(_, text) => decisions.push(message_in(&text)),
            },
            FrameAction::Ignore => {}
            FrameAction::Disconnect => {
                disconnects += 1;
                break;
            }
        }
    }
    assert_eq!(decisions, vec!["1", "Invalid message format", "2"]);
    assert_eq!(disconnects, 1);
}

#[test]
fn only_values_with_a_text_are_sent() {
    let text = serde_json::to_string(&serde_json::Value::Bool(true));
    assert_eq!(send_json_to_sink(SINK, text), Ok((SINK, "true".to_string())));
    assert_eq!(send_json_to_sink(SINK, Err(json_error())), Err(()));
}

#[test]
fn only_validated_requests_are_upgraded() {
    assert!(matches!(upgrade_handler(Ok(())), UpgradeDecision::Upgrade));
    let rejected = upgrade_handler(Err(StatusCode::NOT_FOUND));
    assert!(matches!(rejected, UpgradeDecision::Reject(StatusCode::NOT_FOUND)));
}

#[test]
fn text_operations() {
    assert!(starts_with("añb", "añ"));
    assert!(starts_with("x", ""));
    assert!(!starts_with("a", "ab"));
    assert!(!starts_with("ba", "a"));
    assert_eq!(strip_prefix("añb", "añ"), Some("b"));
    assert_eq!(strip_prefix("ab", "ab"), Some(""));
    assert_eq!(strip_prefix("ab", "b"), None);
    assert_eq!(join("a", "b"), "ab");
}
