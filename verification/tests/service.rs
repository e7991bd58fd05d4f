use axum_realtime_kit::ws::handler::ConnectionContext;
use axum_realtime_kit::ws::listener::{
    listen_for_command, listen_for_message, CommandPoll, ListenerAction, ListenerEvent, Polled,
    RETRY_SECONDS,
};
use axum_realtime_kit::ws::service::{WebsocketService, COMMAND_CAPACITY};
use axum_realtime_kit::ws::types::{Delivery, RedisCommand, WsState};
use std::collections::VecDeque;
use std::sync::Arc;

type Service = WebsocketService<&'static str>;

fn service() -> Service {
    WebsocketService::new(Arc::new("state"))
}

fn connect(service: &mut Service, id: u128, sink: u64, topic: &str) -> Option<String> {
    shown(service.connect(id, sink, topic.to_string(), "user").1)
}

fn disconnect(service: &mut Service, id: u128, sink: u64, topic: &str) -> Option<String> {
    shown(service.on_disconnect(ConnectionContext {
        conn_id: id,
        user_id: "user",
        topic: topic.to_string(),
        app_state: Arc::new("state"),
        sink,
    }))
}

fn shown(command: Option<RedisCommand>) -> Option<String> {
    command.map(|command| match command {
        RedisCommand::Subscribe(topic) => format!("+{}", topic),
        RedisCommand::Unsubscribe(topic) => format!("-{}", topic),
    })
}

fn some(text: &str) -> Option<String> {
    Some(text.to_string())
}

fn sorted(deliveries: Vec<Delivery>) -> Vec<(u128, u64, String)> {
    let mut sent: Vec<(u128, u64, String)> =
        deliveries.into_iter().map(|d| (d.conn_id, d.sink, d.text)).collect();
    sent.sort();
    sent
}

fn broadcast(service: &Service, topic: &str, text: &str) -> Vec<(u128, u64, String)> {
    let event = ListenerEvent::Message(topic.to_string(), Some(text.to_string()));
    match service.run_redis_listener(event) {
        ListenerAction::Deliver(deliveries) => sorted(deliveries),
        _ => panic!("expected deliveries"),
    }
}

fn resubscribed(service: &Service) -> Option<Vec<String>> {
    match service.run_redis_listener(ListenerEvent::Connected(true)) {
        ListenerAction::Resubscribe(mut topics) => {
            topics.sort();
            Some(topics)
        }
        ListenerAction::Listen => None,
        _ => panic!("expected to subscribe or to listen"),
    }
}

#[test]
fn commands_come_with_the_first_and_the_last_subscriber() {
    let mut service = service();
    assert_eq!(connect(&mut service, 1, 10, "general"), some("+general"));
    assert_eq!(connect(&mut service, 2, 20, "general"), None);
    assert_eq!(connect(&mut service, 3, 30, "random"), some("+random"));
    assert_eq!(service.connections_count(), 3);
    assert_eq!(service.subscriptions_count(), 2);
    assert_eq!(disconnect(&mut service, 1, 10, "general"), None);
    assert_eq!(disconnect(&mut service, 2, 20, "general"), some("-general"));
    assert_eq!(service.connections_count(), 1);
    assert_eq!(service.subscriptions_count(), 1);
    assert_eq!(connect(&mut service, 4, 40, "general"), some("+general"));
}

#[test]
fn disconnecting_from_an_unknown_topic_asks_for_nothing() {
    let mut service = service();
    connect(&mut service, 1, 10, "a");
    assert_eq!(disconnect(&mut service, 1, 10, "b"), None);
    assert_eq!(service.connections_count(), 0);
    assert_eq!(service.subscriptions_count(), 1);
    assert_eq!(disconnect(&mut service, 2, 20, "a"), None);
    assert_eq!(disconnect(&mut service, 1, 10, "a"), some("-a"));
    assert_eq!(service.subscriptions_count(), 0);
}

#[test]
fn broadcasts_reach_the_subscribers_of_the_topic() {
    let mut service = service();
    connect(&mut service, 1, 10, "general");
    connect(&mut service, 2, 20, "general");
    connect(&mut service, 3, 30, "random");
    let hi = "hi".to_string();
    assert_eq!(
        broadcast(&service, "general", "hi"),
        vec![(1, 10, hi.clone()), (2, 20, hi.clone())]
    );
    assert_eq!(broadcast(&service, "random", "hi"), vec![(3, 30, hi.clone())]);
    assert_eq!(broadcast(&service, "other", "hi"), vec![]);
    disconnect(&mut service, 1, 10, "general");
    assert_eq!(broadcast(&service, "general", "hi"), vec![(2, 20, hi)]);
}

#[test]
fn a_subscriber_without_a_connection_is_passed_over() {
    let mut state = WsState::default();
    assert_eq!(shown(state.subscribe(1, "t".to_string())), some("+t"));
    assert_eq!(shown(state.subscribe(2, "t".to_string())), None);
    state.register(2, 20);
    assert_eq!(
        sorted(state.fan_out("t", &"x".to_string())),
        vec![(2, 20, "x".to_string())]
    );
    assert_eq!(state.topics(), vec!["t".to_string()]);
    assert_eq!(state.connections_count(), 1);
    assert_eq!(state.subscriptions_count(), 1);
    assert_eq!(shown(state.disconnect(2, "t".to_string())), None);
    assert_eq!(shown(state.disconnect(1, "t".to_string())), some("-t"));
    assert!(state.topics().is_empty());
}

#[test]
fn a_payload_that_is_no_text_is_passed_over() {
    let mut service = service();
    connect(&mut service, 1, 10, "general");
    let event = ListenerEvent::Message("general".to_string(), None);
    assert!(matches!(service.run_redis_listener(event), ListenerAction::Listen));
}

#[test]
fn connections_have_random_ids() {
    let mut service = service();
    let (first, command) = service.handle_connection(10, "general".to_string(), "alice");
    assert_eq!(shown(command), some("+general"));
    let (second, command) = service.handle_connection(20, "general".to_string(), "bob");
    assert_eq!(shown(command), None);
    assert_ne!(first.conn_id, second.conn_id);
    let id = uuid::Uuid::from_u128(first.conn_id);
    assert_eq!(id.get_version_num(), 4);
    assert_eq!(id.get_variant(), uuid::Variant::RFC4122);
    assert_eq!(first.user_id, "alice");
    assert_eq!(first.topic, "general");
    assert_eq!(first.sink, 10);
    assert_eq!(*first.app_state, "state");
    assert_eq!(*service.app_state(), "state");
    assert_eq!(service.connections_count(), 2);
    assert_eq!(shown(service.on_disconnect(first)), None);
    assert_eq!(shown(service.on_disconnect(second)), some("-general"));
    assert_eq!(service.connections_count(), 0);
}

#[test]
fn a_disconnect_undoes_a_connect() {
    let mut service = service();
    connect(&mut service, 1, 10, "general");
    connect(&mut service, 2, 20, "random");
    disconnect(&mut service, 2, 20, "random");
    assert_eq!(service.connections_count(), 1);
    assert_eq!(resubscribed(&service), Some(vec!["general".to_string()]));
    assert_eq!(broadcast(&service, "general", "x"), vec![(1, 10, "x".to_string())]);
    assert_eq!(broadcast(&service, "random", "x"), vec![]);
}

#[test]
fn the_listener_resubscribes_before_it_listens() {
    let mut service = service();
    assert_eq!(resubscribed(&service), None);
    connect(&mut service, 1, 10, "b");
    connect(&mut service, 2, 20, "a");
    connect(&mut service, 3, 30, "a");
    assert_eq!(resubscribed(&service), Some(vec!["a".to_string(), "b".to_string()]));
    let listening = service.run_redis_listener(ListenerEvent::Resubscribed(true));
    assert!(matches!(listening, ListenerAction::Listen));
}

#[test]
fn the_listener_recovers_from_failures() {
    let service = service();
    let next = |event| service.run_redis_listener(event);
    assert!(matches!(next(ListenerEvent::Connected(false)), ListenerAction::Wait(5)));
    assert_eq!(RETRY_SECONDS, 5);
    assert!(matches!(next(ListenerEvent::Waited), ListenerAction::Connect));
    assert!(matches!(next(ListenerEvent::Resubscribed(false)), ListenerAction::Connect));
    assert!(matches!(next(ListenerEvent::Applied(false)), ListenerAction::Connect));
    assert!(matches!(next(ListenerEvent::Applied(true)), ListenerAction::Listen));
    assert!(matches!(next(ListenerEvent::Closed), ListenerAction::Stop));
    let command = RedisCommand::Unsubscribe("t".to_string());
    match next(ListenerEvent::Command(command)) {
        ListenerAction::Apply(command) => assert_eq!(shown(Some(command)), some("-t")),
        _ => panic!("expected the command"),
    }
    assert_eq!(COMMAND_CAPACITY, 100);
}

#[test]
fn redis_follows_the_node() {
    let mut service = service();
    let mut redis: Vec<String> = Vec::new();
    let mut apply = |command: Option<String>| {
        if let Some(command) = command {
            let topic = command[1..].to_string();
            redis.retain(|t| *t != topic);
            if command.starts_with('+') {
                redis.push(topic);
            }
        }
        redis.sort();
        redis.clone()
    };
    apply(connect(&mut service, 1, 10, "a"));
    apply(connect(&mut service, 2, 20, "b"));
    apply(connect(&mut service, 3, 30, "a"));
    apply(disconnect(&mut service, 1, 10, "a"));
    let topics = apply(disconnect(&mut service, 2, 20, "b"));
    assert_eq!(Some(topics), resubscribed(&service));
    let topics = apply(disconnect(&mut service, 3, 30, "a"));
    assert!(topics.is_empty());
    assert_eq!(resubscribed(&service), None);
}

#[test]
fn a_command_is_taken_before_a_message() {
    let command = || Polled::Ready(RedisCommand::Subscribe("t".to_string()));
    match listen_for_command(command()) {
        CommandPoll::Take(ListenerEvent::Command(command)) => {
            assert_eq!(shown(Some(command)), some("+t"))
        }
        _ => panic!("expected the command"),
    }
    let pending = listen_for_command(Polled::Pending);
    assert!(matches!(pending, CommandPoll::LookForMessage(false)));
    let ended = listen_for_command(Polled::Ended);
    assert!(matches!(ended, CommandPoll::LookForMessage(true)));
}

#[test]
fn the_end_is_heard_when_neither_can_come() {
    for ended in [false, true] {
        let message = Polled::Ready(("t".to_string(), some("x")));
        match listen_for_message(ended, message) {
            Some(ListenerEvent::Message(topic, payload)) => {
                assert_eq!((topic.as_str(), payload), ("t", some("x")))
            }
            _ => panic!("expected the message"),
        }
        assert!(listen_for_message(ended, Polled::Pending).is_none());
    }
    assert!(listen_for_message(false, Polled::Ended).is_none());
    assert!(matches!(listen_for_message(true, Polled::Ended), Some(ListenerEvent::Closed)));
}

/// What the next poll of a queue that is closed once it is empty gives.
fn poll<T>(queue: &mut VecDeque<T>) -> Polled<T> {
    match queue.pop_front() {
        Some(item) => Polled::Ready(item),
        None => Polled::Ended,
    }
}

#[test]
fn the_listener_works_off_what_waits_in_order() {
    let mut service = service();
    connect(&mut service, 1, 10, "a");
    let mut commands = VecDeque::from([
        RedisCommand::Subscribe("a".to_string()),
        RedisCommand::Subscribe("b".to_string()),
        RedisCommand::Unsubscribe("b".to_string()),
    ]);
    let mut messages = VecDeque::from([
        ("a".to_string(), some("first")),
        ("a".to_string(), None),
        ("a".to_string(), some("second")),
    ]);
    let mut log: Vec<String> = Vec::new();
    let mut action = ListenerAction::Connect;
    loop {
        let listening = matches!(action, ListenerAction::Listen | ListenerAction::Deliver(_));
        match action {
            ListenerAction::Connect => log.push("connect".to_string()),
            ListenerAction::Resubscribe(topics) => log.push(topics.join(",")),
            ListenerAction::Apply(command) => log.push(shown(Some(command)).unwrap()),
            ListenerAction::Deliver(deliveries) => {
                for (_, sink, text) in sorted(deliveries) {
                    log.push(format!("{} to {}", text, sink));
                }
            }
            ListenerAction::Listen => {}
            ListenerAction::Wait(_) => panic!("nothing failed"),
            ListenerAction::Stop => break,
        }
        let event = if listening {
            match listen_for_command(poll(&mut commands)) {
                CommandPoll::Take(event) => event,
                CommandPoll::LookForMessage(ended) => {
                    listen_for_message(ended, poll(&mut messages)).unwrap()
                }
            }
        } else if log.len() == 1 {
            ListenerEvent::Connected(true)
        } else if log.len() == 2 {
            ListenerEvent::Resubscribed(true)
        } else {
            ListenerEvent::Applied(true)
        };
        action = service.run_redis_listener(event);
    }
    assert_eq!(
        log,
        vec!["connect", "a", "+a", "+b", "-b", "first to 10", "second to 10"]
    );
    assert!(commands.is_empty() && messages.is_empty());
    assert_eq!(service.connections_count(), 1);
    assert_eq!(service.subscriptions_count(), 1);
}

#[test]
fn a_listener_that_is_back_to_listening_has_repaired_its_losses() {
    let mut service = service();
    let mut commands: VecDeque<RedisCommand> = VecDeque::new();
    let mut redis: Vec<String> = Vec::new();
    let mut failures = 2;
    let mut connections = 0;
    for (id, topic) in [(1, "a"), (2, "b"), (3, "c")] {
        commands.extend(service.connect(id, id as u64, topic.to_string(), "user").1);
    }
    let mut action = ListenerAction::Connect;
    loop {
        let event = match action {
            ListenerAction::Connect => {
                redis.clear();
                connections += 1;
                ListenerEvent::Connected(connections != 2)
            }
            ListenerAction::Wait(_) => ListenerEvent::Waited,
            ListenerAction::Resubscribe(topics) => {
                // Somebody comes between the reading of the topics and the subscription.
                let id = 10 + connections;
                let topic = format!("late {}", connections);
                commands.extend(service.connect(id, id as u64, topic, "user").1);
                redis = topics;
                ListenerEvent::Resubscribed(true)
            }
            ListenerAction::Apply(command) => {
                let fails = failures > 0;
                if fails {
                    failures -= 1;
                } else {
                    match command {
                        RedisCommand::Subscribe(topic) => {
                            redis.retain(|t| *t != topic);
                            redis.push(topic);
                        }
                        RedisCommand::Unsubscribe(topic) => redis.retain(|t| *t != topic),
                    }
                }
                ListenerEvent::Applied(!fails)
            }
            ListenerAction::Listen => match commands.pop_front() {
                Some(command) => ListenerEvent::Command(command),
                None => break,
            },
            ListenerAction::Deliver(_) | ListenerAction::Stop => panic!("nothing was published"),
        };
        action = service.run_redis_listener(event);
    }
    assert_eq!(failures, 0);
    assert_eq!(connections, 4);
    redis.sort();
    assert_eq!(redis.len(), 6);
    assert_eq!(Some(redis), resubscribed(&service));
}
