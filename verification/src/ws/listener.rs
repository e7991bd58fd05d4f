//! The background task that listens to Redis and manages its own subscriptions.
//!
//! The task performs one action after another; each action leads to an event, and the
//! event to the next action. [`ListenerAction::Connect`] is the first.
use vstd::prelude::*;

use crate::ws::types::{is_fan_out, Delivery, RedisCommand, StateView, Topic, WsState};

verus! {

/// How long the listener waits before it tries to connect again, in seconds.
pub const RETRY_SECONDS: u64 = 5;

/// What the listener does next.
pub enum ListenerAction {
    /// Connect to Redis.
    Connect,
    /// Wait for this many seconds.
    Wait(u64),
    /// Subscribe to all of these topics on the new connection.
    Resubscribe(Vec<Topic>),
    /// Wait for a command or a message; where both are there, take the command.
    Listen,
    /// Carry out the command on the connection.
    Apply(RedisCommand),
    /// Hand these texts to their sinks, then wait as for `Listen`.
    Deliver(Vec<Delivery>),
    /// Shut down.
    Stop,
}

/// What an action led to.
pub enum ListenerEvent {
    /// After `Connect`: whether there is a connection.
    Connected(bool),
    /// After `Wait`.
    Waited,
    /// After `Resubscribe`: whether the topics are subscribed to.
    Resubscribed(bool),
    /// After `Listen` or `Deliver`: a command came.
    Command(RedisCommand),
    /// After `Listen` or `Deliver`: a message came on a channel, with its payload where
    /// that is text.
    Message(Topic, Option<String>),
    /// After `Listen` or `Deliver`: neither a command nor a message can come any more.
    Closed,
    /// After `Apply`: whether the command was carried out.
    Applied(bool),
}

/// What a channel has at one moment.
pub enum Polled<T> {
    /// Something is there.
    Ready(T),
    /// Nothing is there yet.
    Pending,
    /// Nothing can come any more.
    Ended,
}

/// What the listener does after it has looked for a command.
pub enum CommandPoll {
    /// It takes the command.
    Take(ListenerEvent),
    /// It looks for a message; the flag says whether no command can come any more.
    LookForMessage(bool),
}

/// What the listener hears, given what is there of commands and of messages: a command
/// comes before a message, and the end is heard when neither can come any more. With `None`
/// it waits.
pub open spec fn heard(
    command: Polled<RedisCommand>,
    message: Polled<(Topic, Option<String>)>,
) -> Option<ListenerEvent> {
    match command {
        Polled::Ready(command) => Some(ListenerEvent::Command(command)),
        _ => match message {
            Polled::Ready(message) => Some(ListenerEvent::Message(message.0, message.1)),
            Polled::Ended if command is Ended => Some(ListenerEvent::Closed),
            _ => None,
        },
    }
}

/// Looks for a command first: one that is there is taken, whatever there is of messages.
pub fn listen_for_command(command: Polled<RedisCommand>) -> (poll: CommandPoll)
    ensures
        match poll {
            CommandPoll::Take(event) => forall|message: Polled<(Topic, Option<String>)>|
                #[trigger] heard(command, message) == Some(event),
            CommandPoll::LookForMessage(ended) => !(command is Ready) && ended == (command
                is Ended),
        },
        command is Ready ==> poll is Take,
{
    match command {
        Polled::Ready(command) => CommandPoll::Take(ListenerEvent::Command(command)),
        Polled::Pending => CommandPoll::LookForMessage(false),
        Polled::Ended => CommandPoll::LookForMessage(true),
    }
}

/// Looks for a message, where no command is there; `commands_ended` says whether none can
/// come any more.
pub fn listen_for_message(
    commands_ended: bool,
    message: Polled<(Topic, Option<String>)>,
) -> (event: Option<ListenerEvent>)
    ensures
        event == heard(
            if commands_ended {
                Polled::Ended
            } else {
                Polled::Pending
            },
            message,
        ),
{
    match message {
        Polled::Ready((topic, payload)) => Some(ListenerEvent::Message(topic, payload)),
        Polled::Pending => None,
        Polled::Ended => if commands_ended {
            Some(ListenerEvent::Closed)
        } else {
            None
        },
    }
}

/// Whether `event` is one that `action` can lead to.
pub open spec fn leads_to(action: ListenerAction, event: ListenerEvent) -> bool {
    match action {
        ListenerAction::Connect => event is Connected,
        ListenerAction::Wait(_) => event is Waited,
        ListenerAction::Resubscribe(_) => event is Resubscribed,
        ListenerAction::Listen | ListenerAction::Deliver(_) => event is Command || event is Message
            || event is Closed,
        ListenerAction::Apply(_) => event is Applied,
        ListenerAction::Stop => false,
    }
}

/// Whether `topics` are the topics of `state`, each once.
pub open spec fn are_topics_of(topics: Seq<Topic>, state: StateView) -> bool {
    &&& topics.map_values(|topic: Topic| topic@).no_duplicates()
    &&& topics.map_values(|topic: Topic| topic@).to_set() == state.subscriptions.dom()
}

/// Whether `action` is what the listener does after `event`.
///
/// After connecting it subscribes to every topic of the node, where there is one, before it
/// listens. A failure to connect is tried again after a while; any other failure makes it
/// connect anew at once.
pub open spec fn is_next(state: StateView, event: ListenerEvent, action: ListenerAction) -> bool {
    match event {
        ListenerEvent::Connected(true) => if state.subscriptions.dom() =~= Set::<Seq<char>>::empty() {
            action is Listen
        } else {
            action matches ListenerAction::Resubscribe(topics) && are_topics_of(topics@, state)
        },
        ListenerEvent::Connected(false) => action == ListenerAction::Wait(RETRY_SECONDS),
        ListenerEvent::Waited => action is Connect,
        ListenerEvent::Resubscribed(true) => action is Listen,
        ListenerEvent::Resubscribed(false) => action is Connect,
        ListenerEvent::Command(command) => action == ListenerAction::Apply(command),
        ListenerEvent::Message(topic, Some(payload)) => action matches ListenerAction::Deliver(
            deliveries,
        ) && is_fan_out(deliveries@, state.recipients(topic@), payload@),
        ListenerEvent::Message(_, None) => action is Listen,
        ListenerEvent::Closed => action is Stop,
        ListenerEvent::Applied(true) => action is Listen,
        ListenerEvent::Applied(false) => action is Connect,
    }
}

/// What the listener does after `event`, on a node in the given state.
pub fn run_redis_listener(state: &WsState, event: ListenerEvent) -> (action: ListenerAction)
    ensures
        is_next(state@, event, action),
{
    match event {
        ListenerEvent::Connected(true) => {
            let topics_to_resubscribe = state.topics();
            let ghost views = topics_to_resubscribe@.map_values(|topic: Topic| topic@);
            if topics_to_resubscribe.len() > 0 {
                assert(views.to_set().contains(views[0]));
                ListenerAction::Resubscribe(topics_to_resubscribe)
            } else {
                assert(views.to_set() =~= Set::<Seq<char>>::empty());
                ListenerAction::Listen
            }
        },
        ListenerEvent::Connected(false) => ListenerAction::Wait(RETRY_SECONDS),
        ListenerEvent::Waited => ListenerAction::Connect,
        ListenerEvent::Resubscribed(true) => ListenerAction::Listen,
        ListenerEvent::Resubscribed(false) => ListenerAction::Connect,
        ListenerEvent::Command(command) => ListenerAction::Apply(command),
        ListenerEvent::Message(topic, payload) => handle_redis_broadcast(state, topic, payload),
        ListenerEvent::Closed => ListenerAction::Stop,
        ListenerEvent::Applied(true) => ListenerAction::Listen,
        ListenerEvent::Applied(false) => ListenerAction::Connect,
    }
}

/// Handles a broadcast message received from a Redis channel: its payload goes to everybody
/// on this node who is subscribed to the channel's topic; a message whose payload is no text
/// is passed over.
pub fn handle_redis_broadcast(
    state: &WsState,
    topic: Topic,
    payload: Option<String>,
) -> (action: ListenerAction)
    ensures
        match payload {
            Some(payload) => action matches ListenerAction::Deliver(deliveries) && is_fan_out(
                deliveries@,
                state@.recipients(topic@),
                payload@,
            ),
            None => action is Listen,
        },
{
    match payload {
        Some(payload) => ListenerAction::Deliver(state.fan_out(topic.as_str(), &payload)),
        None => ListenerAction::Listen,
    }
}

} // verus!
