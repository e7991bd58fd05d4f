//! What connecting, disconnecting and listening come to, for whoever is connected and whatever
//! the topics and texts say.
use std::sync::Arc;
use vstd::prelude::*;

use crate::ws::handler::ConnectionContext;
use crate::ws::listener::{
    handle_redis_broadcast, heard, listen_for_command, listen_for_message, CommandPoll,
    ListenerAction, ListenerEvent, Polled,
};
use crate::ws::service::WebsocketService;
use crate::ws::types::{
    is_fan_out, lemma_ids_are_finite, ConnectionId, Delivery, RedisCommand, StateView, Topic,
    WsSink, WsState,
};

verus! {

/// A new service is given its application's state and has neither connections nor topics.
pub proof fn law_new_service_is_empty<A>(
    app_state: Arc<A>,
    service: WebsocketService<A>,
    given: Arc<A>,
    id: ConnectionId,
    topic: Seq<char>,
)
    requires
        call_ensures(WebsocketService::<A>::new, (app_state,), service),
        call_ensures(WebsocketService::<A>::app_state, (&service,), given),
    ensures
        given == app_state,
        !service@.state.connections.contains_key(id),
        !service@.state.subscriptions.contains_key(topic),
{
}

/// The counts are those of the connections and of the topics, and an id is found exactly where
/// a connection has it.
pub proof fn law_counts_are_those_of_the_tables<A>(
    service: &WebsocketService<A>,
    state: &WsState,
    id: ConnectionId,
    found: bool,
    connections: usize,
    topics: usize,
    connections_of_state: usize,
    topics_of_state: usize,
)
    requires
        call_ensures(WebsocketService::<A>::connections_count, (service,), connections),
        call_ensures(WebsocketService::<A>::subscriptions_count, (service,), topics),
        call_ensures(WsState::connections_count, (state,), connections_of_state),
        call_ensures(WsState::subscriptions_count, (state,), topics_of_state),
        call_ensures(WsState::is_connected, (state, id), found),
    ensures
        connections == service@.state.connections.dom().len(),
        topics == service@.state.subscriptions.dom().len(),
        connections_of_state == state@.connections.dom().len(),
        topics_of_state == state@.subscriptions.dom().len(),
        found <==> state@.connections.contains_key(id),
{
}

/// A state without connections and topics is where every state begins, and an id that is
/// offered for a new connection is in use by none.
pub proof fn law_offered_ids_are_unused(state: &WsState, id: ConnectionId, fresh: WsState)
    requires
        call_ensures(WsState::unused_id, (state,), id),
        call_ensures(<WsState as Default>::default, (), fresh),
    ensures
        !state@.connections.contains_key(id),
        fresh@.connections.dom() == Set::<ConnectionId>::empty(),
        fresh@.subscriptions.dom() == Set::<Seq<char>>::empty(),
{
    assert(fresh@.connections.dom() =~= Set::<ConnectionId>::empty());
    assert(fresh@.subscriptions.dom() =~= Set::<Seq<char>>::empty());
}

/// A connection is entered with its own sink, and nothing else changes.
pub proof fn law_registering_enters_one_sink(
    state: &mut WsState,
    conn_id: ConnectionId,
    sink: WsSink,
)
    requires
        call_ensures(WsState::register, (state, conn_id, sink), ()),
    ensures
        final(state)@.connections == old(state)@.connections.insert(conn_id, sink),
        final(state)@.subscriptions == old(state)@.subscriptions,
{
}

/// A subscription adds one subscriber to one topic, and nothing else changes. The listener is
/// told to subscribe to that topic exactly where the topic had no subscriber.
pub proof fn law_subscribing_adds_one_subscriber(
    state: &mut WsState,
    conn_id: ConnectionId,
    topic: Topic,
    command: Option<RedisCommand>,
    other: Seq<char>,
    id: ConnectionId,
)
    requires
        call_ensures(WsState::subscribe, (state, conn_id, topic), command),
    ensures
        final(state)@.connections == old(state)@.connections,
        (final(state)@.subscriptions.contains_key(other)
            && final(state)@.subscriptions[other].contains(id)) <==> (other == topic@ && id
            == conn_id) || (old(state)@.subscriptions.contains_key(other)
            && old(state)@.subscriptions[other].contains(id)),
        final(state)@.subscriptions.contains_key(other) <==> other == topic@
            || old(state)@.subscriptions.contains_key(other),
        old(state)@.subscriptions.contains_key(topic@)
            && old(state)@.subscriptions[topic@].contains(id) ==> command is None,
        (forall|id: ConnectionId|
            !(old(state)@.subscriptions.contains_key(topic@)
                && #[trigger] old(state)@.subscriptions[topic@].contains(id))) ==> (
        command matches Some(RedisCommand::Subscribe(told)) && told@ == topic@),
        command is Some ==> command->0 is Subscribe,
{
    if forall|id: ConnectionId|
        !(old(state)@.subscriptions.contains_key(topic@)
            && #[trigger] old(state)@.subscriptions[topic@].contains(id)) {
        assert(old(state)@.subscribers(topic@) =~= Set::<ConnectionId>::empty());
    }
}

/// A client that connects is entered with its own sink and becomes one more subscriber of its
/// own topic; no other entry, subscriber or topic changes. Its context holds what it came with
/// and the application's state; and the listener is told to subscribe to the topic exactly
/// where it is the first in it.
pub proof fn law_connecting_adds_one_client<A, U>(
    service: &mut WebsocketService<A>,
    conn_id: ConnectionId,
    sink: WsSink,
    topic: Topic,
    user_id: U,
    connected: (ConnectionContext<A, U>, Option<RedisCommand>),
    other: Seq<char>,
    id: ConnectionId,
)
    requires
        call_ensures(
            WebsocketService::<A>::connect::<U>,
            (service, conn_id, sink, topic, user_id),
            connected,
        ),
    ensures
        connected.0.conn_id == conn_id,
        connected.0.sink == sink,
        connected.0.topic@ == topic@,
        connected.0.user_id == user_id,
        connected.0.app_state == old(service)@.app_state,
        final(service)@.app_state == old(service)@.app_state,
        final(service)@.state.connections == old(service)@.state.connections.insert(conn_id, sink),
        (final(service)@.state.subscriptions.contains_key(other)
            && final(service)@.state.subscriptions[other].contains(id)) <==> (other == topic@ && id
            == conn_id) || (old(service)@.state.subscriptions.contains_key(other)
            && old(service)@.state.subscriptions[other].contains(id)),
        final(service)@.state.subscriptions.contains_key(other) <==> other == topic@
            || old(service)@.state.subscriptions.contains_key(other),
        old(service)@.state.subscriptions.contains_key(topic@)
            && old(service)@.state.subscriptions[topic@].contains(id) ==> connected.1 is None,
        (forall|id: ConnectionId|
            !(old(service)@.state.subscriptions.contains_key(topic@)
                && #[trigger] old(service)@.state.subscriptions[topic@].contains(id))) ==> (
        connected.1 matches Some(RedisCommand::Subscribe(told)) && told@ == topic@),
        connected.1 is Some ==> connected.1->0 is Subscribe,
{
    if forall|id: ConnectionId|
        !(old(service)@.state.subscriptions.contains_key(topic@)
            && #[trigger] old(service)@.state.subscriptions[topic@].contains(id)) {
        assert(old(service)@.state.subscribers(topic@) =~= Set::<ConnectionId>::empty());
    }
}

/// A connection that is accepted has an id of its own, a version 4 UUID: there is one
/// connection more, everybody who was connected keeps their sink and their topics, and the new
/// client is entered and subscribed as one that connects under that id.
pub proof fn law_accepted_client_replaces_nobody<A, U>(
    service: &mut WebsocketService<A>,
    sink: WsSink,
    topic: Topic,
    user_id: U,
    connected: (ConnectionContext<A, U>, Option<RedisCommand>),
    published_on: Seq<char>,
    other: ConnectionId,
)
    requires
        call_ensures(
            WebsocketService::<A>::handle_connection::<U>,
            (service, sink, topic, user_id),
            connected,
        ),
    ensures
        (connected.0.conn_id >> 76) & 0xf == 4 && (connected.0.conn_id >> 62) & 0x3 == 2,
        !old(service)@.state.connections.contains_key(connected.0.conn_id),
        final(service)@.state.connections.dom().len() == old(
            service,
        )@.state.connections.dom().len() + 1,
        final(service)@.state.connections.contains_key(connected.0.conn_id),
        final(service)@.state.connections[connected.0.conn_id] == sink,
        old(service)@.state.connections.contains_key(other) ==> other != connected.0.conn_id
            && final(service)@.state.connections.contains_key(other)
            && final(service)@.state.connections[other] == old(service)@.state.connections[other],
        final(service)@.state.connections.contains_key(other) ==> other == connected.0.conn_id
            || old(service)@.state.connections.contains_key(other),
        (final(service)@.state.subscriptions.contains_key(published_on)
            && final(service)@.state.subscriptions[published_on].contains(other)) <==> (
        published_on == topic@ && other == connected.0.conn_id) || (old(
            service,
        )@.state.subscriptions.contains_key(published_on) && old(
            service,
        )@.state.subscriptions[published_on].contains(other)),
        connected.0.sink == sink,
        connected.0.topic@ == topic@,
        connected.0.user_id == user_id,
        connected.0.app_state == old(service)@.app_state,
        final(service)@.app_state == old(service)@.app_state,
        old(service)@.state.subscriptions.contains_key(topic@)
            && old(service)@.state.subscriptions[topic@].contains(other) ==> connected.1 is None,
        (forall|id: ConnectionId|
            !(old(service)@.state.subscriptions.contains_key(topic@)
                && #[trigger] old(service)@.state.subscriptions[topic@].contains(id))) ==> (
        connected.1 matches Some(RedisCommand::Subscribe(told)) && told@ == topic@),
        connected.1 is Some ==> connected.1->0 is Subscribe,
{
    let before = old(service)@.state.connections;
    let after = final(service)@.state.connections;
    lemma_ids_are_finite(before.dom());
    assert(after.dom() =~= before.dom().insert(connected.0.conn_id));
    if forall|id: ConnectionId|
        !(old(service)@.state.subscriptions.contains_key(topic@)
            && #[trigger] old(service)@.state.subscriptions[topic@].contains(id)) {
        assert(old(service)@.state.subscribers(topic@) =~= Set::<ConnectionId>::empty());
    }
}

/// Two clients that are accepted, one after the other with whatever between them that leaves
/// the first connected, have different ids.
pub proof fn law_accepted_ids_differ<A, U>(
    service: &mut WebsocketService<A>,
    later: &mut WebsocketService<A>,
    sink: WsSink,
    other_sink: WsSink,
    topic: Topic,
    other_topic: Topic,
    user_id: U,
    other_user: U,
    first: (ConnectionContext<A, U>, Option<RedisCommand>),
    second: (ConnectionContext<A, U>, Option<RedisCommand>),
)
    requires
        call_ensures(
            WebsocketService::<A>::handle_connection::<U>,
            (service, sink, topic, user_id),
            first,
        ),
        call_ensures(
            WebsocketService::<A>::handle_connection::<U>,
            (later, other_sink, other_topic, other_user),
            second,
        ),
        old(later)@.state.connections.contains_key(first.0.conn_id),
        old(later)@.state.connections[first.0.conn_id] == sink,
    ensures
        first.0.conn_id != second.0.conn_id,
        final(later)@.state.connections[first.0.conn_id] == sink,
        final(later)@.state.connections[second.0.conn_id] == other_sink,
{
}

/// A client that disconnects loses its entry and its subscription to its topic; no other entry
/// or subscription changes. The topic goes with its last subscriber, and exactly then the
/// listener is told to unsubscribe from it.
pub proof fn law_disconnecting_removes_one_client(
    state: &mut WsState,
    conn_id: ConnectionId,
    topic: Topic,
    command: Option<RedisCommand>,
    other: Seq<char>,
    id: ConnectionId,
)
    requires
        call_ensures(WsState::disconnect, (state, conn_id, topic), command),
    ensures
        final(state)@.connections == old(state)@.connections.remove(conn_id),
        (final(state)@.subscriptions.contains_key(other)
            && final(state)@.subscriptions[other].contains(id)) <==> !(other == topic@ && id
            == conn_id) && old(state)@.subscriptions.contains_key(other)
            && old(state)@.subscriptions[other].contains(id),
        other != topic@ ==> (final(state)@.subscriptions.contains_key(other) <==> old(
            state,
        )@.subscriptions.contains_key(other)),
        final(state)@.subscriptions.contains_key(topic@) <==> old(
            state,
        )@.subscriptions.contains_key(topic@) && command is None,
        command matches Some(command) ==> (command matches RedisCommand::Unsubscribe(told) && told@
            == topic@),
        command is Some ==> old(state)@.subscriptions.contains_key(topic@),
        id != conn_id && old(state)@.subscriptions.contains_key(topic@)
            && old(state)@.subscriptions[topic@].contains(id) ==> command is None,
        old(state)@.subscriptions.contains_key(topic@) && (forall|id: ConnectionId| #[trigger]
            old(state)@.subscriptions[topic@].contains(id) ==> id == conn_id) ==> command is Some,
{
    let left = old(state)@.subscriptions[topic@].remove(conn_id);
    if old(state)@.subscriptions.contains_key(topic@) && (forall|id: ConnectionId| #[trigger]
        old(state)@.subscriptions[topic@].contains(id) ==> id == conn_id) {
        assert(left =~= Set::<ConnectionId>::empty());
    }
    if id != conn_id && old(state)@.subscriptions.contains_key(topic@)
        && old(state)@.subscriptions[topic@].contains(id) {
        assert(left.contains(id));
    }
}

/// The end of a connection is that of the client in its context: as one that disconnects, it
/// loses its entry and its subscription, and nobody else loses anything.
pub proof fn law_ended_connection_takes_nothing_from_others<A, U>(
    service: &mut WebsocketService<A>,
    context: ConnectionContext<A, U>,
    command: Option<RedisCommand>,
    other: Seq<char>,
    id: ConnectionId,
)
    requires
        call_ensures(WebsocketService::<A>::on_disconnect::<U>, (service, context), command),
    ensures
        final(service)@.app_state == old(service)@.app_state,
        final(service)@.state.connections == old(service)@.state.connections.remove(
            context.conn_id,
        ),
        (final(service)@.state.subscriptions.contains_key(other)
            && final(service)@.state.subscriptions[other].contains(id)) <==> !(other
            == context.topic@ && id == context.conn_id) && old(
            service,
        )@.state.subscriptions.contains_key(other) && old(
            service,
        )@.state.subscriptions[other].contains(id),
        other != context.topic@ ==> (final(service)@.state.subscriptions.contains_key(other)
            <==> old(service)@.state.subscriptions.contains_key(other)),
        final(service)@.state.subscriptions.contains_key(context.topic@) <==> old(
            service,
        )@.state.subscriptions.contains_key(context.topic@) && command is None,
        command matches Some(command) ==> (command matches RedisCommand::Unsubscribe(told) && told@
            == context.topic@),
        command is Some ==> old(service)@.state.subscriptions.contains_key(context.topic@),
        id != context.conn_id && old(service)@.state.subscriptions.contains_key(context.topic@)
            && old(service)@.state.subscriptions[context.topic@].contains(id) ==> command is None,
        old(service)@.state.subscriptions.contains_key(context.topic@) && (forall|
            id: ConnectionId,
        | #[trigger]
            old(service)@.state.subscriptions[context.topic@].contains(id) ==> id
                == context.conn_id) ==> command is Some,
{
    let entry = old(service)@.state.subscriptions[context.topic@];
    let left = entry.remove(context.conn_id);
    if forall|id: ConnectionId| #[trigger] entry.contains(id) ==> id == context.conn_id {
        assert(left =~= Set::<ConnectionId>::empty());
    }
    if id != context.conn_id && entry.contains(id) {
        assert(left.contains(id));
    }
}

/// What a fan-out says, in full: everybody who is connected and subscribed to the topic gets
/// the text once, at their own sink, and nobody else gets anything.
proof fn lemma_everybody_once(
    deliveries: Seq<Delivery>,
    state: StateView,
    topic: Seq<char>,
    text: Seq<char>,
    id: ConnectionId,
)
    requires
        is_fan_out(deliveries, state.recipients(topic), text),
    ensures
        (exists|i: int| 0 <= i < deliveries.len() && (#[trigger] deliveries[i]).conn_id == id)
            <==> state.connections.contains_key(id) && state.subscriptions.contains_key(topic)
            && state.subscriptions[topic].contains(id),
        forall|i: int|
            0 <= i < deliveries.len() ==> (#[trigger] deliveries[i]).text@ == text
                && deliveries[i].sink == state.connections[deliveries[i].conn_id],
        forall|i: int, j: int|
            0 <= i < deliveries.len() && 0 <= j < deliveries.len() && (
            #[trigger] deliveries[i]).conn_id == (#[trigger] deliveries[j]).conn_id ==> i == j,
{
    assert(state.recipients(topic).contains_key(id) <==> state.connections.contains_key(id)
        && state.subscribers(topic).contains(id));
    assert forall|i: int| 0 <= i < deliveries.len() implies (#[trigger] deliveries[i]).text@ == text
        && deliveries[i].sink == state.connections[deliveries[i].conn_id] by {
        assert(state.recipients(topic).contains_key(deliveries[i].conn_id));
    }
}

/// Everybody who is connected and subscribed to the topic gets the text once, whole, at their
/// own sink, and nobody else gets anything.
pub proof fn law_everybody_gets_the_text_once(
    state: &WsState,
    topic: &str,
    text: &String,
    deliveries: Vec<Delivery>,
    id: ConnectionId,
)
    requires
        call_ensures(WsState::fan_out, (state, topic, text), deliveries),
    ensures
        (exists|i: int| 0 <= i < deliveries@.len() && (#[trigger] deliveries@[i]).conn_id == id)
            <==> state@.connections.contains_key(id) && state@.subscriptions.contains_key(topic@)
            && state@.subscriptions[topic@].contains(id),
        forall|i: int|
            0 <= i < deliveries@.len() ==> (#[trigger] deliveries@[i]).text@ == text@
                && deliveries@[i].sink == state@.connections[deliveries@[i].conn_id],
        forall|i: int, j: int|
            0 <= i < deliveries@.len() && 0 <= j < deliveries@.len() && (
            #[trigger] deliveries@[i]).conn_id == (#[trigger] deliveries@[j]).conn_id ==> i == j,
{
    lemma_everybody_once(deliveries@, state@, topic@, text@, id);
}

/// The topics are those of the table, each once.
pub proof fn law_topics_are_those_of_the_table(state: &WsState, topics: Vec<Topic>, topic: Seq<char>)
    requires
        call_ensures(WsState::topics, (state,), topics),
    ensures
        state@.subscriptions.contains_key(topic) <==> exists|i: int|
            0 <= i < topics@.len() && (#[trigger] topics@[i])@ == topic,
        forall|i: int, j: int|
            0 <= i < topics@.len() && 0 <= j < topics@.len() && (#[trigger] topics@[i])@ == (
            #[trigger] topics@[j])@ ==> i == j,
{
    lemma_topics_once(topics@, state@, topic);
}

/// The same of any sequence that holds the topics of a state.
proof fn lemma_topics_once(topics: Seq<Topic>, state: StateView, topic: Seq<char>)
    requires
        topics.map_values(|topic: Topic| topic@).no_duplicates(),
        topics.map_values(|topic: Topic| topic@).to_set() == state.subscriptions.dom(),
    ensures
        state.subscriptions.contains_key(topic) <==> exists|i: int|
            0 <= i < topics.len() && (#[trigger] topics[i])@ == topic,
        forall|i: int, j: int|
            0 <= i < topics.len() && 0 <= j < topics.len() && (#[trigger] topics[i])@ == (
            #[trigger] topics[j])@ ==> i == j,
{
    let views = topics.map_values(|topic: Topic| topic@);
    assert(views.len() == topics.len());
    assert forall|i: int| 0 <= i < topics.len() implies #[trigger] views[i] == topics[i]@ by {}
    if state.subscriptions.contains_key(topic) {
        assert(views.to_set().contains(topic));
        let i = choose|i: int| 0 <= i < views.len() && views[i] == topic;
        assert(topics[i]@ == topic);
    }
    if exists|i: int| 0 <= i < topics.len() && (#[trigger] topics[i])@ == topic {
        let i = choose|i: int| 0 <= i < topics.len() && (#[trigger] topics[i])@ == topic;
        assert(views[i] == topic);
        assert(views.to_set().contains(topic));
    }
    assert forall|i: int, j: int|
        0 <= i < topics.len() && 0 <= j < topics.len() && (#[trigger] topics[i])@ == (
        #[trigger] topics[j])@ implies i == j by {
        assert(views[i] == views[j]);
    }
}

/// A message on a channel is handed, whole and once, to everybody on the node who is connected
/// and subscribed to that topic, and to nobody else.
pub proof fn law_message_reaches_its_topic<A>(
    service: &WebsocketService<A>,
    topic: Topic,
    payload: String,
    action: ListenerAction,
    id: ConnectionId,
)
    requires
        call_ensures(
            WebsocketService::<A>::run_redis_listener,
            (service, ListenerEvent::Message(topic, Some(payload))),
            action,
        ),
    ensures
        action matches ListenerAction::Deliver(deliveries) && {
            &&& (exists|i: int|
                0 <= i < deliveries@.len() && (#[trigger] deliveries@[i]).conn_id == id)
                <==> service@.state.connections.contains_key(id)
                && service@.state.subscriptions.contains_key(topic@)
                && service@.state.subscriptions[topic@].contains(id)
            &&& forall|i: int|
                0 <= i < deliveries@.len() ==> (#[trigger] deliveries@[i]).text@ == payload@
                    && deliveries@[i].sink == service@.state.connections[deliveries@[i].conn_id]
            &&& forall|i: int, j: int|
                0 <= i < deliveries@.len() && 0 <= j < deliveries@.len() && (
                #[trigger] deliveries@[i]).conn_id == (#[trigger] deliveries@[j]).conn_id ==> i == j
        },
{
    lemma_everybody_once(
        action->Deliver_0@,
        service@.state,
        topic@,
        payload@,
        id,
    );
}

/// A client that was accepted, and everybody who was connected to its topic before, get what
/// is published there from then on.
pub proof fn law_accepted_client_is_reached_beside_the_others<A, U>(
    service: &mut WebsocketService<A>,
    sink: WsSink,
    topic: Topic,
    user_id: U,
    connected: (ConnectionContext<A, U>, Option<RedisCommand>),
    later: &WebsocketService<A>,
    published_on: Topic,
    payload: String,
    action: ListenerAction,
    other: ConnectionId,
)
    requires
        call_ensures(
            WebsocketService::<A>::handle_connection::<U>,
            (service, sink, topic, user_id),
            connected,
        ),
        later@ == final(service)@,
        published_on@ == topic@,
        call_ensures(
            WebsocketService::<A>::run_redis_listener,
            (later, ListenerEvent::Message(published_on, Some(payload))),
            action,
        ),
        old(service)@.state.connections.contains_key(other),
        old(service)@.state.subscriptions.contains_key(topic@),
        old(service)@.state.subscriptions[topic@].contains(other),
    ensures
        action matches ListenerAction::Deliver(deliveries) && {
            &&& exists|i: int|
                0 <= i < deliveries@.len() && (#[trigger] deliveries@[i]).conn_id
                    == connected.0.conn_id && deliveries@[i].sink == sink && deliveries@[i].text@
                    == payload@
            &&& exists|i: int|
                0 <= i < deliveries@.len() && (#[trigger] deliveries@[i]).conn_id == other
                    && deliveries@[i].sink == old(service)@.state.connections[other]
                    && deliveries@[i].text@ == payload@
        },
{
    law_accepted_client_replaces_nobody(service, sink, topic, user_id, connected, topic@, other);
    law_message_reaches_its_topic(
        later,
        published_on,
        payload,
        action,
        connected.0.conn_id,
    );
    law_message_reaches_its_topic(later, published_on, payload, action, other);
}

/// What the listener does about everything but a message with a text, on whatever node: it
/// carries out the command that it got; it connects again after a failure, at once or, where
/// connecting failed, after five seconds; it listens after what succeeded; it passes over a
/// message without a text; and it stops where nothing can come any more, and only there.
pub proof fn law_listener_goes_on<A>(
    service: &WebsocketService<A>,
    event: ListenerEvent,
    action: ListenerAction,
)
    requires
        call_ensures(WebsocketService::<A>::run_redis_listener, (service, event), action),
    ensures
        event matches ListenerEvent::Command(command) ==> (action matches ListenerAction::Apply(
            applied,
        ) && applied == command),
        action is Apply ==> event is Command,
        event matches ListenerEvent::Connected(false) ==> (action matches ListenerAction::Wait(
            seconds,
        ) && seconds == 5),
        action is Wait ==> event == ListenerEvent::Connected(false),
        action is Connect <==> event is Waited || event == ListenerEvent::Resubscribed(false)
            || event == ListenerEvent::Applied(false),
        action is Stop <==> event is Closed,
        action is Deliver <==> (event matches ListenerEvent::Message(_, payload) && payload is Some),
        action is Resubscribe ==> event == ListenerEvent::Connected(true),
        action is Listen ==> event == ListenerEvent::Connected(true) || event
            == ListenerEvent::Resubscribed(true) || event == ListenerEvent::Applied(true) || (
        event matches ListenerEvent::Message(_, payload) && payload is None),
{
}

/// On a new connection the listener subscribes to every topic of the node, each once, and to
/// nothing else; only where there is none it listens at once.
pub proof fn law_new_connection_gets_every_topic<A>(
    service: &WebsocketService<A>,
    action: ListenerAction,
    topic: Seq<char>,
)
    requires
        call_ensures(
            WebsocketService::<A>::run_redis_listener,
            (service, ListenerEvent::Connected(true)),
            action,
        ),
    ensures
        service@.state.subscriptions.contains_key(topic) ==> action is Resubscribe,
        action matches ListenerAction::Resubscribe(topics) ==> {
            &&& service@.state.subscriptions.contains_key(topic) <==> exists|i: int|
                0 <= i < topics@.len() && (#[trigger] topics@[i])@ == topic
            &&& forall|i: int, j: int|
                0 <= i < topics@.len() && 0 <= j < topics@.len() && (#[trigger] topics@[i])@ == (
                #[trigger] topics@[j])@ ==> i == j
        },
        action is Resubscribe || action is Listen,
{
    if action is Resubscribe {
        lemma_topics_once(action->Resubscribe_0@, service@.state, topic);
    }
}

/// A broadcast on a channel is handed, whole and once, to everybody who is connected and
/// subscribed to that topic, and to nobody else; one without a text is passed over.
pub proof fn law_broadcast_reaches_its_topic(
    state: &WsState,
    topic: Topic,
    payload: Option<String>,
    action: ListenerAction,
    id: ConnectionId,
)
    requires
        call_ensures(handle_redis_broadcast, (state, topic, payload), action),
    ensures
        payload is None ==> action is Listen,
        payload matches Some(payload) ==> (action matches ListenerAction::Deliver(deliveries) && {
            &&& (exists|i: int|
                0 <= i < deliveries@.len() && (#[trigger] deliveries@[i]).conn_id == id)
                <==> state@.connections.contains_key(id) && state@.subscriptions.contains_key(
                topic@,
            ) && state@.subscriptions[topic@].contains(id)
            &&& forall|i: int|
                0 <= i < deliveries@.len() ==> (#[trigger] deliveries@[i]).text@ == payload@
                    && deliveries@[i].sink == state@.connections[deliveries@[i].conn_id]
            &&& forall|i: int, j: int|
                0 <= i < deliveries@.len() && 0 <= j < deliveries@.len() && (
                #[trigger] deliveries@[i]).conn_id == (#[trigger] deliveries@[j]).conn_id ==> i == j
        }),
{
    if payload is Some {
        lemma_everybody_once(action->Deliver_0@, state@, topic@, payload->0@, id);
    }
}

/// A command that is there is taken, as it is; where there is none the listener looks for a
/// message, and knows whether no command can come any more.
pub proof fn law_command_is_taken_first(command: Polled<RedisCommand>, poll: CommandPoll)
    requires
        call_ensures(listen_for_command, (command,), poll),
    ensures
        command matches Polled::Ready(command) ==> (poll matches CommandPoll::Take(event)
            && event == ListenerEvent::Command(command)),
        command is Pending ==> poll == CommandPoll::LookForMessage(false),
        command is Ended ==> poll == CommandPoll::LookForMessage(true),
{
    if poll is Take {
        assert(heard(command, Polled::Pending) == Some(poll->Take_0));
    }
}

/// A message that is there is heard, as it is; the end is heard where neither a command nor a
/// message can come any more, and otherwise the listener waits.
pub proof fn law_message_or_the_end_is_heard(
    commands_ended: bool,
    message: Polled<(Topic, Option<String>)>,
    event: Option<ListenerEvent>,
)
    requires
        call_ensures(listen_for_message, (commands_ended, message), event),
    ensures
        message matches Polled::Ready(message) ==> event == Some(
            ListenerEvent::Message(message.0, message.1),
        ),
        message is Pending ==> event is None,
        message is Ended && commands_ended ==> event == Some(ListenerEvent::Closed),
        message is Ended && !commands_ended ==> event is None,
{
}

} // verus!
