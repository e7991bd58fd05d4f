//! A run of the Redis listener as part of the history of its node: what the listener does about
//! failures keeps its connection to Redis in step with the topics in use.
use vstd::prelude::*;

use crate::ws::laws::{
    law_every_subscriber_is_reached, law_node_stays_consistent, law_redis_follows_the_node,
    losses_are_repaired, orderly, possible, run_node, NodeEvent, NodeView,
};
use crate::ws::listener::{ListenerAction, ListenerEvent};
use crate::ws::protocol_laws::{is_listening, lemma_listening_before};
use crate::ws::types::{ConnectionId, StateView, Topic};

verus! {

/// What an event of the listener is to its node, given the action that follows: a command
/// that was carried out or failed, a new connection, or one that is subscribed to the topics
/// of the node; where the node has no topic, a new connection is so at once.
pub open spec fn node_events_of(event: ListenerEvent, action: ListenerAction) -> Seq<NodeEvent> {
    match event {
        ListenerEvent::Applied(true) => seq![NodeEvent::Apply],
        ListenerEvent::Applied(false) => seq![NodeEvent::Lose],
        ListenerEvent::Connected(true) => if action is Resubscribe {
            seq![NodeEvent::Reconnect]
        } else {
            seq![NodeEvent::Reconnect, NodeEvent::Resubscribe]
        },
        ListenerEvent::Resubscribed(true) => seq![NodeEvent::Resubscribe],
        _ => Seq::empty(),
    }
}

/// The history of a node: `clients[i]` came and went before `events[i]` of the listener, and
/// the last of `clients` since its last event.
pub open spec fn history(
    clients: Seq<Seq<NodeEvent>>,
    events: Seq<ListenerEvent>,
    actions: Seq<ListenerAction>,
) -> Seq<NodeEvent>
    decreases events.len(),
{
    if events.len() == 0 {
        clients.last()
    } else {
        history(clients.drop_last(), events.drop_last(), actions.drop_last()) + node_events_of(
            events.last(),
            actions.last(),
        ) + clients.last()
    }
}

/// The node after such a history.
pub open spec fn node_after(
    clients: Seq<Seq<NodeEvent>>,
    events: Seq<ListenerEvent>,
    actions: Seq<ListenerAction>,
) -> NodeView {
    run_node(NodeView::start(), history(clients, events, actions))
}

/// Whether clients do nothing but come and go.
pub open spec fn come_and_go(clients: Seq<NodeEvent>) -> bool {
    forall|i: int|
        0 <= i < clients.len() ==> #[trigger] clients[i] is Connect || clients[i] is Disconnect
}

/// Whether a run of the listener took place on the node on which these clients came and went:
/// at each event the listener saw the state that the node had then, and each command that it
/// took was the first of those on their way.
pub open spec fn is_run_on_node(
    clients: Seq<Seq<NodeEvent>>,
    states: Seq<StateView>,
    events: Seq<ListenerEvent>,
    actions: Seq<ListenerAction>,
) -> bool
    decreases events.len(),
{
    &&& clients.len() == events.len() + 1
    &&& come_and_go(clients.last())
    &&& events.len() > 0 ==> {
        let node = node_after(clients.drop_last(), events.drop_last(), actions.drop_last());
        &&& states.last() == node.state
        &&& events.last() matches ListenerEvent::Command(command) ==> node.commands.len() > 0
            && node.commands[0] == command@
        &&& is_run_on_node(
            clients.drop_last(),
            states.drop_last(),
            events.drop_last(),
            actions.drop_last(),
        )
    }
}

/// Whether the listener is between its connections: it has none, or one that it has not
/// subscribed to the topics of the node yet.
pub open spec fn is_reconnecting(action: ListenerAction) -> bool {
    action is Connect || action is Wait || action is Resubscribe
}

/// One more event.
proof fn lemma_run_push(node: NodeView, events: Seq<NodeEvent>, event: NodeEvent)
    requires
        possible(node, events),
        run_node(node, events).allows(event),
    ensures
        run_node(node, events.push(event)) == run_node(node, events).after(event),
        possible(node, events.push(event)),
        losses_are_repaired(events.push(event)) <==> !(event is Lose || event is Reconnect) && (
        event is Resubscribe || losses_are_repaired(events)),
{
    assert(events.push(event).drop_last() =~= events);
    assert(events.push(event).last() == event);
}

/// Clients that come and go can do so at any time. The commands on their way stay there, what
/// the listener read stays read, and no loss comes of it.
proof fn lemma_clients(node: NodeView, events: Seq<NodeEvent>, clients: Seq<NodeEvent>)
    requires
        possible(node, events),
        come_and_go(clients),
    ensures
        possible(node, events + clients),
        losses_are_repaired(events) ==> losses_are_repaired(events + clients),
        run_node(node, events + clients).asked == run_node(node, events).asked,
        run_node(node, events).commands.is_prefix_of(run_node(node, events + clients).commands),
    decreases clients.len(),
{
    if clients.len() == 0 {
        assert(events + clients =~= events);
    } else {
        let front = clients.drop_last();
        assert forall|i: int| 0 <= i < front.len() implies #[trigger] front[i] is Connect
            || front[i] is Disconnect by {
            assert(front[i] == clients[i]);
        }
        lemma_clients(node, events, front);
        let event = clients[clients.len() - 1];
        assert((events + front).push(event) =~= events + clients);
        lemma_run_push(node, events + front, event);
    }
}

/// Every run of the listener is a possible history of its node. What the listener is about to
/// carry out is the first command on its way, and what it is about to subscribe a new
/// connection to is what the node had when it was read; and whenever the listener is back to
/// listening, whatever failed before, all losses are repaired.
pub proof fn law_listener_repairs_losses(
    clients: Seq<Seq<NodeEvent>>,
    states: Seq<StateView>,
    events: Seq<ListenerEvent>,
    actions: Seq<ListenerAction>,
)
    requires
        is_listening(states, events, actions),
        is_run_on_node(clients, states, events, actions),
    ensures
        possible(NodeView::start(), history(clients, events, actions)),
        actions.last() matches ListenerAction::Apply(command) ==> node_after(
            clients,
            events,
            actions,
        ).commands.len() > 0 && node_after(clients, events, actions).commands[0] == command@,
        actions.last() matches ListenerAction::Resubscribe(topics) ==> node_after(
            clients,
            events,
            actions,
        ).asked == Some(topics@.map_values(|topic: Topic| topic@).to_set()),
        !is_reconnecting(actions.last()) ==> losses_are_repaired(history(clients, events, actions)),
    decreases events.len(),
{
    let start = NodeView::start();
    if events.len() == 0 {
        let none = Seq::<NodeEvent>::empty();
        lemma_clients(start, none, clients.last());
        assert(none + clients.last() =~= clients.last());
        assert(actions.last() == actions[0]);
    } else {
        let before = history(clients.drop_last(), events.drop_last(), actions.drop_last());
        let node = run_node(start, before);
        let event = events.last();
        let action = actions.last();
        lemma_listening_before(states, events, actions);
        law_listener_repairs_losses(
            clients.drop_last(),
            states.drop_last(),
            events.drop_last(),
            actions.drop_last(),
        );
        let own = node_events_of(event, action);
        let after = before + own;
        if own.len() == 0 {
            assert(after =~= before);
        } else {
            lemma_run_push(start, before, own[0]);
            if own.len() == 1 {
                assert(after =~= before.push(own[0]));
            } else {
                lemma_run_push(start, before.push(own[0]), own[1]);
                assert(after =~= before.push(own[0]).push(own[1]));
            }
        }
        lemma_clients(start, after, clients.last());
        let now = node_after(clients, events, actions);
        if action is Apply {
            assert(run_node(start, after) == node);
            assert(now.commands[0] == node.commands[0]);
        }
    }
}

/// Whatever happened to the listener's connections and commands, and whoever came and went:
/// whenever the listener is back to listening, the commands on their way bring its connection
/// to the topics in use, and with none on its way it is subscribed to exactly those.
pub proof fn law_redis_follows_every_run(
    clients: Seq<Seq<NodeEvent>>,
    states: Seq<StateView>,
    events: Seq<ListenerEvent>,
    actions: Seq<ListenerAction>,
)
    requires
        is_listening(states, events, actions),
        is_run_on_node(clients, states, events, actions),
        !is_reconnecting(actions.last()),
    ensures
        node_after(clients, events, actions).in_step(),
        node_after(clients, events, actions).commands.len() == 0 ==> node_after(
            clients,
            events,
            actions,
        ).redis == node_after(clients, events, actions).state.subscriptions.dom(),
{
    law_listener_repairs_losses(clients, states, events, actions);
    law_redis_follows_the_node(history(clients, events, actions));
}

/// Over any such run in which clients connect under new ids and disconnect from their own
/// topics: once the listener is back to listening and no command is on its way, it hears a
/// topic exactly where somebody on the node is subscribed to it, and what it hears goes to
/// every subscriber.
pub proof fn law_run_reaches_every_subscriber(
    clients: Seq<Seq<NodeEvent>>,
    states: Seq<StateView>,
    events: Seq<ListenerEvent>,
    actions: Seq<ListenerAction>,
    topic: Seq<char>,
)
    requires
        is_listening(states, events, actions),
        is_run_on_node(clients, states, events, actions),
        orderly(NodeView::start(), history(clients, events, actions)),
        !is_reconnecting(actions.last()),
        node_after(clients, events, actions).commands.len() == 0,
    ensures
        node_after(clients, events, actions).redis.contains(topic) <==> node_after(
            clients,
            events,
            actions,
        ).state.subscribers(topic) != Set::<ConnectionId>::empty(),
        node_after(clients, events, actions).state.recipients(topic).dom() == node_after(
            clients,
            events,
            actions,
        ).state.subscribers(topic),
{
    law_redis_follows_every_run(clients, states, events, actions);
    law_node_stays_consistent(history(clients, events, actions));
    law_every_subscriber_is_reached(node_after(clients, events, actions), topic);
}

} // verus!
