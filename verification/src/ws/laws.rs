//! What holds of a node over any history of connections, disconnections and commands.
use vstd::prelude::*;

use crate::ws::types::{is_fan_out, CommandView, ConnectionId, Delivery, StateView, WsSink};

verus! {

/// Whether a state is one that connections which come and go can lead to: no topic is kept
/// without a subscriber, every subscriber is connected, and nobody is subscribed to two
/// topics.
pub open spec fn consistent(state: StateView) -> bool {
    &&& forall|topic: Seq<char>| #[trigger]
        state.subscriptions.contains_key(topic) ==> state.subscriptions[topic] != Set::<
            ConnectionId,
        >::empty()
    &&& forall|topic: Seq<char>, id: ConnectionId| #[trigger]
        state.subscribers(topic).contains(id) ==> state.connections.contains_key(id)
    &&& forall|topic: Seq<char>, other: Seq<char>, id: ConnectionId| #[trigger]
        state.subscribers(topic).contains(id) && #[trigger] state.subscribers(other).contains(id)
            ==> topic == other
}

/// What a client that connects is sent from then on: what is published on its topic reaches
/// its sink.
pub proof fn law_connected_client_receives(
    state: StateView,
    id: ConnectionId,
    sink: WsSink,
    topic: Seq<char>,
    deliveries: Seq<Delivery>,
    text: Seq<char>,
)
    requires
        is_fan_out(deliveries, state.after_connect(id, sink, topic).recipients(topic), text),
    ensures
        exists|i: int|
            0 <= i < deliveries.len() && (#[trigger] deliveries[i]).conn_id == id
                && deliveries[i].sink == sink && deliveries[i].text@ == text,
{
    assert(state.after_connect(id, sink, topic).recipients(topic).contains_key(id));
}

/// A client that has disconnected is sent nothing any more, on whatever topic.
pub proof fn law_disconnected_client_receives_nothing(
    state: StateView,
    id: ConnectionId,
    topic: Seq<char>,
    published_on: Seq<char>,
    deliveries: Seq<Delivery>,
    text: Seq<char>,
)
    requires
        is_fan_out(deliveries, state.after_disconnect(id, topic).recipients(published_on), text),
    ensures
        forall|i: int| 0 <= i < deliveries.len() ==> (#[trigger] deliveries[i]).conn_id != id,
{
    assert(!state.after_disconnect(id, topic).recipients(published_on).contains_key(id));
}

/// What a client receives does not depend on the comings and goings of others.
pub proof fn law_others_are_unaffected(
    state: StateView,
    id: ConnectionId,
    sink: WsSink,
    topic: Seq<char>,
    other: ConnectionId,
    published_on: Seq<char>,
)
    requires
        other != id,
    ensures
        state.after_connect(id, sink, topic).recipients(published_on).contains_key(other)
            <==> state.recipients(published_on).contains_key(other),
        state.after_disconnect(id, topic).recipients(published_on).contains_key(other)
            <==> state.recipients(published_on).contains_key(other),
        state.recipients(published_on).contains_key(other) ==> {
            &&& state.after_connect(id, sink, topic).recipients(published_on)[other]
                == state.recipients(published_on)[other]
            &&& state.after_disconnect(id, topic).recipients(published_on)[other]
                == state.recipients(published_on)[other]
        },
{
    if state.leaves_nobody(id, topic) {
        assert(!state.subscriptions[topic].contains(other)) by {
            if state.subscriptions[topic].contains(other) {
                assert(state.subscriptions[topic].remove(id).contains(other));
            }
        }
    }
}

/// In a consistent state, what is published on a topic reaches all of its subscribers.
pub proof fn law_every_subscriber_receives(state: StateView, topic: Seq<char>)
    requires
        consistent(state),
    ensures
        state.recipients(topic).dom() == state.subscribers(topic),
{
    assert(state.recipients(topic).dom() =~= state.subscribers(topic));
}

/// A client that connects under a new id and disconnects again leaves the node as it was.
pub proof fn law_disconnect_undoes_connect(
    state: StateView,
    id: ConnectionId,
    sink: WsSink,
    topic: Seq<char>,
)
    requires
        consistent(state),
        !state.connections.contains_key(id),
    ensures
        state.after_connect(id, sink, topic).after_disconnect(id, topic) == state,
{
    let back = state.after_connect(id, sink, topic).after_disconnect(id, topic);
    assert(!state.subscribers(topic).contains(id));
    assert(state.subscribers(topic).insert(id).remove(id) =~= state.subscribers(topic));
    assert(back.connections =~= state.connections);
    assert(back.subscriptions =~= state.subscriptions);
}

/// A connection under a new id keeps a state consistent.
pub proof fn law_connect_keeps_consistency(
    state: StateView,
    id: ConnectionId,
    sink: WsSink,
    topic: Seq<char>,
)
    requires
        consistent(state),
        !state.connections.contains_key(id),
    ensures
        consistent(state.after_connect(id, sink, topic)),
{
    let after = state.after_connect(id, sink, topic);
    assert(after.subscriptions[topic].contains(id));
    assert forall|other: Seq<char>, conn: ConnectionId| #[trigger]
        after.subscribers(other).contains(conn) implies conn == id && other == topic
        || state.subscribers(other).contains(conn) by {}
}

/// The disconnection of a client from its topic keeps a state consistent.
pub proof fn law_disconnect_keeps_consistency(
    state: StateView,
    id: ConnectionId,
    topic: Seq<char>,
)
    requires
        consistent(state),
        state.subscribers(topic).contains(id),
    ensures
        consistent(state.after_disconnect(id, topic)),
{
    let after = state.after_disconnect(id, topic);
    assert forall|other: Seq<char>, conn: ConnectionId| #[trigger]
        after.subscribers(other).contains(conn) implies conn != id && state.subscribers(
        other,
    ).contains(conn) by {
        if other != topic && conn == id {
            assert(state.subscribers(other).contains(id));
        }
    }
}

/// The topics of a connection to Redis after a command.
pub open spec fn apply_command(redis: Set<Seq<char>>, command: CommandView) -> Set<Seq<char>> {
    match command {
        CommandView::Subscribe(topic) => redis.insert(topic),
        CommandView::Unsubscribe(topic) => redis.remove(topic),
    }
}

/// The topics of a connection to Redis after all of `commands`, the first one first.
pub open spec fn apply_commands(
    redis: Set<Seq<char>>,
    commands: Seq<CommandView>,
) -> Set<Seq<char>>
    decreases commands.len(),
{
    if commands.len() == 0 {
        redis
    } else {
        apply_command(apply_commands(redis, commands.drop_last()), commands.last())
    }
}

/// A node with its listener: the state, the commands that are on their way to the listener,
/// the topics that the listener's connection to Redis is subscribed to, and those that the
/// listener means to subscribe a new connection to, before it carries out any command on it.
pub struct NodeView {
    pub state: StateView,
    pub commands: Seq<CommandView>,
    pub redis: Set<Seq<char>>,
    pub asked: Option<Set<Seq<char>>>,
}

/// One thing that happens on a node.
pub enum NodeEvent {
    /// A client connects.
    Connect(ConnectionId, WsSink, Seq<char>),
    /// A client disconnects.
    Disconnect(ConnectionId, Seq<char>),
    /// The listener carries out the next command.
    Apply,
    /// The listener fails to carry out the next command, which is lost, and gives up its
    /// connection.
    Lose,
    /// The listener has a new connection, and reads the topics of the node.
    Reconnect,
    /// The listener has subscribed the new connection to the topics that it read.
    Resubscribe,
}

/// `commands` with one more, where there is one.
pub open spec fn with_command(
    commands: Seq<CommandView>,
    command: Option<CommandView>,
) -> Seq<CommandView> {
    match command {
        Some(command) => commands.push(command),
        None => commands,
    }
}

impl NodeView {
    /// A node that was just started.
    pub open spec fn start() -> NodeView {
        NodeView {
            state: StateView::empty(),
            commands: Seq::empty(),
            redis: Set::empty(),
            asked: None,
        }
    }

    /// The node after an event.
    pub open spec fn after(self, event: NodeEvent) -> NodeView {
        match event {
            NodeEvent::Connect(id, sink, topic) => NodeView {
                state: self.state.after_connect(id, sink, topic),
                commands: with_command(self.commands, self.state.subscribe_command(topic)),
                ..self
            },
            NodeEvent::Disconnect(id, topic) => NodeView {
                state: self.state.after_disconnect(id, topic),
                commands: with_command(self.commands, self.state.disconnect_command(id, topic)),
                ..self
            },
            NodeEvent::Apply => NodeView {
                redis: apply_command(self.redis, self.commands[0]),
                commands: self.commands.drop_first(),
                asked: None,
                ..self
            },
            NodeEvent::Lose => NodeView {
                redis: Set::empty(),
                commands: self.commands.drop_first(),
                asked: None,
                ..self
            },
            NodeEvent::Reconnect => NodeView {
                redis: Set::empty(),
                asked: Some(self.state.subscriptions.dom()),
                ..self
            },
            NodeEvent::Resubscribe => NodeView { redis: self.asked->0, ..self },
        }
    }

    /// Whether an event can happen: a command is carried out or lost only where there is one,
    /// and a new connection subscribed only before any command is carried out on it.
    pub open spec fn allows(self, event: NodeEvent) -> bool {
        &&& event is Apply || event is Lose ==> self.commands.len() > 0
        &&& event is Resubscribe ==> self.asked is Some
    }

    /// Whether the commands on their way make Redis send exactly what somebody on the node is
    /// subscribed to.
    pub open spec fn in_step(self) -> bool {
        apply_commands(self.redis, self.commands) == self.state.subscriptions.dom()
    }

    /// Whether the commands on their way would leave a connection alone that is subscribed to
    /// exactly the topics of the node, and bring one to them that is subscribed to what the
    /// listener read.
    pub open spec fn commands_agree(self) -> bool {
        let topics = self.state.subscriptions.dom();
        &&& apply_commands(topics, self.commands) == topics
        &&& self.asked matches Some(asked) ==> apply_commands(asked, self.commands) == topics
    }
}

/// The node after all of `events`, the first one first.
pub open spec fn run_node(node: NodeView, events: Seq<NodeEvent>) -> NodeView
    decreases events.len(),
{
    if events.len() == 0 {
        node
    } else {
        run_node(node, events.drop_last()).after(events.last())
    }
}

/// Whether each of `events` can happen where it stands.
pub open spec fn possible(node: NodeView, events: Seq<NodeEvent>) -> bool
    decreases events.len(),
{
    events.len() > 0 ==> possible(node, events.drop_last()) && run_node(
        node,
        events.drop_last(),
    ).allows(events.last())
}

/// Whether a connection was subscribed anew after the last command that was lost, if any, and
/// after the last new connection, if any.
pub open spec fn losses_are_repaired(events: Seq<NodeEvent>) -> bool
    decreases events.len(),
{
    events.len() > 0 ==> !(events.last() is Lose || events.last() is Reconnect) && (
    events.last() is Resubscribe || losses_are_repaired(events.drop_last()))
}

/// Whether a command is about a topic.
spec fn concerns(command: CommandView, topic: Seq<char>) -> bool {
    match command {
        CommandView::Subscribe(other) => other == topic,
        CommandView::Unsubscribe(other) => other == topic,
    }
}

/// Where some command is about a topic, the commands alone decide on it; elsewhere they
/// leave it as it was.
proof fn lemma_commands_decide(
    redis: Set<Seq<char>>,
    other: Set<Seq<char>>,
    commands: Seq<CommandView>,
    topic: Seq<char>,
)
    requires
        redis.contains(topic) == other.contains(topic) || exists|i: int|
            0 <= i < commands.len() && concerns(#[trigger] commands[i], topic),
    ensures
        apply_commands(redis, commands).contains(topic) == apply_commands(
            other,
            commands,
        ).contains(topic),
    decreases commands.len(),
{
    if commands.len() > 0 && !concerns(commands.last(), topic) {
        let front = commands.drop_last();
        if redis.contains(topic) != other.contains(topic) {
            let i = choose|i: int|
                0 <= i < commands.len() && concerns(#[trigger] commands[i], topic);
            assert(front[i] == commands[i]);
        }
        lemma_commands_decide(redis, other, front, topic);
    }
}

/// Commands that are not about a topic leave it as it was.
proof fn lemma_commands_leave(redis: Set<Seq<char>>, commands: Seq<CommandView>, topic: Seq<char>)
    requires
        forall|i: int| 0 <= i < commands.len() ==> !concerns(#[trigger] commands[i], topic),
    ensures
        apply_commands(redis, commands).contains(topic) == redis.contains(topic),
    decreases commands.len(),
{
    if commands.len() > 0 {
        let front = commands.drop_last();
        assert forall|i: int| 0 <= i < front.len() implies !concerns(#[trigger] front[i], topic) by {
            assert(front[i] == commands[i]);
        }
        lemma_commands_leave(redis, front, topic);
        assert(!concerns(commands[commands.len() - 1], topic));
    }
}

/// The first command can be carried out before the others.
proof fn lemma_first_command(redis: Set<Seq<char>>, commands: Seq<CommandView>)
    requires
        commands.len() > 0,
    ensures
        apply_commands(redis, commands) == apply_commands(
            apply_command(redis, commands[0]),
            commands.drop_first(),
        ),
    decreases commands.len(),
{
    reveal_with_fuel(apply_commands, 2);
    if commands.len() > 1 {
        lemma_first_command(redis, commands.drop_last());
        assert(commands.drop_last().drop_first() =~= commands.drop_first().drop_last());
        assert(commands.drop_first().last() == commands.last());
    } else {
        assert(commands.drop_last() =~= Seq::<CommandView>::empty());
        assert(commands.drop_first() =~= Seq::<CommandView>::empty());
    }
}

/// One more command, which brings the topics of a node from `before` to `after`, keeps a
/// list of commands in agreement with the node.
proof fn lemma_push_agrees(
    before: Set<Seq<char>>,
    after: Set<Seq<char>>,
    commands: Seq<CommandView>,
    command: CommandView,
)
    requires
        apply_commands(before, commands) == before,
        after == apply_command(before, command),
    ensures
        apply_commands(after, commands.push(command)) == after,
{
    assert(commands.push(command).drop_last() =~= commands);
    assert forall|topic: Seq<char>| #[trigger]
        apply_commands(after, commands.push(command)).contains(topic) == after.contains(topic) by {
        if !concerns(command, topic) {
            lemma_commands_decide(before, after, commands, topic);
        }
    }
    assert(apply_commands(after, commands.push(command)) =~= after);
}

/// What a connection or a disconnection does to the topics of a node is what its command
/// does to those of a connection to Redis.
proof fn lemma_command_matches_topics(node: NodeView, event: NodeEvent, command: Option<CommandView>)
    requires
        match event {
            NodeEvent::Connect(_, _, topic) => command == node.state.subscribe_command(topic),
            NodeEvent::Disconnect(id, topic) => command == node.state.disconnect_command(id, topic),
            _ => false,
        },
    ensures
        node.after(event).state.subscriptions.dom() == match command {
            Some(command) => apply_command(node.state.subscriptions.dom(), command),
            None => node.state.subscriptions.dom(),
        },
{
    let after = node.after(event).state.subscriptions.dom();
    match command {
        Some(command) => {
            assert(after =~= apply_command(node.state.subscriptions.dom(), command));
        },
        None => {
            assert(after =~= node.state.subscriptions.dom());
        },
    }
}

/// Whatever happens on a node, its commands go on to agree with its topics; and a node that
/// is in step stays so, unless a command or the connection is lost.
pub proof fn law_node_stays_in_step(node: NodeView, event: NodeEvent)
    requires
        node.allows(event),
        node.commands_agree(),
    ensures
        node.after(event).commands_agree(),
        node.in_step() && !(event is Lose || event is Reconnect) ==> node.after(event).in_step(),
        event is Resubscribe ==> node.after(event).in_step(),
{
    let topics = node.state.subscriptions.dom();
    match event {
        NodeEvent::Connect(_, _, _) | NodeEvent::Disconnect(_, _) => {
            let command = match event {
                NodeEvent::Connect(_, _, topic) => node.state.subscribe_command(topic),
                NodeEvent::Disconnect(id, topic) => node.state.disconnect_command(id, topic),
                _ => None,
            };
            lemma_command_matches_topics(node, event, command);
            match command {
                Some(command) => {
                    lemma_push_agrees(
                        topics,
                        node.after(event).state.subscriptions.dom(),
                        node.commands,
                        command,
                    );
                    assert(node.commands.push(command).drop_last() =~= node.commands);
                },
                None => {},
            }
        },
        NodeEvent::Apply | NodeEvent::Lose => {
            let rest = node.commands.drop_first();
            let first = node.commands[0];
            lemma_first_command(node.redis, node.commands);
            lemma_first_command(topics, node.commands);
            assert forall|topic: Seq<char>| #[trigger]
                apply_commands(topics, rest).contains(topic) == topics.contains(topic) by {
                if exists|i: int| 0 <= i < rest.len() && concerns(#[trigger] rest[i], topic) {
                    lemma_commands_decide(topics, apply_command(topics, first), rest, topic);
                } else {
                    lemma_commands_leave(topics, rest, topic);
                }
            }
            assert(apply_commands(topics, rest) =~= topics);
        },
        NodeEvent::Reconnect | NodeEvent::Resubscribe => {},
    }
}

/// Over any history in which no command and no connection was lost since a connection was last
/// subscribed anew: once the commands on their way are carried out, the listener is subscribed
/// to exactly the topics that somebody on the node is subscribed to.
pub proof fn law_redis_follows_the_node(events: Seq<NodeEvent>)
    requires
        possible(NodeView::start(), events),
        losses_are_repaired(events),
    ensures
        run_node(NodeView::start(), events).in_step(),
        run_node(NodeView::start(), events).commands.len() == 0 ==> run_node(
            NodeView::start(),
            events,
        ).redis == run_node(NodeView::start(), events).state.subscriptions.dom(),
    decreases events.len(),
{
    if events.len() == 0 {
        assert(NodeView::start().state.subscriptions.dom() =~= Set::<Seq<char>>::empty());
    } else {
        let front = events.drop_last();
        lemma_commands_always_agree(front);
        if !(events.last() is Resubscribe) {
            law_redis_follows_the_node(front);
        }
        law_node_stays_in_step(run_node(NodeView::start(), front), events.last());
    }
}

/// On a node whose commands are all carried out, the listener hears a topic exactly where
/// somebody is subscribed to it, and what it hears goes to every subscriber. A node is thus
/// sent what is published on any other node for its clients, and nothing else.
pub proof fn law_every_subscriber_is_reached(node: NodeView, topic: Seq<char>)
    requires
        node.in_step(),
        node.commands.len() == 0,
        consistent(node.state),
    ensures
        node.redis.contains(topic) <==> node.state.subscribers(topic) != Set::<
            ConnectionId,
        >::empty(),
        node.state.recipients(topic).dom() == node.state.subscribers(topic),
{
    law_every_subscriber_receives(node.state, topic);
    assert(node.state.subscriptions.contains_key(topic) <==> node.state.subscribers(topic)
        != Set::<ConnectionId>::empty());
}

/// Over any history, the commands on their way agree with the topics of the node.
proof fn lemma_commands_always_agree(events: Seq<NodeEvent>)
    requires
        possible(NodeView::start(), events),
    ensures
        run_node(NodeView::start(), events).commands_agree(),
    decreases events.len(),
{
    if events.len() == 0 {
        assert(NodeView::start().state.subscriptions.dom() =~= Set::<Seq<char>>::empty());
    } else {
        lemma_commands_always_agree(events.drop_last());
        law_node_stays_in_step(run_node(NodeView::start(), events.drop_last()), events.last());
    }
}

/// Whether every client in `events` connects under an id that is not in use, and disconnects
/// from the topic that it is subscribed to.
pub open spec fn orderly(node: NodeView, events: Seq<NodeEvent>) -> bool
    decreases events.len(),
{
    events.len() > 0 ==> {
        let before = run_node(node, events.drop_last()).state;
        &&& orderly(node, events.drop_last())
        &&& match events.last() {
            NodeEvent::Connect(id, _, _) => !before.connections.contains_key(id),
            NodeEvent::Disconnect(id, topic) => before.subscribers(topic).contains(id),
            _ => true,
        }
    }
}

/// Over any orderly history the state of a node is consistent: no topic without a
/// subscriber, no subscriber without a connection, nobody in two topics.
pub proof fn law_node_stays_consistent(events: Seq<NodeEvent>)
    requires
        orderly(NodeView::start(), events),
    ensures
        consistent(run_node(NodeView::start(), events).state),
    decreases events.len(),
{
    if events.len() > 0 {
        law_node_stays_consistent(events.drop_last());
        let before = run_node(NodeView::start(), events.drop_last()).state;
        match events.last() {
            NodeEvent::Connect(id, sink, topic) => {
                law_connect_keeps_consistency(before, id, sink, topic);
            },
            NodeEvent::Disconnect(id, topic) => {
                law_disconnect_keeps_consistency(before, id, topic);
            },
            _ => {},
        }
    }
}

} // verus!
