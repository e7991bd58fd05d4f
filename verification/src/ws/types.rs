//! The types that the service works on, and the state of one server instance.
use dashmap::DashMap;
use std::collections::HashSet;
use vstd::prelude::*;
use vstd::relations::injective_on;
use vstd::set_lib::{lemma_int_range, lemma_len_subset, lemma_map_size, set_int_range};

use crate::foreign::{
    connection_table, count_connections, count_topics, get_connection, get_subscribers,
    insert_connection, insert_subscribers, is_random_uuid, new_connection_table,
    new_subscription_table, random_id, remove_connection, remove_subscribers, subscribed_topics,
    subscription_table,
};

verus! {

/// A unique identifier for a single WebSocket connection: a UUID, as a number.
pub type ConnectionId = u128;

/// A topic identifier, used for Redis Pub/Sub channels and subscription mapping.
pub type Topic = String;

/// The number under which the transport keeps the writing half of a WebSocket.
pub type WsSink = u64;

/// Defines the commands that can be sent to the background Redis listener task.
/// This allows the main service to dynamically change the listener's subscriptions.
#[derive(Debug)]
pub enum RedisCommand {
    /// Command to subscribe the Redis listener to a new topic.
    Subscribe(Topic),
    /// Command to unsubscribe the Redis listener from a topic.
    Unsubscribe(Topic),
}

/// A command with the characters of its topic.
pub enum CommandView {
    Subscribe(Seq<char>),
    Unsubscribe(Seq<char>),
}

impl View for RedisCommand {
    type V = CommandView;

    open spec fn view(&self) -> CommandView {
        match self {
            RedisCommand::Subscribe(topic) => CommandView::Subscribe(topic@),
            RedisCommand::Unsubscribe(topic) => CommandView::Unsubscribe(topic@),
        }
    }
}

/// The view of a command that may be missing.
pub open spec fn command_view(command: Option<RedisCommand>) -> Option<CommandView> {
    match command {
        Some(command) => Some(command@),
        None => None,
    }
}

/// A text that is to be sent to one connection.
#[derive(Debug)]
pub struct Delivery {
    /// The connection that the text is for.
    pub conn_id: ConnectionId,
    /// The sink of that connection.
    pub sink: WsSink,
    /// The text.
    pub text: String,
}

/// The state of one server instance: the sink of each connection, and the subscribers of
/// each topic.
#[verifier::ext_equal]
pub struct StateView {
    pub connections: Map<ConnectionId, WsSink>,
    pub subscriptions: Map<Seq<char>, Set<ConnectionId>>,
}

impl StateView {
    /// No connection and no topic.
    pub open spec fn empty() -> StateView {
        StateView { connections: Map::empty(), subscriptions: Map::empty() }
    }

    /// The subscribers of a topic; a topic without an entry has none.
    pub open spec fn subscribers(self, topic: Seq<char>) -> Set<ConnectionId> {
        if self.subscriptions.contains_key(topic) {
            self.subscriptions[topic]
        } else {
            Set::empty()
        }
    }

    /// After a connection was entered with its sink.
    pub open spec fn after_register(self, id: ConnectionId, sink: WsSink) -> StateView {
        StateView { connections: self.connections.insert(id, sink), ..self }
    }

    /// After a connection subscribed to a topic.
    pub open spec fn after_subscribe(self, id: ConnectionId, topic: Seq<char>) -> StateView {
        StateView {
            subscriptions: self.subscriptions.insert(topic, self.subscribers(topic).insert(id)),
            ..self
        }
    }

    /// The command that a subscription asks for: the first subscriber of a topic on this
    /// node makes the listener subscribe to it.
    pub open spec fn subscribe_command(self, topic: Seq<char>) -> Option<CommandView> {
        if self.subscribers(topic) =~= Set::<ConnectionId>::empty() {
            Some(CommandView::Subscribe(topic))
        } else {
            None
        }
    }

    /// After a client connected: its connection is entered and subscribed to its topic.
    pub open spec fn after_connect(
        self,
        id: ConnectionId,
        sink: WsSink,
        topic: Seq<char>,
    ) -> StateView {
        self.after_register(id, sink).after_subscribe(id, topic)
    }

    /// Whether a topic has an entry in which nobody but `id` is left.
    pub open spec fn leaves_nobody(self, id: ConnectionId, topic: Seq<char>) -> bool {
        self.subscriptions.contains_key(topic) && self.subscriptions[topic].remove(id)
            =~= Set::<ConnectionId>::empty()
    }

    /// After a client disconnected: its connection is gone, it is no subscriber of its
    /// topic, and a topic that nobody is left in is gone too.
    pub open spec fn after_disconnect(self, id: ConnectionId, topic: Seq<char>) -> StateView {
        StateView {
            connections: self.connections.remove(id),
            subscriptions: if self.leaves_nobody(id, topic) {
                self.subscriptions.remove(topic)
            } else if self.subscriptions.contains_key(topic) {
                self.subscriptions.insert(topic, self.subscriptions[topic].remove(id))
            } else {
                self.subscriptions
            },
        }
    }

    /// The command that a disconnection asks for: when the last subscriber of a topic on
    /// this node leaves, the listener unsubscribes from it.
    pub open spec fn disconnect_command(
        self,
        id: ConnectionId,
        topic: Seq<char>,
    ) -> Option<CommandView> {
        if self.leaves_nobody(id, topic) {
            Some(CommandView::Unsubscribe(topic))
        } else {
            None
        }
    }

    /// Who receives what is published on a topic: the connections that are subscribed to it
    /// and have a sink, each with its sink.
    pub open spec fn recipients(self, topic: Seq<char>) -> Map<ConnectionId, WsSink> {
        self.connections.restrict(self.subscribers(topic))
    }
}

/// Whether `deliveries` bring `text` once to each of `recipients`, and to nobody else.
pub open spec fn is_fan_out(
    deliveries: Seq<Delivery>,
    recipients: Map<ConnectionId, WsSink>,
    text: Seq<char>,
) -> bool {
    &&& forall|i: int|
        0 <= i < deliveries.len() ==> {
            &&& recipients.contains_key((#[trigger] deliveries[i]).conn_id)
            &&& deliveries[i].sink == recipients[deliveries[i].conn_id]
            &&& deliveries[i].text@ == text
        }
    &&& forall|i: int, j: int|
        0 <= i < j < deliveries.len() ==> (#[trigger] deliveries[i]).conn_id != (
        #[trigger] deliveries[j]).conn_id
    &&& forall|id: ConnectionId| #[trigger]
        recipients.contains_key(id) ==> exists|i: int|
            0 <= i < deliveries.len() && (#[trigger] deliveries[i]).conn_id == id
}

/// There are only so many ids.
pub(crate) proof fn lemma_ids_are_finite(ids: Set<ConnectionId>)
    ensures
        ids.finite(),
{
    let numbers = set_int_range(0, u128::MAX + 1);
    let all = numbers.map(|number: int| number as u128);
    lemma_int_range(0, u128::MAX + 1);
    numbers.lemma_map_finite(|number: int| number as u128);
    assert forall|id: ConnectionId| ids.contains(id) implies #[trigger] all.contains(id) by {
        assert(numbers.contains(id as int));
        assert((id as int) as u128 == id);
    }
    lemma_len_subset(ids, all);
}

/// The id that has the number `i` in the places of `drawn` that neither tell its version nor
/// its variant, as far as the number takes.
spec fn numbered(drawn: ConnectionId, i: u128) -> ConnectionId {
    (drawn & 0xffff_ffff_ffff_f000_c000_0000_0000_0000u128) | ((i >> 62u128) << 64u128) | (i
        & 0x3fff_ffff_ffff_ffffu128)
}

/// The id with the number `i`.
fn number_id(drawn: ConnectionId, i: u128) -> (conn_id: ConnectionId)
    ensures
        conn_id == numbered(drawn, i),
{
    (drawn & 0xffff_ffff_ffff_f000_c000_0000_0000_0000u128) | ((i >> 62u128) << 64u128) | (i
        & 0x3fff_ffff_ffff_ffffu128)
}

/// Numbered ids keep the version and the variant of the drawn one, and differ in pairs.
proof fn lemma_numbered(drawn: ConnectionId, i: u128, j: u128)
    requires
        is_random_uuid(drawn),
        i < 0x1_0000_0000_0000_0000,
        j < 0x1_0000_0000_0000_0000,
    ensures
        is_random_uuid(numbered(drawn, i)),
        numbered(drawn, i) == numbered(drawn, j) ==> i == j,
{
    let a: u128 = numbered(drawn, i);
    let b: u128 = numbered(drawn, j);
    assert((a >> 76) & 0xf == 4 && (a >> 62) & 0x3 == 2) by (bit_vector)
        requires
            (drawn >> 76) & 0xf == 4 && (drawn >> 62) & 0x3 == 2,
            i < 0x1_0000_0000_0000_0000,
            a == (drawn & 0xffff_ffff_ffff_f000_c000_0000_0000_0000u128) | ((i >> 62u128)
                << 64u128) | (i & 0x3fff_ffff_ffff_ffffu128),
    ;
    assert(a == b ==> i == j) by (bit_vector)
        requires
            i < 0x1_0000_0000_0000_0000,
            j < 0x1_0000_0000_0000_0000,
            a == (drawn & 0xffff_ffff_ffff_f000_c000_0000_0000_0000u128) | ((i >> 62u128)
                << 64u128) | (i & 0x3fff_ffff_ffff_ffffu128),
            b == (drawn & 0xffff_ffff_ffff_f000_c000_0000_0000_0000u128) | ((j >> 62u128)
                << 64u128) | (j & 0x3fff_ffff_ffff_ffffu128),
    ;
}

/// Where the first `tried` numbered ids are all in use, there are no more of them than ids in
/// use.
proof fn lemma_tried(drawn: ConnectionId, tried: u128, used: Set<ConnectionId>)
    requires
        is_random_uuid(drawn),
        tried <= 0x1_0000_0000_0000_0000,
        forall|j: u128| j < tried ==> #[trigger] used.contains(numbered(drawn, j)),
    ensures
        tried <= used.len(),
{
    let numbers = set_int_range(0, tried as int);
    let number = |j: int| numbered(drawn, j as u128);
    let ids = numbers.map(number);
    lemma_int_range(0, tried as int);
    lemma_ids_are_finite(used);
    assert(injective_on(number, numbers)) by {
        assert forall|x: int, y: int|
            numbers.contains(x) && numbers.contains(y) && #[trigger] number(x) == #[trigger] number(
                y,
            ) implies x == y by {
            lemma_numbered(drawn, x as u128, y as u128);
        }
    }
    lemma_map_size(numbers, ids, number);
    assert(ids.subset_of(used));
    lemma_len_subset(ids, used);
}

/// Holds the shared state for the WebSocket service on a single server instance.
pub struct WsState {
    /// Maps a `ConnectionId` to its corresponding `WsSink`.
    /// This allows for sending messages to a specific client.
    connections: DashMap<ConnectionId, WsSink>,
    /// Maps a `Topic` to a set of `ConnectionId`s that are subscribed to it.
    /// This is the core of the pub/sub logic on a single node.
    subscriptions: DashMap<Topic, HashSet<ConnectionId>>,
}

impl View for WsState {
    type V = StateView;

    closed spec fn view(&self) -> StateView {
        StateView {
            connections: connection_table(self.connections),
            subscriptions: subscription_table(self.subscriptions),
        }
    }
}

impl Default for WsState {
    fn default() -> (state: Self)
        ensures
            state@ == StateView::empty(),
    {
        let state = WsState {
            connections: new_connection_table(),
            subscriptions: new_subscription_table(),
        };
        assert(state@ =~= StateView::empty());
        state
    }
}

impl WsState {
    /// Whether a connection has this id.
    pub fn is_connected(&self, conn_id: ConnectionId) -> (found: bool)
        ensures
            found == self@.connections.contains_key(conn_id),
    {
        get_connection(&self.connections, conn_id).is_some()
    }

    /// An id for a new connection: one that is drawn at random, unless that is in use; then it
    /// is counted on from there to one that is not.
    pub fn unused_id(&self) -> (conn_id: ConnectionId)
        ensures
            is_random_uuid(conn_id),
            !self@.connections.contains_key(conn_id),
    {
        let drawn: ConnectionId = random_id();
        if !self.is_connected(drawn) {
            return drawn;
        }
        let count: usize = self.connections_count();
        let ghost used = self@.connections.dom();
        let mut i: u128 = 0;
        let mut conn_id: ConnectionId = number_id(drawn, i);
        while self.is_connected(conn_id)
            invariant
                is_random_uuid(drawn),
                used == self@.connections.dom(),
                count == used.len(),
                i <= count,
                conn_id == numbered(drawn, i),
                forall|j: u128| j < i ==> #[trigger] used.contains(numbered(drawn, j)),
            decreases count - i,
        {
            proof {
                lemma_tried(drawn, (i + 1) as u128, used);
            }
            i = i + 1;
            conn_id = number_id(drawn, i);
        }
        proof {
            lemma_numbered(drawn, i, i);
        }
        conn_id
    }

    /// Enters a connection with its sink.
    pub fn register(&mut self, conn_id: ConnectionId, sink: WsSink)
        ensures
            final(self)@ == old(self)@.after_register(conn_id, sink),
    {
        insert_connection(&mut self.connections, conn_id, sink);
    }

    /// Subscribes a connection, and returns the command for the listener if it's the first
    /// on the node.
    pub fn subscribe(&mut self, conn_id: ConnectionId, topic: Topic) -> (command: Option<
        RedisCommand,
    >)
        ensures
            final(self)@ == old(self)@.after_subscribe(conn_id, topic@),
            command_view(command) == old(self)@.subscribe_command(topic@),
    {
        let mut subscribers = match remove_subscribers(&mut self.subscriptions, topic.as_str()) {
            Some(subscribers) => subscribers,
            None => HashSet::new(),
        };
        let is_first_subscriber_on_node = subscribers.is_empty();
        subscribers.insert(conn_id);
        insert_subscribers(&mut self.subscriptions, topic.clone(), subscribers);
        proof {
            assert(self@.subscriptions =~= old(self)@.after_subscribe(
                conn_id,
                topic@,
            ).subscriptions);
        }
        if is_first_subscriber_on_node {
            Some(RedisCommand::Subscribe(topic))
        } else {
            None
        }
    }

    /// Cleans up after a connection, and returns the command for the listener if it was the
    /// last on the node.
    pub fn disconnect(&mut self, conn_id: ConnectionId, topic: Topic) -> (command: Option<
        RedisCommand,
    >)
        ensures
            final(self)@ == old(self)@.after_disconnect(conn_id, topic@),
            command_view(command) == old(self)@.disconnect_command(conn_id, topic@),
    {
        remove_connection(&mut self.connections, conn_id);
        match remove_subscribers(&mut self.subscriptions, topic.as_str()) {
            Some(mut subscribers) => {
                subscribers.remove(&conn_id);
                if subscribers.is_empty() {
                    Some(RedisCommand::Unsubscribe(topic))
                } else {
                    insert_subscribers(&mut self.subscriptions, topic, subscribers);
                    assert(self@.subscriptions =~= old(self)@.after_disconnect(
                        conn_id,
                        topic@,
                    ).subscriptions);
                    None
                }
            },
            None => {
                assert(self@.subscriptions =~= old(self)@.subscriptions);
                None
            },
        }
    }

    /// The deliveries that bring a text to everybody who is subscribed to a topic and
    /// connected.
    pub fn fan_out(&self, topic: &str, text: &String) -> (deliveries: Vec<Delivery>)
        ensures
            is_fan_out(deliveries@, self@.recipients(topic@), text@),
    {
        let mut deliveries: Vec<Delivery> = Vec::new();
        let subscribers = match get_subscribers(&self.subscriptions, topic) {
            Some(subscribers) => subscribers,
            None => HashSet::new(),
        };
        assert(subscribers@ =~= self@.subscribers(topic@));
        for conn_id in walk: subscribers.iter()
            invariant
                subscribers@ == self@.subscribers(topic@),
                walk.seq().unref().to_set() == subscribers@,
                walk.seq().no_duplicates(),
                forall|i: int|
                    0 <= i < deliveries@.len() ==> {
                        &&& self@.recipients(topic@).contains_key(
                            (#[trigger] deliveries@[i]).conn_id,
                        )
                        &&& deliveries@[i].sink == self@.recipients(
                            topic@,
                        )[deliveries@[i].conn_id]
                        &&& deliveries@[i].text@ == text@
                        &&& exists|k: int|
                            0 <= k < walk.index() && *#[trigger] walk.seq()[k]
                                == deliveries@[i].conn_id
                    },
                forall|i: int, j: int|
                    0 <= i < j < deliveries@.len() ==> (#[trigger] deliveries@[i]).conn_id != (
                    #[trigger] deliveries@[j]).conn_id,
                forall|k: int|
                    0 <= k < walk.index() && self@.connections.contains_key(
                        *#[trigger] walk.seq()[k],
                    ) ==> exists|i: int|
                        0 <= i < deliveries@.len() && (#[trigger] deliveries@[i]).conn_id
                            == *walk.seq()[k],
        {
            let ghost before = deliveries@;
            if let Some(sink) = get_connection(&self.connections, *conn_id) {
                deliveries.push(Delivery { conn_id: *conn_id, sink, text: text.clone() });
                assert(deliveries@[before.len() as int].conn_id == *conn_id);
            }
            assert forall|k: int|
                0 <= k < walk.index() && self@.connections.contains_key(
                    *#[trigger] walk.seq()[k],
                ) implies exists|i: int|
                0 <= i < deliveries@.len() && (#[trigger] deliveries@[i]).conn_id
                    == *walk.seq()[k] by {
                let i = choose|i: int|
                    0 <= i < before.len() && (#[trigger] before[i]).conn_id == *walk.seq()[k];
                assert(deliveries@[i] == before[i]);
            }
        }
        deliveries
    }

    /// Every topic that somebody on this node is subscribed to, once.
    pub fn topics(&self) -> (topics: Vec<Topic>)
        ensures
            topics@.map_values(|topic: Topic| topic@).no_duplicates(),
            topics@.map_values(|topic: Topic| topic@).to_set() == self@.subscriptions.dom(),
    {
        subscribed_topics(&self.subscriptions)
    }

    /// How many connections there are.
    pub fn connections_count(&self) -> (count: usize)
        ensures
            count == self@.connections.dom().len(),
    {
        count_connections(&self.connections)
    }

    /// How many topics there are.
    pub fn subscriptions_count(&self) -> (count: usize)
        ensures
            count == self@.subscriptions.dom().len(),
    {
        count_topics(&self.subscriptions)
    }
}

} // verus!
