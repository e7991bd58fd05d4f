//! The primary `WebsocketService` that manages connections and state.
use std::sync::Arc;
use vstd::prelude::*;

use crate::foreign::is_random_uuid;
use crate::ws::handler::ConnectionContext;
use crate::ws::listener::{is_next, ListenerAction, ListenerEvent};
use crate::ws::types::{
    command_view, ConnectionId, RedisCommand, StateView, Topic, WsSink, WsState,
};

verus! {

/// How many commands can wait for the background Redis listener.
pub const COMMAND_CAPACITY: usize = 100;

/// The main service that manages WebSocket connections on one server instance.
///
/// `A` is the application's own state, which every connection is given.
pub struct WebsocketService<A> {
    state: WsState,
    app_state: Arc<A>,
}

/// A [`WebsocketService`] as a value: the connections and topics of the node, and the
/// application's state.
pub struct WebsocketView<A> {
    pub state: StateView,
    pub app_state: Arc<A>,
}

impl<A> View for WebsocketService<A> {
    type V = WebsocketView<A>;

    closed spec fn view(&self) -> WebsocketView<A> {
        WebsocketView { state: self.state@, app_state: self.app_state }
    }
}

impl<A> WebsocketView<A> {
    /// After a connection was entered.
    pub open spec fn after_connect(
        self,
        conn_id: ConnectionId,
        sink: WsSink,
        topic: Seq<char>,
    ) -> WebsocketView<A> {
        WebsocketView { state: self.state.after_connect(conn_id, sink, topic), ..self }
    }

    /// After a connection has ended.
    pub open spec fn after_disconnect(
        self,
        conn_id: ConnectionId,
        topic: Seq<char>,
    ) -> WebsocketView<A> {
        WebsocketView { state: self.state.after_disconnect(conn_id, topic), ..self }
    }
}

/// Whether `context` is that of the given connection.
pub open spec fn is_context<A, U>(
    context: ConnectionContext<A, U>,
    conn_id: ConnectionId,
    user_id: U,
    topic: Seq<char>,
    app_state: Arc<A>,
    sink: WsSink,
) -> bool {
    &&& context.conn_id == conn_id
    &&& context.user_id == user_id
    &&& context.topic@ == topic
    &&& context.app_state == app_state
    &&& context.sink == sink
}

impl<A> WebsocketService<A> {
    /// Creates a new `WebsocketService` without any connection.
    pub fn new(app_state: Arc<A>) -> (service: Self)
        ensures
            service@ == (WebsocketView { state: StateView::empty(), app_state }),
    {
        WebsocketService { state: WsState::default(), app_state }
    }

    /// The application's state.
    pub fn app_state(&self) -> (app_state: Arc<A>)
        ensures
            app_state == self@.app_state,
    {
        Arc::clone(&self.app_state)
    }

    /// Enters a new connection under an id that is drawn at random and not in use: see
    /// [`WebsocketService::connect`].
    pub fn handle_connection<U>(&mut self, sink: WsSink, topic: Topic, user_id: U) -> (connected: (
        ConnectionContext<A, U>,
        Option<RedisCommand>,
    ))
        ensures
            is_random_uuid(connected.0.conn_id),
            !old(self)@.state.connections.contains_key(connected.0.conn_id),
            is_context(
                connected.0,
                connected.0.conn_id,
                user_id,
                topic@,
                old(self)@.app_state,
                sink,
            ),
            final(self)@ == old(self)@.after_connect(connected.0.conn_id, sink, topic@),
            command_view(connected.1) == old(self)@.state.subscribe_command(topic@),
    {
        let conn_id: ConnectionId = self.state.unused_id();
        self.connect(conn_id, sink, topic, user_id)
    }

    /// Enters a new connection: its sink is kept and the connection subscribed to its topic.
    /// Returns what the handlers of the connection are given, and the command for the
    /// listener where it's the first subscriber of its topic on the node.
    pub fn connect<U>(
        &mut self,
        conn_id: ConnectionId,
        sink: WsSink,
        topic: Topic,
        user_id: U,
    ) -> (connected: (ConnectionContext<A, U>, Option<RedisCommand>))
        ensures
            is_context(connected.0, conn_id, user_id, topic@, old(self)@.app_state, sink),
            final(self)@ == old(self)@.after_connect(conn_id, sink, topic@),
            command_view(connected.1) == old(self)@.state.subscribe_command(topic@),
    {
        self.state.register(conn_id, sink);
        let command = self.state.subscribe(conn_id, topic.clone());
        let context = ConnectionContext {
            conn_id,
            user_id,
            topic,
            app_state: Arc::clone(&self.app_state),
            sink,
        };
        (context, command)
    }

    /// Cleans up on disconnect, and returns the command for the listener if it's the last on
    /// the node.
    pub fn on_disconnect<U>(&mut self, context: ConnectionContext<A, U>) -> (command: Option<
        RedisCommand,
    >)
        ensures
            final(self)@ == old(self)@.after_disconnect(context.conn_id, context.topic@),
            command_view(command) == old(self)@.state.disconnect_command(
                context.conn_id,
                context.topic@,
            ),
    {
        self.state.disconnect(context.conn_id, context.topic)
    }

    /// What the background Redis listener does after `event`.
    pub fn run_redis_listener(&self, event: ListenerEvent) -> (action: ListenerAction)
        ensures
            is_next(self@.state, event, action),
    {
        crate::ws::listener::run_redis_listener(&self.state, event)
    }

    /// How many connections there are.
    pub fn connections_count(&self) -> (count: usize)
        ensures
            count == self@.state.connections.dom().len(),
    {
        self.state.connections_count()
    }

    /// How many topics there are.
    pub fn subscriptions_count(&self) -> (count: usize)
        ensures
            count == self@.state.subscriptions.dom().len(),
    {
        self.state.subscriptions_count()
    }
}

} // verus!
