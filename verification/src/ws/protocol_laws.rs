//! What holds over a whole run: of the frames of a client, of the handling of a message, of
//! the publishing of an event, and of the Redis listener.
use vstd::prelude::*;

use crate::ws::handler::HandlerError;
use crate::ws::listener::{
    are_topics_of, heard, is_next, leads_to, ListenerAction, ListenerEvent, Polled,
};
use crate::ws::routing::{
    error_response, frame_action, is_publication, is_route, parsed_action, tells, ClientFrame,
    FrameAction, ParsedView, PublishAction, PublishStep, RouteAction, RouteStep,
};
use crate::ws::types::{is_fan_out, RedisCommand, StateView, Topic, WsSink};

verus! {

/// What the receiver of one client has done: what it decided about each text, in order, and
/// how often it has ended the connection.
pub struct SessionView<M> {
    pub decisions: Seq<ParsedView<M>>,
    pub disconnects: nat,
}

/// What the receiver of the client with this sink does about a stream of frames, the first
/// one first, where `parse` says what becomes of a text. It stops at the first frame that
/// ends the connection.
pub open spec fn session<M, X>(
    sink: WsSink,
    parse: spec_fn(Seq<char>) -> Result<M, X>,
    frames: Seq<ClientFrame>,
) -> SessionView<M>
    decreases frames.len(),
{
    if frames.len() == 0 {
        SessionView { decisions: Seq::empty(), disconnects: 0 }
    } else {
        let rest = session(sink, parse, frames.drop_first());
        match frame_action(frames[0]) {
            FrameAction::Parse(text) => SessionView {
                decisions: seq![parsed_action(sink, parse(text@))] + rest.decisions,
                ..rest
            },
            FrameAction::Ignore => rest,
            FrameAction::Disconnect => SessionView { decisions: Seq::empty(), disconnects: 1 },
        }
    }
}

/// The texts among `frames`, in order.
pub open spec fn texts(frames: Seq<ClientFrame>) -> Seq<Seq<char>>
    decreases frames.len(),
{
    if frames.len() == 0 {
        Seq::empty()
    } else {
        match frames[0] {
            ClientFrame::Text(text) => seq![text@] + texts(frames.drop_first()),
            _ => texts(frames.drop_first()),
        }
    }
}

/// Whether a frame is a close frame or the end of the stream.
pub open spec fn is_last_frame(frame: ClientFrame) -> bool {
    frame is Close || frame is Ended
}

/// The receiver decides on exactly the texts before the first close frame or the end of the
/// stream, each once and in order: those that parse are routed, and each of the others is
/// answered with one error on the client's sink. Then it ends the connection, once, and what
/// may follow is not looked at.
pub proof fn law_receiver_decides_on_texts_until_the_end<M, X>(
    sink: WsSink,
    parse: spec_fn(Seq<char>) -> Result<M, X>,
    frames: Seq<ClientFrame>,
    end: int,
)
    requires
        0 <= end < frames.len(),
        is_last_frame(frames[end]),
        forall|i: int| 0 <= i < end ==> !is_last_frame(#[trigger] frames[i]),
    ensures
        session(sink, parse, frames).decisions == texts(frames.take(end)).map_values(
            |text: Seq<char>| parsed_action(sink, parse(text)),
        ),
        session(sink, parse, frames).disconnects == 1,
    decreases end,
{
    let decide = |text: Seq<char>| parsed_action(sink, parse(text));
    if end > 0 {
        let rest = frames.drop_first();
        assert(!is_last_frame(frames[0]));
        assert forall|i: int| 0 <= i < end - 1 implies !is_last_frame(#[trigger] rest[i]) by {
            assert(rest[i] == frames[i + 1]);
        }
        law_receiver_decides_on_texts_until_the_end(sink, parse, rest, end - 1);
        let before = frames.take(end);
        assert(before.drop_first() =~= rest.take(end - 1));
        assert(before[0] == frames[0]);
        match frames[0] {
            ClientFrame::Text(text) => {
                assert(texts(before) == seq![text@] + texts(rest.take(end - 1)));
                assert(texts(before).map_values(decide) =~= seq![decide(text@)] + texts(
                    rest.take(end - 1),
                ).map_values(decide));
            },
            _ => {
                assert(texts(before) == texts(rest.take(end - 1)));
            },
        }
        assert(session(sink, parse, frames).decisions =~= texts(before).map_values(decide));
    } else {
        assert(frames.take(0) =~= Seq::<ClientFrame>::empty());
        assert(session(sink, parse, frames).decisions =~= texts(frames.take(0)).map_values(decide));
    }
}

/// Whether `step` is what `action` leads to in the handling of a message.
pub open spec fn goes_on<V, E>(action: RouteAction<V, E>, step: RouteStep<V, E>) -> bool {
    match action {
        RouteAction::TryBroadcast => step is Broadcast,
        RouteAction::Publish(_, _) => step is Publish,
        _ => false,
    }
}

/// Whether a message from the client with this sink and this topic was handled in these
/// steps, each with the action that followed.
pub open spec fn is_handling<V, E>(
    sink: WsSink,
    topic: Seq<char>,
    steps: Seq<RouteStep<V, E>>,
    actions: Seq<RouteAction<V, E>>,
) -> bool {
    &&& 0 < steps.len() == actions.len()
    &&& steps[0] is Direct
    &&& forall|i: int|
        0 <= i < steps.len() ==> is_route(sink, topic, #[trigger] steps[i], #[trigger] actions[i])
    &&& forall|i: int, j: int|
        0 <= i && j == i + 1 && j < steps.len() ==> goes_on(
            #[trigger] actions[i],
            #[trigger] steps[j],
        )
}

/// A message is dealt with after three steps at most, and the client is answered at most
/// once, at the end.
pub proof fn law_client_is_answered_at_most_once<V, E>(
    sink: WsSink,
    topic: Seq<char>,
    steps: Seq<RouteStep<V, E>>,
    actions: Seq<RouteAction<V, E>>,
)
    requires
        is_handling(sink, topic, steps, actions),
    ensures
        steps.len() <= 3,
        forall|i: int|
            0 <= i < actions.len() && (#[trigger] actions[i] is Respond || actions[i] is SendError)
                ==> i == actions.len() - 1,
{
    if steps.len() > 1 {
        assert(goes_on(actions[0], steps[1]));
        assert(is_route(sink, topic, steps[0], actions[0]));
        assert(is_route(sink, topic, steps[1], actions[1]));
    }
    if steps.len() > 2 {
        assert(goes_on(actions[1], steps[2]));
        assert(is_route(sink, topic, steps[2], actions[2]));
    }
    if steps.len() > 3 {
        assert(goes_on(actions[2], steps[3]));
    }
    assert forall|i: int|
        0 <= i < actions.len() && (#[trigger] actions[i] is Respond || actions[i]
            is SendError) implies i == actions.len() - 1 by {
        if i < actions.len() - 1 {
            assert(goes_on(actions[i], steps[i + 1]));
        }
    }
}

/// Whatever a message leads to concerns the client that sent it: every answer goes to the
/// client's own sink, and every event to the client's own topic.
pub proof fn law_message_stays_with_its_client<V, E>(
    sink: WsSink,
    topic: Seq<char>,
    steps: Seq<RouteStep<V, E>>,
    actions: Seq<RouteAction<V, E>>,
)
    requires
        is_handling(sink, topic, steps, actions),
    ensures
        forall|i: int|
            0 <= i < actions.len() ==> match #[trigger] actions[i] {
                RouteAction::Respond(to, _) => to == sink,
                RouteAction::SendError(to, _) => to == sink,
                RouteAction::Publish(on, _) => on@ == topic,
                _ => true,
            },
{
    assert forall|i: int| 0 <= i < actions.len() implies match #[trigger] actions[i] {
        RouteAction::Respond(to, _) => to == sink,
        RouteAction::SendError(to, _) => to == sink,
        RouteAction::Publish(on, _) => on@ == topic,
        _ => true,
    } by {
        assert(is_route(sink, topic, steps[i], actions[i]));
    }
}

/// A message that the handler for direct messages answers or refuses is not broadcast.
pub proof fn law_direct_answer_is_not_broadcast<V, E>(
    sink: WsSink,
    topic: Seq<char>,
    steps: Seq<RouteStep<V, E>>,
    actions: Seq<RouteAction<V, E>>,
)
    requires
        is_handling(sink, topic, steps, actions),
        steps[0] != RouteStep::<V, E>::Direct(Ok(None)),
    ensures
        steps.len() == 1,
        actions[0] is Respond || actions[0] is SendError,
{
    assert(is_route(sink, topic, steps[0], actions[0]));
    if steps.len() > 1 {
        assert(goes_on(actions[0], steps[1]));
    }
}

/// Whatever is refused or fails is answered with an error, and nothing else is: a handler's
/// error with what it tells, and a broadcast that failed with a text of its own.
pub proof fn law_refusals_are_answered<V, E>(
    sink: WsSink,
    topic: Seq<char>,
    step: RouteStep<V, E>,
    action: RouteAction<V, E>,
)
    requires
        is_route(sink, topic, step, action),
    ensures
        action is SendError <==> match step {
            RouteStep::Direct(result) => result is Err,
            RouteStep::Broadcast(result) => result is Err,
            RouteStep::Publish(result) => result is Err,
        },
        forall|error: HandlerError|
            step == RouteStep::<V, E>::Direct(Err(error)) || step == RouteStep::<
                V,
                E,
            >::Broadcast(Err(error)) ==> #[trigger] tells(action->SendError_1@, error),
        step matches RouteStep::Publish(Err(_)) ==> action->SendError_1@ == error_response(
            "Failed to broadcast event"@,
        ),
{
}

/// Whether `step` is what `action` leads to in the publishing of an event; the text that was
/// handed out for a connection comes back with it.
pub open spec fn publishing_goes_on(action: PublishAction, step: PublishStep) -> bool {
    match action {
        PublishAction::Connect(text) => step matches PublishStep::Connected(_, kept) && kept@
            == text@,
        PublishAction::Send(_, _) => step is Published,
        _ => false,
    }
}

/// Whether an event was published on a topic in these steps, each with the action that
/// followed.
pub open spec fn is_publishing(
    topic: Seq<char>,
    steps: Seq<PublishStep>,
    actions: Seq<PublishAction>,
) -> bool {
    &&& 0 < steps.len() == actions.len()
    &&& steps[0] is Serialized
    &&& forall|i: int|
        0 <= i < steps.len() ==> is_publication(topic, #[trigger] steps[i], #[trigger] actions[i])
    &&& forall|i: int, j: int|
        0 <= i && j == i + 1 && j < steps.len() ==> publishing_goes_on(
            #[trigger] actions[i],
            #[trigger] steps[j],
        )
}

/// What is sent is the text of the event, on its own topic, and it is sent once at most, as
/// the second action of three. Nothing follows a failure, so that nothing is sent after one.
pub proof fn law_event_is_sent_as_serialized(
    topic: Seq<char>,
    steps: Seq<PublishStep>,
    actions: Seq<PublishAction>,
)
    requires
        is_publishing(topic, steps, actions),
    ensures
        steps.len() <= 3,
        forall|i: int|
            0 <= i < actions.len() ==> match #[trigger] actions[i] {
                PublishAction::Send(on, text) => i == 1 && on@ == topic && (
                steps[0] matches PublishStep::Serialized(Ok(serialized)) && serialized@ == text@),
                PublishAction::Fail(_) => i == actions.len() - 1,
                PublishAction::Succeed => i == 2 && actions[1] is Send,
                PublishAction::Connect(_) => i == 0,
            },
{
    assert(is_publication(topic, steps[0], actions[0]));
    if steps.len() > 1 {
        assert(publishing_goes_on(actions[0], steps[1]));
        assert(is_publication(topic, steps[1], actions[1]));
    }
    if steps.len() > 2 {
        assert(publishing_goes_on(actions[1], steps[2]));
        assert(is_publication(topic, steps[2], actions[2]));
    }
    if steps.len() > 3 {
        assert(publishing_goes_on(actions[2], steps[3]));
    }
}

/// After it has connected, the listener does not listen before it has subscribed to every
/// topic of the node.
pub proof fn law_listener_resubscribes_first(state: StateView, action: ListenerAction)
    requires
        is_next(state, ListenerEvent::Connected(true), action),
        state.subscriptions.dom() != Set::<Seq<char>>::empty(),
    ensures
        action matches ListenerAction::Resubscribe(topics) && are_topics_of(topics@, state),
{
}

/// Whatever fails, the next connection is tried at once or after the wait for which the
/// listener is asked.
pub proof fn law_listener_recovers(
    state: StateView,
    event: ListenerEvent,
    action: ListenerAction,
    later: StateView,
    next: ListenerAction,
)
    requires
        event == ListenerEvent::Connected(false) || event == ListenerEvent::Resubscribed(false)
            || event == ListenerEvent::Applied(false),
        is_next(state, event, action),
        is_next(later, ListenerEvent::Waited, next),
    ensures
        action is Connect || (action is Wait && leads_to(action, ListenerEvent::Waited)
            && next is Connect),
{
}

/// Whether the listener went through these events: it starts by connecting, each event is
/// one that the action before it can lead to, and each action is what follows the event
/// before it in the state that the node had then.
pub open spec fn is_listening(
    states: Seq<StateView>,
    events: Seq<ListenerEvent>,
    actions: Seq<ListenerAction>,
) -> bool {
    &&& states.len() == events.len()
    &&& actions.len() == events.len() + 1
    &&& actions[0] is Connect
    &&& forall|i: int|
        0 <= i < events.len() ==> leads_to(#[trigger] actions[i], #[trigger] events[i])
    &&& forall|i: int, j: int|
        0 <= i < events.len() && j == i + 1 ==> is_next(
            states[i],
            #[trigger] events[i],
            #[trigger] actions[j],
        )
}

/// A run without its last event is a run, and its last event and action are what the relation
/// between them says.
pub(crate) proof fn lemma_listening_before(
    states: Seq<StateView>,
    events: Seq<ListenerEvent>,
    actions: Seq<ListenerAction>,
)
    requires
        is_listening(states, events, actions),
        events.len() > 0,
    ensures
        is_listening(states.drop_last(), events.drop_last(), actions.drop_last()),
        leads_to(actions.drop_last().last(), events.last()),
        is_next(states.last(), events.last(), actions.last()),
{
    let n = events.len() - 1;
    let before = actions.drop_last();
    assert(before[0] == actions[0]);
    assert forall|i: int| 0 <= i < n implies leads_to(
        #[trigger] before[i],
        #[trigger] events.drop_last()[i],
    ) by {
        assert(leads_to(actions[i], events[i]));
    }
    assert forall|i: int, j: int| 0 <= i < n && j == i + 1 implies is_next(
        states.drop_last()[i],
        #[trigger] events.drop_last()[i],
        #[trigger] before[j],
    ) by {
        assert(is_next(states[i], events[i], actions[j]));
    }
    assert(leads_to(actions[n], events[n]));
    assert(is_next(states[n], events[n], actions[n + 1]));
}

/// The commands among `events`, in order.
pub open spec fn commands_received(events: Seq<ListenerEvent>) -> Seq<RedisCommand>
    decreases events.len(),
{
    if events.len() == 0 {
        Seq::empty()
    } else {
        match events.last() {
            ListenerEvent::Command(command) => commands_received(events.drop_last()).push(command),
            _ => commands_received(events.drop_last()),
        }
    }
}

/// The commands that `actions` carry out, in order.
pub open spec fn commands_applied(actions: Seq<ListenerAction>) -> Seq<RedisCommand>
    decreases actions.len(),
{
    if actions.len() == 0 {
        Seq::empty()
    } else {
        match actions.last() {
            ListenerAction::Apply(command) => commands_applied(actions.drop_last()).push(command),
            _ => commands_applied(actions.drop_last()),
        }
    }
}

/// Over any run, the listener carries out exactly the commands that it received, each once
/// and in order.
pub proof fn law_commands_are_applied_once_in_order(
    states: Seq<StateView>,
    events: Seq<ListenerEvent>,
    actions: Seq<ListenerAction>,
)
    requires
        is_listening(states, events, actions),
    ensures
        commands_applied(actions) == commands_received(events),
    decreases events.len(),
{
    reveal_with_fuel(commands_applied, 2);
    let before = actions.drop_last();
    if events.len() == 0 {
        assert(before =~= Seq::<ListenerAction>::empty());
        assert(actions.last() == actions[0]);
    } else {
        let n = events.len() - 1;
        assert(is_next(states[n], events[n], actions[n + 1]));
        lemma_listening_before(states, events, actions);
        law_commands_are_applied_once_in_order(states.drop_last(), events.drop_last(), before);
    }
}

/// Whether `action` hands out the message in `event`, if there is one, to everybody who is
/// subscribed to its topic in `state`, and hands out nothing otherwise.
pub open spec fn is_delivery(
    state: StateView,
    event: ListenerEvent,
    action: ListenerAction,
) -> bool {
    match event {
        ListenerEvent::Message(topic, Some(payload)) => {
            action matches ListenerAction::Deliver(deliveries) && is_fan_out(
                deliveries@,
                state.recipients(topic@),
                payload@,
            )
        },
        _ => !(action is Deliver),
    }
}

/// Over any run, each message with a text is handed out once, directly after it came, to
/// everybody who was subscribed to its topic then; and nothing is handed out without a
/// message.
pub proof fn law_messages_are_delivered_once_in_order(
    states: Seq<StateView>,
    events: Seq<ListenerEvent>,
    actions: Seq<ListenerAction>,
)
    requires
        is_listening(states, events, actions),
    ensures
        !(actions[0] is Deliver),
        forall|i: int, j: int|
            0 <= i < events.len() && j == i + 1 ==> is_delivery(
                states[i],
                #[trigger] events[i],
                #[trigger] actions[j],
            ),
{
    assert forall|i: int, j: int| 0 <= i < events.len() && j == i + 1 implies is_delivery(
        states[i],
        #[trigger] events[i],
        #[trigger] actions[j],
    ) by {
        assert(is_next(states[i], events[i], actions[j]));
    }
}

/// Over any run, the listener stops only at the end of it, and only because neither a
/// command nor a message could come any more.
pub proof fn law_listener_stops_only_when_closed(
    states: Seq<StateView>,
    events: Seq<ListenerEvent>,
    actions: Seq<ListenerAction>,
    stop: int,
)
    requires
        is_listening(states, events, actions),
        0 <= stop < actions.len(),
        actions[stop] is Stop,
    ensures
        stop == events.len(),
        events.len() > 0,
        events.last() is Closed,
{
    if stop < events.len() {
        assert(leads_to(actions[stop], events[stop]));
    }
    assert(is_next(states[stop - 1], events[stop - 1], actions[stop]));
}

/// What waits for the listener: the commands and the messages that are there, in the order
/// in which they came, and whether no more of them can come.
pub struct InboxView {
    pub commands: Seq<RedisCommand>,
    pub messages: Seq<(Topic, Option<String>)>,
    pub commands_closed: bool,
    pub messages_ended: bool,
}

/// What a channel has, given what waits in it and whether it is closed.
pub open spec fn polled<T>(waiting: Seq<T>, closed: bool) -> Polled<T> {
    if waiting.len() > 0 {
        Polled::Ready(waiting[0])
    } else if closed {
        Polled::Ended
    } else {
        Polled::Pending
    }
}

impl InboxView {
    /// What the listener hears next.
    pub open spec fn next(self) -> Option<ListenerEvent> {
        heard(
            polled(self.commands, self.commands_closed),
            polled(self.messages, self.messages_ended),
        )
    }

    /// After a command or a message was taken.
    pub open spec fn after(self, event: ListenerEvent) -> InboxView {
        match event {
            ListenerEvent::Command(_) => InboxView {
                commands: self.commands.drop_first(),
                ..self
            },
            ListenerEvent::Message(_, _) => InboxView {
                messages: self.messages.drop_first(),
                ..self
            },
            _ => self,
        }
    }
}

/// What waits is heard before the listener waits itself, commands before messages; and the
/// end is heard where nothing waits and neither a command nor a message can come any more,
/// and only there.
pub proof fn law_waiting_command_comes_first(inbox: InboxView)
    ensures
        inbox.commands.len() > 0 ==> inbox.next() == Some(ListenerEvent::Command(inbox.commands[0])),
        inbox.commands.len() == 0 && inbox.messages.len() > 0 ==> inbox.next() == Some(
            ListenerEvent::Message(inbox.messages[0].0, inbox.messages[0].1),
        ),
        inbox.next() == Some(ListenerEvent::Closed) <==> inbox.commands.len() == 0
            && inbox.messages.len() == 0 && inbox.commands_closed && inbox.messages_ended,
{
}

/// All the parts in one sequence.
pub open spec fn joined<T>(parts: Seq<Seq<T>>) -> Seq<T>
    decreases parts.len(),
{
    if parts.len() == 0 {
        Seq::empty()
    } else {
        joined(parts.drop_last()) + parts.last()
    }
}

/// Whether the listener heard what waited for it: `inboxes[i]` is what waited when `events[i]`
/// came about, and `commands[i]` and `messages[i]` came in after that. With a new connection
/// the messages that waited on the one before are gone; nothing is sent to a closed channel.
pub open spec fn is_served(
    inboxes: Seq<InboxView>,
    commands: Seq<Seq<RedisCommand>>,
    messages: Seq<Seq<(Topic, Option<String>)>>,
    events: Seq<ListenerEvent>,
) -> bool {
    &&& inboxes.len() == events.len() + 1
    &&& commands.len() == events.len()
    &&& messages.len() == events.len()
    &&& forall|i: int|
        0 <= i < events.len() && (events[i] is Command || events[i] is Message || events[i]
            is Closed) ==> (#[trigger] inboxes[i]).next() == Some(#[trigger] events[i])
    &&& forall|i: int, j: int|
        0 <= i < events.len() && j == i + 1 ==> is_filled(
            #[trigger] inboxes[i],
            events[i],
            commands[i],
            messages[i],
            #[trigger] inboxes[j],
        )
}

/// Whether `after` is what waits once `event` has come about with `before` waiting, and these
/// commands and messages have come in.
pub open spec fn is_filled(
    before: InboxView,
    event: ListenerEvent,
    commands: Seq<RedisCommand>,
    messages: Seq<(Topic, Option<String>)>,
    after: InboxView,
) -> bool {
    &&& after.commands == before.after(event).commands + commands
    &&& before.commands_closed ==> after.commands_closed && commands.len() == 0
    &&& after.messages == if event is Connected {
        messages
    } else {
        before.after(event).messages + messages
    }
}

/// Over any run, what the listener has carried out and what still waits are together the
/// commands that were sent, in the order in which they were sent: none is lost, none is
/// carried out twice, and none before an earlier one.
pub proof fn law_commands_are_applied_as_sent(
    states: Seq<StateView>,
    inboxes: Seq<InboxView>,
    commands: Seq<Seq<RedisCommand>>,
    messages: Seq<Seq<(Topic, Option<String>)>>,
    events: Seq<ListenerEvent>,
    actions: Seq<ListenerAction>,
)
    requires
        is_listening(states, events, actions),
        is_served(inboxes, commands, messages, events),
    ensures
        commands_applied(actions) + inboxes.last().commands == inboxes[0].commands + joined(
            commands,
        ),
{
    law_commands_are_applied_once_in_order(states, events, actions);
    lemma_commands_are_received_as_sent(inboxes, commands, messages, events);
}

/// What was received and what still waits are together the commands that were sent.
proof fn lemma_commands_are_received_as_sent(
    inboxes: Seq<InboxView>,
    commands: Seq<Seq<RedisCommand>>,
    messages: Seq<Seq<(Topic, Option<String>)>>,
    events: Seq<ListenerEvent>,
)
    requires
        is_served(inboxes, commands, messages, events),
    ensures
        commands_received(events) + inboxes.last().commands == inboxes[0].commands + joined(
            commands,
        ),
    decreases events.len(),
{
    if events.len() > 0 {
        let n = events.len() - 1;
        lemma_served_before(inboxes, commands, messages, events);
        lemma_commands_are_received_as_sent(
            inboxes.drop_last(),
            commands.drop_last(),
            messages.drop_last(),
            events.drop_last(),
        );
        assert(is_filled(inboxes[n], events[n], commands[n], messages[n], inboxes[n + 1]));
        assert(inboxes.drop_last().last() == inboxes[n]);
        if events[n] is Command {
            assert(inboxes[n].next() == Some(events[n]));
        }
        assert(commands_received(events) + inboxes.last().commands =~= commands_received(
            events.drop_last(),
        ) + inboxes[n].commands + commands[n]);
        assert(inboxes[0].commands + joined(commands) =~= inboxes[0].commands + joined(
            commands.drop_last(),
        ) + commands[n]);
    } else {
        assert(commands_received(events) + inboxes.last().commands =~= inboxes[0].commands + joined(
            commands,
        ));
    }
}

/// A run without its last event is a run.
proof fn lemma_served_before(
    inboxes: Seq<InboxView>,
    commands: Seq<Seq<RedisCommand>>,
    messages: Seq<Seq<(Topic, Option<String>)>>,
    events: Seq<ListenerEvent>,
)
    requires
        is_served(inboxes, commands, messages, events),
        events.len() > 0,
    ensures
        is_served(
            inboxes.drop_last(),
            commands.drop_last(),
            messages.drop_last(),
            events.drop_last(),
        ),
{
    let n = events.len() - 1;
    assert forall|i: int|
        0 <= i < n && (events.drop_last()[i] is Command || events.drop_last()[i] is Message
            || events.drop_last()[i] is Closed) implies (#[trigger] inboxes.drop_last()[i]).next()
        == Some(#[trigger] events.drop_last()[i]) by {
        assert(inboxes[i].next() == Some(events[i]));
    }
    assert forall|i: int, j: int| 0 <= i < n && j == i + 1 implies is_filled(
        #[trigger] inboxes.drop_last()[i],
        events.drop_last()[i],
        commands.drop_last()[i],
        messages.drop_last()[i],
        #[trigger] inboxes.drop_last()[j],
    ) by {
        assert(is_filled(inboxes[i], events[i], commands[i], messages[i], inboxes[j]));
    }
}

/// The messages among `events`, in order.
pub open spec fn messages_received(events: Seq<ListenerEvent>) -> Seq<(Topic, Option<String>)>
    decreases events.len(),
{
    if events.len() == 0 {
        Seq::empty()
    } else {
        match events.last() {
            ListenerEvent::Message(topic, payload) => messages_received(events.drop_last()).push(
                (topic, payload),
            ),
            _ => messages_received(events.drop_last()),
        }
    }
}

/// On one connection, the messages that the listener has heard and those that still wait are
/// together the messages that came, in the order in which they came.
pub proof fn law_messages_are_heard_as_they_came(
    inboxes: Seq<InboxView>,
    commands: Seq<Seq<RedisCommand>>,
    messages: Seq<Seq<(Topic, Option<String>)>>,
    events: Seq<ListenerEvent>,
)
    requires
        is_served(inboxes, commands, messages, events),
        forall|i: int| 0 <= i < events.len() ==> !(#[trigger] events[i] is Connected),
    ensures
        messages_received(events) + inboxes.last().messages == inboxes[0].messages + joined(
            messages,
        ),
    decreases events.len(),
{
    if events.len() > 0 {
        let n = events.len() - 1;
        lemma_served_before(inboxes, commands, messages, events);
        assert forall|i: int| 0 <= i < n implies !(#[trigger] events.drop_last()[i]
            is Connected) by {
            assert(events.drop_last()[i] == events[i]);
        }
        law_messages_are_heard_as_they_came(
            inboxes.drop_last(),
            commands.drop_last(),
            messages.drop_last(),
            events.drop_last(),
        );
        assert(is_filled(inboxes[n], events[n], commands[n], messages[n], inboxes[n + 1]));
        assert(inboxes.drop_last().last() == inboxes[n]);
        if events[n] is Message {
            assert(inboxes[n].next() == Some(events[n]));
        }
        assert(messages_received(events) + inboxes.last().messages =~= messages_received(
            events.drop_last(),
        ) + inboxes[n].messages + messages[n]);
        assert(inboxes[0].messages + joined(messages) =~= inboxes[0].messages + joined(
            messages.drop_last(),
        ) + messages[n]);
    } else {
        assert(messages_received(events) + inboxes.last().messages =~= inboxes[0].messages + joined(
            messages,
        ));
    }
}

/// When the listener stops, the channel of commands is closed, every command that was ever
/// sent has been carried out, the stream of messages has ended, and no message waits.
pub proof fn law_listener_stops_when_all_is_done(
    states: Seq<StateView>,
    inboxes: Seq<InboxView>,
    commands: Seq<Seq<RedisCommand>>,
    messages: Seq<Seq<(Topic, Option<String>)>>,
    events: Seq<ListenerEvent>,
    actions: Seq<ListenerAction>,
)
    requires
        is_listening(states, events, actions),
        is_served(inboxes, commands, messages, events),
        actions.last() is Stop,
    ensures
        events.len() > 0,
        inboxes[events.len() - 1].commands_closed,
        inboxes[events.len() - 1].messages_ended,
        inboxes[events.len() - 1].messages.len() == 0,
        commands_applied(actions) == inboxes[0].commands + joined(commands),
{
    let n = events.len() - 1;
    law_listener_stops_only_when_closed(states, events, actions, actions.len() - 1);
    law_commands_are_applied_as_sent(states, inboxes, commands, messages, events, actions);
    law_waiting_command_comes_first(inboxes[n]);
    assert(inboxes[n].next() == Some(events[n]));
    assert(is_filled(inboxes[n], events[n], commands[n], messages[n], inboxes[n + 1]));
    assert(inboxes.last().commands =~= Seq::<RedisCommand>::empty());
    assert(commands_applied(actions) + inboxes.last().commands =~= commands_applied(actions));
}

} // verus!
