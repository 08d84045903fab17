//! The application runtime: one component, one event channel, one message
//! queue, and a fixed-cadence tick that drains both and renders.
//!
//! The host (an unverified shell around this library) owns the terminal and
//! the timers: it captures raw input on a background task, sends the decoded
//! events into the channel, calls [`App::tick`] once per cadence tick, draws
//! the lines a [`TickOutcome::Render`] hands back, and on
//! [`TickOutcome::Quit`] cancels the input task, calls [`App::shutdown`] and
//! restores the terminal. Everything the runtime decides in between is
//! verified here.

use crate::component::Component;
use crate::component::Rect;
use crate::event::Event;
use crate::message::Message;
use crate::message::MessageQueue;
use crate::message::offer_all;
use vstd::prelude::*;

verus! {

/// How many control messages the message queue holds at most. A tuning knob:
/// it bounds memory, not behaviour.
pub const MESSAGE_CAPACITY: usize = 100;

/// How many events one drain pass takes at most; comfortably above what the
/// bounded event channel can hold at one instant.
pub const EVENT_DRAIN_LIMIT: usize = 1024;

/// Where a run stands: ticking (`Running`), told to quit and discarding
/// in-flight input (`Draining`), or finished (`Stopped`). Once `Stopped`,
/// nothing runs again; the host then restores the terminal.
#[derive(Clone, Copy, Debug, PartialEq, Eq, Structural)]
pub enum Phase {
    Running,
    Draining,
    Stopped,
}

/// What one cadence tick asks of the host: draw these lines, or stop the run.
#[derive(Debug)]
pub enum TickOutcome {
    Render(Vec<String>),
    Quit,
}

/// The phase changes the runtime's functions can make: a tick keeps running
/// or starts draining, and a shutdown stops a draining run. No step leaves
/// `Stopped`.
pub open spec fn phase_step_ok(before: Phase, after: Phase) -> bool {
    ||| (before == Phase::Running && (after == Phase::Running || after == Phase::Draining))
    ||| (before == Phase::Draining && after == Phase::Stopped)
}

/// The terminal dimensions after one event: a resize replaces them, every
/// other event leaves them.
pub open spec fn area_after(area: Rect, event: Event) -> Rect {
    match event {
        Event::Resize(width, height) => Rect { x: 0, y: 0, width, height },
        _ => area,
    }
}

/// Component state, message queue and terminal dimensions after dispatching a
/// batch of events in order: each event goes to the component exactly once,
/// first received first, and the messages it emits are offered to the queue
/// before the next event is dispatched.
pub open spec fn events_step<C: Component>(
    component: C,
    queue: Seq<Message>,
    capacity: int,
    area: Rect,
    events: Seq<Event>,
) -> (C, Seq<Message>, Rect)
    decreases events.len(),
{
    if events.len() == 0 {
        (component, queue, area)
    } else {
        let event = events[0];
        events_step(
            component.next_spec(event),
            offer_all(queue, capacity, component.emits_spec(event)),
            capacity,
            area_after(area, event),
            events.drop_first(),
        )
    }
}

/// Component state and shutdown flag after draining a batch of messages in
/// order: `Quit` raises the flag and is not forwarded, every other message is
/// forwarded to the component. Draining goes on after a `Quit`, so messages
/// behind it in the same pass are still delivered.
pub open spec fn messages_step<C: Component>(
    component: C,
    quit: bool,
    messages: Seq<Message>,
) -> (C, bool)
    decreases messages.len(),
{
    if messages.len() == 0 {
        (component, quit)
    } else {
        match messages[0] {
            Message::Quit => messages_step(component, true, messages.drop_first()),
            message => messages_step(component.update_spec(message), quit, messages.drop_first()),
        }
    }
}

#[verifier::external_type_specification]
#[verifier::external_body]
#[verifier::reject_recursive_types(T)]
pub struct ExReceiver<T>(tokio::sync::mpsc::Receiver<T>);

#[verifier::external_type_specification]
#[verifier::external_body]
#[verifier::reject_recursive_types(T)]
pub struct ExSender<T>(tokio::sync::mpsc::Sender<T>);

/// Relies on tokio::sync::mpsc::channel: a fresh bounded channel, its sending
/// and receiving ends. It panics on a zero capacity and on one above the
/// permits its semaphore can hold, so those are ruled out here.
#[verifier::external_body]
fn new_channel<T>(capacity: usize) -> (ends: (
    tokio::sync::mpsc::Sender<T>,
    tokio::sync::mpsc::Receiver<T>,
))
    requires
        1 <= capacity <= usize::MAX / 8,
{
    tokio::sync::mpsc::channel(capacity)
}

/// Relies on tokio::sync::mpsc::Sender::clone: another sending end of the
/// same channel.
#[verifier::external_body]
fn clone_sender<T>(sender: &tokio::sync::mpsc::Sender<T>) -> (cloned: tokio::sync::mpsc::Sender<
    T,
>) {
    sender.clone()
}

/// Relies on tokio::sync::mpsc::Receiver::try_recv: hands back one queued
/// value without waiting, or nothing when the channel is empty or every
/// sender is gone. Values arrive in the order they were sent; nothing of that
/// order, or of what a concurrent sender may still add, can be promised here,
/// so this contract promises nothing.
#[verifier::external_body]
fn try_recv_now<T>(receiver: &mut tokio::sync::mpsc::Receiver<T>) -> (item: Option<T>) {
    match receiver.try_recv() {
        Ok(value) => Some(value),
        Err(_) => None,
    }
}

/// Pull everything already queued in a channel, without waiting. The channel
/// delivers items in the order they were sent. One pass takes at most
/// [`EVENT_DRAIN_LIMIT`] items — more than the bounded channels here can hold
/// at once, so everything queued when the pass began is taken; anything a
/// concurrent sender adds beyond that waits for the next cadence tick.
fn drain_pending<T>(receiver: &mut tokio::sync::mpsc::Receiver<T>) -> Vec<T> {
    let mut items: Vec<T> = Vec::new();
    let mut taken: usize = 0;
    while taken < EVENT_DRAIN_LIMIT
        invariant
            taken <= EVENT_DRAIN_LIMIT,
        decreases EVENT_DRAIN_LIMIT - taken,
    {
        match try_recv_now(receiver) {
            Some(item) => { items.push(item); },
            None => { return items; },
        }
        taken += 1;
    }
    items
}

/// The application runtime: owns the root component, the receiving end of the
/// event channel, the message queue, and the run's phase.
pub struct App<C: Component> {
    component: C,
    event_rx: tokio::sync::mpsc::Receiver<Event>,
    message_tx: tokio::sync::mpsc::Sender<Message>,
    message_rx: tokio::sync::mpsc::Receiver<Message>,
    messages: MessageQueue,
    should_quit: bool,
    phase: Phase,
    area: Rect,
}

impl<C: Component> App<C> {
    /// The root component's current state.
    pub closed spec fn component(self) -> C {
        self.component
    }

    /// The control messages queued and not yet drained.
    pub closed spec fn queue(self) -> Seq<Message> {
        self.messages@
    }

    /// The message queue's capacity.
    pub closed spec fn queue_capacity(self) -> int {
        self.messages.capacity()
    }

    /// The run's phase.
    pub closed spec fn phase(self) -> Phase {
        self.phase
    }

    /// The terminal dimensions the next render will be given: those of the
    /// most recent resize event dispatched, or the initial ones.
    pub closed spec fn area(self) -> Rect {
        self.area
    }

    /// The runtime's invariant: the component's own invariant holds, the
    /// queue respects its capacity, and a running app has no quit pending.
    pub closed spec fn wf(self) -> bool {
        &&& self.component.inv()
        &&& self.messages.wf()
        &&& self.phase == Phase::Running ==> !self.should_quit
    }

    /// A runtime in the `Running` phase, with an empty message queue, around
    /// the given component. `event_rx` is the receiving end of the channel
    /// the input loop sends into; `initial_area` is the terminal size at
    /// start, used until a resize event arrives.
    pub fn new(
        component: C,
        event_rx: tokio::sync::mpsc::Receiver<Event>,
        initial_area: Rect,
    ) -> (app: App<C>)
        requires
            component.inv(),
        ensures
            app.wf(),
            app.component() == component,
            app.queue() == Seq::<Message>::empty(),
            app.queue_capacity() == MESSAGE_CAPACITY as int,
            app.phase() == Phase::Running,
            app.area() == initial_area,
    {
        let (message_tx, message_rx) = new_channel(MESSAGE_CAPACITY);
        App {
            component,
            event_rx,
            message_tx,
            message_rx,
            messages: MessageQueue::new(MESSAGE_CAPACITY),
            should_quit: false,
            phase: Phase::Running,
            area: initial_area,
        }
    }

    /// The run's phase, for the host and for tests.
    pub fn current_phase(&self) -> (phase: Phase)
        ensures
            phase == self.phase(),
    {
        self.phase
    }

    /// The root component, for inspection.
    pub fn component_ref(&self) -> (component: &C)
        ensures
            component == self.component(),
    {
        &self.component
    }

    /// The terminal dimensions the next render will be given.
    pub fn current_area(&self) -> (area: Rect)
        ensures
            area == self.area(),
    {
        self.area
    }

    /// A sending end of the run's message channel. Any holder — the host, a
    /// background task — may send control messages through it; the next tick
    /// drains them before it dispatches events. This is how a producer other
    /// than the root component asks the run to quit.
    pub fn message_sender(&self) -> tokio::sync::mpsc::Sender<Message> {
        clone_sender(&self.message_tx)
    }
}

/// What one cadence tick does, relating the runtime before (`pre`) and after
/// (`post`) to the external messages it took in, the events it dispatched and
/// the outcome it returned: the messages other producers sent since the last
/// tick are offered to the queue, all events go to the component in order,
/// then the whole queue is drained, and only a pass that saw no `Quit` ends
/// in a render — of the component as this tick left it, on the current
/// terminal dimensions.
pub open spec fn tick_post<C: Component>(
    pre: App<C>,
    post: App<C>,
    external: Seq<Message>,
    events: Seq<Event>,
    outcome: TickOutcome,
) -> bool {
    let (after_events, drained, new_area) = events_step(
        pre.component(),
        offer_all(pre.queue(), pre.queue_capacity(), external),
        pre.queue_capacity(),
        pre.area(),
        events,
    );
    let (after_messages, quit) = messages_step(after_events, false, drained);
    &&& post.component() == after_messages
    &&& post.queue() == Seq::<Message>::empty()
    &&& post.queue_capacity() == pre.queue_capacity()
    &&& post.area() == new_area
    &&& match outcome {
        TickOutcome::Render(lines) => {
            &&& !quit
            &&& post.phase() == Phase::Running
            &&& lines.deep_view() == after_messages.view_spec(new_area)
        },
        TickOutcome::Quit => {
            &&& quit
            &&& post.phase() == Phase::Draining
        },
    }
}

impl<C: Component> App<C> {
    /// One cadence tick over given batches of external messages and events:
    /// offer the messages to the queue, dispatch all events in order, drain
    /// the queue, and either render once or — when a `Quit` was drained —
    /// start draining the run without rendering.
    pub fn tick_with(&mut self, events: &Vec<Event>, external: &Vec<Message>) -> (outcome:
        TickOutcome)
        requires
            old(self).wf(),
            old(self).phase() == Phase::Running,
        ensures
            final(self).wf(),
            tick_post(*old(self), *final(self), external@, events@, outcome),
            phase_step_ok(old(self).phase(), final(self).phase()),
    {
        let ghost capacity = self.messages.capacity();

        let mut k: usize = 0;
        while k < external.len()
            invariant
                k <= external.len(),
                old(self).wf(),
                self.component == old(self).component,
                self.area == old(self).area,
                self.phase == old(self).phase,
                self.should_quit == old(self).should_quit,
                self.messages.wf(),
                self.messages.capacity() == capacity,
                capacity == old(self).messages.capacity(),
                self.messages@ == offer_all(old(self).messages@, capacity, external@.take(k as int)),
            decreases external.len() - k,
        {
            let _sent = self.messages.try_send(external[k]);
            proof {
                crate::message::lemma_offer_all_snoc(
                    old(self).messages@,
                    capacity,
                    external@.take(k as int),
                    external@[k as int],
                );
                assert(external@.take(k as int).push(external@[k as int]) =~= external@.take(
                    k as int + 1,
                ));
            }
            k += 1;
        }
        proof {
            assert(external@.take(external@.len() as int) =~= external@);
        }
        let ghost queue0 = offer_all(old(self).messages@, capacity, external@);

        let mut i: usize = 0;
        while i < events.len()
            invariant
                i <= events.len(),
                self.component.inv(),
                self.messages.wf(),
                self.messages.capacity() == capacity,
                capacity == old(self).messages.capacity(),
                self.should_quit == old(self).should_quit,
                self.phase == old(self).phase,
                (self.component, self.messages@, self.area) == events_step(
                    old(self).component,
                    queue0,
                    capacity,
                    old(self).area,
                    events@.take(i as int),
                ),
            decreases events.len() - i,
        {
            let event = events[i];
            let ghost component_before = self.component;
            let ghost queue_before = self.messages@;
            let ghost area_before = self.area;
            let _result = self.component.handle_event(event, &mut self.messages);
            match event {
                Event::Resize(width, height) => {
                    self.area = Rect { x: 0, y: 0, width, height };
                },
                _ => {},
            }
            proof {
                component_before.next_preserves_inv(event);
                lemma_events_step_snoc(
                    old(self).component,
                    queue0,
                    capacity,
                    old(self).area,
                    events@.take(i as int),
                    event,
                );
                assert(events@.take(i as int).push(event) =~= events@.take(i as int + 1));
            }
            i += 1;
        }
        proof {
            assert(events@.take(events@.len() as int) =~= events@);
        }

        let ghost after_events = self.component;
        let drained = self.messages.drain();
        let mut j: usize = 0;
        while j < drained.len()
            invariant
                j <= drained.len(),
                self.component.inv(),
                self.messages.wf(),
                self.messages@ == Seq::<Message>::empty(),
                self.messages.capacity() == old(self).messages.capacity(),
                self.phase == old(self).phase,
                self.area == events_step(
                    old(self).component,
                    queue0,
                    capacity,
                    old(self).area,
                    events@,
                ).2,
                (self.component, self.should_quit) == messages_step(
                    after_events,
                    false,
                    drained@.take(j as int),
                ),
            decreases drained.len() - j,
        {
            let message = drained[j];
            let ghost component_before = self.component;
            match message {
                Message::Quit => {
                    self.should_quit = true;
                },
                other => {
                    proof {
                        component_before.update_preserves_inv(other);
                    }
                    self.component.update(other);
                },
            }
            proof {
                lemma_messages_step_snoc(after_events, false, drained@.take(j as int), message);
                assert(drained@.take(j as int).push(message) =~= drained@.take(j as int + 1));
            }
            j += 1;
        }
        proof {
            assert(drained@.take(drained@.len() as int) =~= drained@);
        }

        if self.should_quit {
            self.phase = Phase::Draining;
            TickOutcome::Quit
        } else {
            let lines = self.component.render(self.area);
            TickOutcome::Render(lines)
        }
    }

    /// One cadence tick: drain whatever the message channel and the event
    /// channel hold so far — batches unknown here, because their producers
    /// run concurrently — and run [`Self::tick_with`] on them.
    pub fn tick(&mut self) -> (outcome: TickOutcome)
        requires
            old(self).wf(),
            old(self).phase() == Phase::Running,
        ensures
            final(self).wf(),
            exists|external: Seq<Message>, events: Seq<Event>|
                tick_post(*old(self), *final(self), external, events, outcome),
            final(self).queue() == Seq::<Message>::empty(),
            final(self).queue_capacity() == old(self).queue_capacity(),
            phase_step_ok(old(self).phase(), final(self).phase()),
    {
        let external = drain_pending(&mut self.message_rx);
        let events = drain_pending(&mut self.event_rx);
        let outcome = self.tick_with(&events, &external);
        proof {
            assert(tick_post(*old(self), *self, external@, events@, outcome));
        }
        outcome
    }

    /// Leave the `Draining` phase: discard whatever events are still in
    /// flight — the run is over, nothing will render them — and stop. The
    /// host cancels the input task and restores the terminal afterwards.
    pub fn shutdown(&mut self)
        requires
            old(self).wf(),
            old(self).phase() == Phase::Draining,
        ensures
            final(self).wf(),
            final(self).phase() == Phase::Stopped,
            final(self).component() == old(self).component(),
            final(self).queue() == old(self).queue(),
            final(self).queue_capacity() == old(self).queue_capacity(),
            final(self).area() == old(self).area(),
            phase_step_ok(old(self).phase(), final(self).phase()),
    {
        let _discarded = drain_pending(&mut self.event_rx);
        self.phase = Phase::Stopped;
    }
}

/// The render output a tick outcome carries, if it carries one.
pub open spec fn outcome_lines(outcome: TickOutcome) -> Option<Seq<Seq<char>>> {
    match outcome {
        TickOutcome::Render(lines) => Some(lines.deep_view()),
        TickOutcome::Quit => None,
    }
}

/// Events are delivered strictly in channel order, each exactly once:
/// dispatching two batches one after the other is the same as dispatching
/// their concatenation, so a batch's effect is the effect of its events taken
/// singly, in order, with nothing repeated and nothing reordered.
pub proof fn lemma_events_in_order<C: Component>(
    component: C,
    queue: Seq<Message>,
    capacity: int,
    area: Rect,
    earlier: Seq<Event>,
    later: Seq<Event>,
)
    ensures
        ({
            let (c, q, a) = events_step(component, queue, capacity, area, earlier);
            events_step(component, queue, capacity, area, earlier + later) == events_step(
                c,
                q,
                capacity,
                a,
                later,
            )
        }),
    decreases earlier.len(),
{
    if earlier.len() == 0 {
        assert(earlier + later =~= later);
        assert(events_step(component, queue, capacity, area, earlier) == (
            component,
            queue,
            area,
        ));
    } else {
        let both = earlier + later;
        assert(both[0] == earlier[0]);
        assert(both.drop_first() =~= earlier.drop_first() + later);
        lemma_events_in_order(
            component.next_spec(earlier[0]),
            offer_all(queue, capacity, component.emits_spec(earlier[0])),
            capacity,
            area_after(area, earlier[0]),
            earlier.drop_first(),
            later,
        );
    }
}

/// Whatever was queued before a batch of events is still queued, unmoved, at
/// the same position afterwards: dispatching only appends to the queue.
pub proof fn lemma_events_step_keeps_queued<C: Component>(
    component: C,
    queue: Seq<Message>,
    capacity: int,
    area: Rect,
    events: Seq<Event>,
)
    ensures
        events_step(component, queue, capacity, area, events).1.len() >= queue.len(),
        forall|i: int|
            0 <= i < queue.len() ==> events_step(component, queue, capacity, area, events).1[i]
                == queue[i],
    decreases events.len(),
{
    if events.len() > 0 {
        let offered = offer_all(queue, capacity, component.emits_spec(events[0]));
        crate::message::lemma_offer_all_keeps_prefix(
            queue,
            capacity,
            component.emits_spec(events[0]),
        );
        lemma_events_step_keeps_queued(
            component.next_spec(events[0]),
            offered,
            capacity,
            area_after(area, events[0]),
            events.drop_first(),
        );
    }
}

/// Draining raises the shutdown flag exactly when the drained batch holds a
/// `Quit` (or it was raised before).
pub proof fn lemma_messages_step_quit<C: Component>(
    component: C,
    quit: bool,
    messages: Seq<Message>,
)
    ensures
        messages_step(component, quit, messages).1 == (quit || messages.contains(Message::Quit)),
    decreases messages.len(),
{
    if messages.len() == 0 {
        assert(!messages.contains(Message::Quit));
    } else {
        let rest = messages.drop_first();
        match messages[0] {
            Message::Quit => {
                lemma_messages_step_quit(component, true, rest);
                assert(messages.contains(Message::Quit));
            },
            other => {
                lemma_messages_step_quit(component.update_spec(other), quit, rest);
                if rest.contains(Message::Quit) {
                    let k = choose|k: int| 0 <= k < rest.len() && rest[k] == Message::Quit;
                    assert(messages[k + 1] == Message::Quit);
                    assert(messages.contains(Message::Quit));
                }
                if messages.contains(Message::Quit) {
                    let k = choose|k: int|
                        0 <= k < messages.len() && messages[k] == Message::Quit;
                    assert(k != 0);
                    assert(rest[k - 1] == Message::Quit);
                    assert(rest.contains(Message::Quit));
                }
            },
        }
    }
}

/// A `Quit` that is in the queue when this tick's drain begins — however it
/// got there — is terminal: the tick performs no render and leaves the run in
/// the `Draining` phase, in which no further tick is permitted, so no later
/// render can ever happen.
pub proof fn lemma_drained_quit_stops_rendering<C: Component>(
    pre: App<C>,
    post: App<C>,
    external: Seq<Message>,
    events: Seq<Event>,
    outcome: TickOutcome,
)
    requires
        tick_post(pre, post, external, events, outcome),
        events_step(
            pre.component(),
            offer_all(pre.queue(), pre.queue_capacity(), external),
            pre.queue_capacity(),
            pre.area(),
            events,
        ).1.contains(Message::Quit),
    ensures
        outcome == TickOutcome::Quit,
        post.phase() == Phase::Draining,
{
    let (after_events, drained, new_area) = events_step(
        pre.component(),
        offer_all(pre.queue(), pre.queue_capacity(), external),
        pre.queue_capacity(),
        pre.area(),
        events,
    );
    lemma_messages_step_quit(after_events, false, drained);
}

/// A `Quit` message, once enqueued, is terminal: whatever events the next
/// tick dispatches, it performs no render and the run drains. Dispatching
/// never removes a queued message, so the `Quit` is still there when the
/// drain begins.
pub proof fn lemma_quit_stops_rendering<C: Component>(
    pre: App<C>,
    post: App<C>,
    external: Seq<Message>,
    events: Seq<Event>,
    outcome: TickOutcome,
)
    requires
        tick_post(pre, post, external, events, outcome),
        pre.queue().contains(Message::Quit),
    ensures
        outcome == TickOutcome::Quit,
        post.phase() == Phase::Draining,
{
    let queue0 = offer_all(pre.queue(), pre.queue_capacity(), external);
    crate::message::lemma_offer_all_keeps_prefix(pre.queue(), pre.queue_capacity(), external);
    let drained = events_step(
        pre.component(),
        queue0,
        pre.queue_capacity(),
        pre.area(),
        events,
    ).1;
    lemma_events_step_keeps_queued(
        pre.component(),
        queue0,
        pre.queue_capacity(),
        pre.area(),
        events,
    );
    let k = choose|k: int| 0 <= k < pre.queue().len() && pre.queue()[k] == Message::Quit;
    assert(queue0[k] == Message::Quit);
    assert(drained[k] == Message::Quit);
    assert(drained.contains(Message::Quit));
    lemma_drained_quit_stops_rendering(pre, post, external, events, outcome);
}

/// A `Quit` sent by another producer — the host, a background task — stops
/// the run on the very tick that takes it in, provided the queue has room for
/// the incoming batch (a drained-every-tick queue has, in any steady state).
pub proof fn lemma_external_quit_stops_rendering<C: Component>(
    pre: App<C>,
    post: App<C>,
    external: Seq<Message>,
    events: Seq<Event>,
    outcome: TickOutcome,
)
    requires
        tick_post(pre, post, external, events, outcome),
        external.contains(Message::Quit),
        pre.queue().len() + external.len() <= pre.queue_capacity(),
    ensures
        outcome == TickOutcome::Quit,
        post.phase() == Phase::Draining,
{
    let queue0 = offer_all(pre.queue(), pre.queue_capacity(), external);
    crate::message::lemma_offer_all_no_drop(pre.queue(), pre.queue_capacity(), external);
    let k = choose|k: int| 0 <= k < external.len() && external[k] == Message::Quit;
    assert(queue0[pre.queue().len() + k] == Message::Quit);
    assert(queue0.contains(Message::Quit));
    lemma_events_step_keeps_queued(
        pre.component(),
        queue0,
        pre.queue_capacity(),
        pre.area(),
        events,
    );
    let drained = events_step(
        pre.component(),
        queue0,
        pre.queue_capacity(),
        pre.area(),
        events,
    ).1;
    let j = choose|j: int| 0 <= j < queue0.len() && queue0[j] == Message::Quit;
    assert(drained[j] == Message::Quit);
    assert(drained.contains(Message::Quit));
    lemma_drained_quit_stops_rendering(pre, post, external, events, outcome);
}

/// The rank of a phase along the one-way road from running to stopped.
pub open spec fn phase_rank(phase: Phase) -> int {
    match phase {
        Phase::Running => 0,
        Phase::Draining => 1,
        Phase::Stopped => 2,
    }
}

/// Phases only ever advance along a run, and `Stopped` — the point at which
/// the host tears the terminal session down — is entered at most once: it can
/// only be the last phase, since no step leaves it. The teardown itself is
/// the host's unconditional drop of its terminal guard.
pub proof fn lemma_stop_entered_at_most_once(phases: Seq<Phase>)
    requires
        forall|i: int|
            0 <= i < phases.len() - 1 ==> (#[trigger] phases[i] == phases[i + 1] || phase_step_ok(
                phases[i],
                phases[i + 1],
            )),
    ensures
        forall|i: int, j: int|
            0 <= i <= j < phases.len() ==> phase_rank(#[trigger] phases[i]) <= phase_rank(
                #[trigger] phases[j],
            ),
        forall|i: int|
            0 <= i < phases.len() - 1 && #[trigger] phases[i] == Phase::Stopped ==> phases[i + 1]
                == Phase::Stopped,
    decreases phases.len(),
{
    assert forall|i: int, j: int|
        0 <= i <= j < phases.len() implies phase_rank(#[trigger] phases[i]) <= phase_rank(
        #[trigger] phases[j],
    ) by {
        lemma_phase_rank_monotone(phases, i, j);
    }
}

/// Between any two points of a run whose steps are allowed, the phase rank
/// does not fall.
pub proof fn lemma_phase_rank_monotone(phases: Seq<Phase>, i: int, j: int)
    requires
        forall|k: int|
            0 <= k < phases.len() - 1 ==> (#[trigger] phases[k] == phases[k + 1] || phase_step_ok(
                phases[k],
                phases[k + 1],
            )),
        0 <= i <= j < phases.len(),
    ensures
        phase_rank(phases[i]) <= phase_rank(phases[j]),
    decreases j - i,
{
    if i < j {
        lemma_phase_rank_monotone(phases, i, j - 1);
        assert(phases[j - 1] == phases[j] || phase_step_ok(phases[j - 1], phases[j]));
    }
}

/// Timer ticks that a component ignores change nothing: a batch of `Tick`
/// events leaves the component, the queue and the terminal dimensions exactly
/// as they were — so the following render output is unchanged too.
pub proof fn lemma_ignored_ticks_change_nothing<C: Component>(
    component: C,
    queue: Seq<Message>,
    capacity: int,
    area: Rect,
    events: Seq<Event>,
)
    requires
        component.next_spec(Event::Tick) == component,
        component.emits_spec(Event::Tick) == Seq::<Message>::empty(),
        forall|i: int| 0 <= i < events.len() ==> events[i] == Event::Tick,
    ensures
        events_step(component, queue, capacity, area, events) == (component, queue, area),
    decreases events.len(),
{
    if events.len() > 0 {
        assert(events[0] == Event::Tick);
        assert(offer_all(queue, capacity, component.emits_spec(Event::Tick)) == queue);
        assert(forall|i: int|
            0 <= i < events.drop_first().len() ==> #[trigger] events.drop_first()[i]
                == Event::Tick);
        lemma_ignored_ticks_change_nothing(component, queue, capacity, area, events.drop_first());
    }
}

/// Repeated timer ticks with no other input are idempotent: a tick whose
/// whole input is `Tick` events the component ignores, over an empty queue,
/// renders exactly what the component rendered before and leaves it
/// unchanged.
pub proof fn lemma_tick_only_ticks_renders_same<C: Component>(
    pre: App<C>,
    post: App<C>,
    events: Seq<Event>,
    outcome: TickOutcome,
)
    requires
        tick_post(pre, post, Seq::<Message>::empty(), events, outcome),
        pre.queue() == Seq::<Message>::empty(),
        pre.component().next_spec(Event::Tick) == pre.component(),
        pre.component().emits_spec(Event::Tick) == Seq::<Message>::empty(),
        forall|i: int| 0 <= i < events.len() ==> events[i] == Event::Tick,
    ensures
        post.component() == pre.component(),
        post.area() == pre.area(),
        outcome_lines(outcome) == Some(pre.component().view_spec(pre.area())),
{
    lemma_ignored_ticks_change_nothing(
        pre.component(),
        pre.queue(),
        pre.queue_capacity(),
        pre.area(),
        events,
    );
}

/// A component given no events and no messages renders identically, every
/// cycle: over any run of quiet ticks the component and the dimensions stay
/// what they were at the start, and every cycle's output is the same render
/// of that unchanged state.
pub proof fn lemma_quiet_cycles_render_identically<C: Component>(
    states: Seq<App<C>>,
    outcomes: Seq<TickOutcome>,
)
    requires
        states.len() == outcomes.len() + 1,
        states[0].queue() == Seq::<Message>::empty(),
        forall|i: int|
            0 <= i < outcomes.len() ==> tick_post(
                states[i],
                states[i + 1],
                Seq::<Message>::empty(),
                Seq::<Event>::empty(),
                #[trigger] outcomes[i],
            ),
    ensures
        forall|i: int|
            0 <= i < states.len() ==> #[trigger] states[i].component() == states[0].component()
                && states[i].area() == states[0].area() && states[i].queue() == Seq::<
                Message,
            >::empty(),
        forall|i: int|
            0 <= i < outcomes.len() ==> outcome_lines(#[trigger] outcomes[i]) == Some(
                states[0].component().view_spec(states[0].area()),
            ),
    decreases outcomes.len(),
{
    if outcomes.len() > 0 {
        assert(tick_post(
            states[0],
            states[1],
            Seq::<Message>::empty(),
            Seq::<Event>::empty(),
            outcomes[0],
        ));
        assert(events_step(
            states[0].component(),
            states[0].queue(),
            states[0].queue_capacity(),
            states[0].area(),
            Seq::<Event>::empty(),
        ) == (states[0].component(), states[0].queue(), states[0].area()));
        assert(messages_step(states[0].component(), false, Seq::<Message>::empty()) == (
            states[0].component(),
            false,
        ));
        let rest_states = states.drop_first();
        let rest_outcomes = outcomes.drop_first();
        assert(forall|i: int|
            0 <= i < rest_outcomes.len() ==> tick_post(
                rest_states[i],
                rest_states[i + 1],
                Seq::<Message>::empty(),
                Seq::<Event>::empty(),
                #[trigger] rest_outcomes[i],
            ));
        lemma_quiet_cycles_render_identically(rest_states, rest_outcomes);
        assert(forall|i: int|
            1 <= i < states.len() ==> #[trigger] states[i].component()
                == rest_states[i - 1].component() && states[i].area() == rest_states[i - 1].area()
                && states[i].queue() == rest_states[i - 1].queue());
        assert(forall|i: int|
            1 <= i < outcomes.len() ==> #[trigger] outcomes[i] == rest_outcomes[i - 1]);
    }
}

/// Dispatching one more event after a batch applies that event to the batch's
/// result: the component steps once, its emissions are offered, the area
/// follows a resize.
pub proof fn lemma_events_step_snoc<C: Component>(
    component: C,
    queue: Seq<Message>,
    capacity: int,
    area: Rect,
    events: Seq<Event>,
    event: Event,
)
    ensures
        ({
            let (c, q, a) = events_step(component, queue, capacity, area, events);
            events_step(component, queue, capacity, area, events.push(event)) == (
                c.next_spec(event),
                offer_all(q, capacity, c.emits_spec(event)),
                area_after(a, event),
            )
        }),
    decreases events.len(),
{
    let snoc = events.push(event);
    assert(snoc.len() == events.len() + 1);
    if events.len() == 0 {
        assert(snoc[0] == event);
        assert(snoc.drop_first() =~= Seq::<Event>::empty());
        assert(events_step(component, queue, capacity, area, snoc) == events_step(
            component.next_spec(event),
            offer_all(queue, capacity, component.emits_spec(event)),
            capacity,
            area_after(area, event),
            snoc.drop_first(),
        ));
        assert(events_step(component, queue, capacity, area, events) == (component, queue, area));
    } else {
        assert(snoc[0] == events[0]);
        assert(snoc.drop_first() =~= events.drop_first().push(event));
        lemma_events_step_snoc(
            component.next_spec(events[0]),
            offer_all(queue, capacity, component.emits_spec(events[0])),
            capacity,
            area_after(area, events[0]),
            events.drop_first(),
            event,
        );
        assert(events_step(component, queue, capacity, area, snoc) == events_step(
            component.next_spec(events[0]),
            offer_all(queue, capacity, component.emits_spec(events[0])),
            capacity,
            area_after(area, events[0]),
            events.drop_first().push(event),
        ));
        assert(events_step(component, queue, capacity, area, events) == events_step(
            component.next_spec(events[0]),
            offer_all(queue, capacity, component.emits_spec(events[0])),
            capacity,
            area_after(area, events[0]),
            events.drop_first(),
        ));
    }
}

/// Draining one more message after a batch applies that message to the
/// batch's result: `Quit` raises the flag, anything else updates the
/// component.
pub proof fn lemma_messages_step_snoc<C: Component>(
    component: C,
    quit: bool,
    messages: Seq<Message>,
    message: Message,
)
    ensures
        ({
            let (c, q) = messages_step(component, quit, messages);
            messages_step(component, quit, messages.push(message)) == (match message {
                Message::Quit => (c, true),
                other => (c.update_spec(other), q),
            })
        }),
    decreases messages.len(),
{
    let snoc = messages.push(message);
    assert(snoc.len() == messages.len() + 1);
    if messages.len() == 0 {
        assert(snoc[0] == message);
        assert(snoc.drop_first() =~= Seq::<Message>::empty());
        assert(messages_step(component, quit, snoc) == (match message {
            Message::Quit => messages_step(component, true, snoc.drop_first()),
            other => messages_step(component.update_spec(other), quit, snoc.drop_first()),
        }));
        assert(messages_step(component, quit, messages) == (component, quit));
    } else {
        assert(snoc[0] == messages[0]);
        assert(snoc.drop_first() =~= messages.drop_first().push(message));
        match messages[0] {
            Message::Quit => {
                lemma_messages_step_snoc(component, true, messages.drop_first(), message);
                assert(messages_step(component, quit, snoc) == messages_step(
                    component,
                    true,
                    messages.drop_first().push(message),
                ));
                assert(messages_step(component, quit, messages) == messages_step(
                    component,
                    true,
                    messages.drop_first(),
                ));
            },
            other => {
                lemma_messages_step_snoc(
                    component.update_spec(other),
                    quit,
                    messages.drop_first(),
                    message,
                );
                assert(messages_step(component, quit, snoc) == messages_step(
                    component.update_spec(other),
                    quit,
                    messages.drop_first().push(message),
                ));
                assert(messages_step(component, quit, messages) == messages_step(
                    component.update_spec(other),
                    quit,
                    messages.drop_first(),
                ));
            },
        }
    }
}

} // verus!
