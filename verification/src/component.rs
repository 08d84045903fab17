//! The capability contract every UI screen satisfies: render into a
//! rectangular region, react to events, react to messages, and emit messages
//! of its own through the queue the runtime hands it.

use crate::event::Event;
use crate::event::EventResult;
use crate::message::Message;
use crate::message::MessageQueue;
use crate::message::offer_all;
use vstd::prelude::*;

verus! {

/// A rectangular region of the terminal, in character cells.
#[derive(Clone, Copy, Debug, PartialEq, Eq, Structural)]
pub struct Rect {
    pub x: u16,
    pub y: u16,
    pub width: u16,
    pub height: u16,
}

impl Rect {
    /// The whole screen of a terminal of the given size.
    pub fn whole(width: u16, height: u16) -> (area: Rect)
        ensures
            area == (Rect { x: 0, y: 0, width, height }),
    {
        Rect { x: 0, y: 0, width, height }
    }
}

/// The pluggable, stateful unit implementing one UI screen.
///
/// The spec functions fix, per implementor, what each method does: the state
/// after an event, the messages emitted on it, the handling verdict, the state
/// after a control message, and the render output — a sequence of text lines —
/// as a pure function of state and area. The executable methods are bound to
/// those functions, so the runtime's contracts speak of every component alike.
pub trait Component: Sized {
    /// The component's internal invariant; constructors establish it and the
    /// methods below preserve it.
    spec fn inv(self) -> bool;

    /// The state after reacting to one event.
    spec fn next_spec(self, event: Event) -> Self;

    /// The messages the component emits while reacting to one event, in
    /// emission order.
    spec fn emits_spec(self, event: Event) -> Seq<Message>;

    /// Whether the component consumes the event or leaves it to propagate.
    spec fn result_spec(self, event: Event) -> EventResult;

    /// The state after reacting to one control message.
    spec fn update_spec(self, message: Message) -> Self;

    /// The render output on the given area: the text lines the component
    /// shows, a pure function of its state.
    spec fn view_spec(self, area: Rect) -> Seq<Seq<char>>;

    /// Reacting to an event preserves the invariant.
    proof fn next_preserves_inv(self, event: Event)
        requires
            self.inv(),
        ensures
            self.next_spec(event).inv(),
    ;

    /// Reacting to a message preserves the invariant.
    proof fn update_preserves_inv(self, message: Message)
        requires
            self.inv(),
        ensures
            self.update_spec(message).inv(),
    ;

    /// React to one event, mutating internal state as needed, and offer the
    /// emitted messages to the queue in emission order.
    fn handle_event(&mut self, event: Event, messages: &mut MessageQueue) -> (result: EventResult)
        requires
            old(self).inv(),
            old(messages).wf(),
        ensures
            *final(self) == old(self).next_spec(event),
            final(messages)@ == offer_all(
                old(messages)@,
                old(messages).capacity(),
                old(self).emits_spec(event),
            ),
            final(messages).capacity() == old(messages).capacity(),
            final(messages).wf(),
            result == old(self).result_spec(event),
    ;

    /// React to one control message other than `Quit`; the runtime intercepts
    /// `Quit` before this is invoked.
    fn update(&mut self, message: Message)
        requires
            old(self).inv(),
        ensures
            *final(self) == old(self).update_spec(message),
    ;

    /// Draw the component's current state into the given area, as one text
    /// line per row to show. Pure with respect to input: the state is not
    /// touched and equal states render equally.
    fn render(&self, area: Rect) -> (lines: Vec<String>)
        requires
            self.inv(),
        ensures
            lines.deep_view() == self.view_spec(area),
    ;
}

} // verus!
