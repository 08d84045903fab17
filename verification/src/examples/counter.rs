//! A counter screen: the up key increments, the down key decrements, and `q`
//! asks the runtime to quit.

use crate::component::Component;
use crate::component::Rect;
use crate::event::Event;
use crate::event::EventResult;
use crate::event::KeyCode;
use crate::message::Message;
use crate::message::MessageQueue;
use crate::message::offer;
use crate::message::offer_all;
use crate::text::dec_chars;
use crate::text::push_decimal;
use vstd::prelude::*;
use vstd::string::StringExecFns;

verus! {

/// A screen showing one saturating counter.
pub struct Counter {
    pub count: u64,
}

impl Counter {
    /// A counter starting at zero.
    pub fn new() -> (counter: Counter)
        ensures
            counter.count == 0,
            counter.inv(),
    {
        Counter { count: 0 }
    }

    /// The current count.
    pub fn count(&self) -> (count: u64)
        ensures
            count == self.count,
    {
        self.count
    }
}

impl Component for Counter {
    open spec fn inv(self) -> bool {
        true
    }

    open spec fn next_spec(self, event: Event) -> Counter {
        match event {
            Event::Key(key) => match key.code {
                KeyCode::Up => Counter {
                    count: if self.count < u64::MAX {
                        (self.count + 1) as u64
                    } else {
                        self.count
                    },
                },
                KeyCode::Down => Counter {
                    count: if self.count > 0 {
                        (self.count - 1) as u64
                    } else {
                        0
                    },
                },
                _ => self,
            },
            _ => self,
        }
    }

    open spec fn emits_spec(self, event: Event) -> Seq<Message> {
        match event {
            Event::Key(key) => match key.code {
                KeyCode::Char(letter) => if letter == 'q' {
                    seq![Message::Quit]
                } else {
                    Seq::empty()
                },
                _ => Seq::empty(),
            },
            _ => Seq::empty(),
        }
    }

    open spec fn result_spec(self, event: Event) -> EventResult {
        match event {
            Event::Key(key) => match key.code {
                KeyCode::Up => EventResult::Consumed,
                KeyCode::Down => EventResult::Consumed,
                KeyCode::Char(letter) => if letter == 'q' {
                    EventResult::Consumed
                } else {
                    EventResult::Propagate
                },
                _ => EventResult::Propagate,
            },
            _ => EventResult::Propagate,
        }
    }

    /// A custom control message sets the count outright; the runtime
    /// intercepts `Quit` before it ever reaches a component.
    open spec fn update_spec(self, message: Message) -> Counter {
        match message {
            Message::Custom(value) => Counter { count: value },
            Message::Quit => self,
        }
    }

    open spec fn view_spec(self, area: Rect) -> Seq<Seq<char>> {
        seq!["Count: "@ + dec_chars(self.count as nat)]
    }

    proof fn next_preserves_inv(self, event: Event) {
    }

    proof fn update_preserves_inv(self, message: Message) {
    }

    fn handle_event(&mut self, event: Event, messages: &mut MessageQueue) -> (result: EventResult)
    {
        match event {
            Event::Key(key) => match key.code {
                KeyCode::Up => {
                    if self.count < u64::MAX {
                        self.count = self.count + 1;
                    }
                    EventResult::Consumed
                },
                KeyCode::Down => {
                    if self.count > 0 {
                        self.count = self.count - 1;
                    }
                    EventResult::Consumed
                },
                KeyCode::Char(letter) => {
                    if letter == 'q' {
                        let _sent = messages.try_send(Message::Quit);
                        proof {
                            let emitted = seq![Message::Quit];
                            let capacity = old(messages).capacity();
                            assert(emitted[0] == Message::Quit);
                            assert(emitted.drop_first() =~= Seq::<Message>::empty());
                            assert(offer_all(old(messages)@, capacity, emitted) == offer_all(
                                offer(old(messages)@, capacity, Message::Quit),
                                capacity,
                                emitted.drop_first(),
                            ));
                            assert(offer_all(
                                offer(old(messages)@, capacity, Message::Quit),
                                capacity,
                                Seq::<Message>::empty(),
                            ) == offer(old(messages)@, capacity, Message::Quit));
                        }
                        EventResult::Consumed
                    } else {
                        EventResult::Propagate
                    }
                },
                _ => EventResult::Propagate,
            },
            _ => EventResult::Propagate,
        }
    }

    fn update(&mut self, message: Message) {
        match message {
            Message::Custom(value) => {
                self.count = value;
            },
            Message::Quit => {},
        }
    }

    fn render(&self, area: Rect) -> (lines: Vec<String>) {
        let mut line = String::from_str("Count: ");
        push_decimal(self.count, &mut line);
        let mut lines: Vec<String> = Vec::new();
        lines.push(line);
        proof {
            assert(lines.deep_view() =~= self.view_spec(area));
        }
        lines
    }
}

} // verus!
