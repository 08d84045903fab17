//! A list screen: the up and down keys move a selection marker through the
//! items, clamped at both ends, and `q` asks the runtime to quit.

use crate::component::Component;
use crate::component::Rect;
use crate::event::Event;
use crate::event::EventResult;
use crate::event::KeyCode;
use crate::message::Message;
use crate::message::MessageQueue;
use crate::message::offer;
use crate::message::offer_all;
use vstd::prelude::*;
use vstd::string::StringExecFns;

verus! {

/// A screen showing a list of items with one selected.
pub struct ListSelector {
    pub items: Vec<String>,
    pub selected: usize,
}

impl ListSelector {
    /// A selector over the given items, with the first one selected.
    pub fn new(items: Vec<String>) -> (selector: ListSelector)
        ensures
            selector.items == items,
            selector.selected == 0,
            selector.inv(),
    {
        ListSelector { items, selected: 0 }
    }

    /// The index of the selected item.
    pub fn selected(&self) -> (selected: usize)
        ensures
            selected == self.selected,
    {
        self.selected
    }
}

impl Component for ListSelector {
    /// The selection stays in bounds; an empty list keeps it at zero.
    open spec fn inv(self) -> bool {
        if self.items@.len() == 0 {
            self.selected == 0
        } else {
            self.selected < self.items@.len()
        }
    }

    open spec fn next_spec(self, event: Event) -> ListSelector {
        match event {
            Event::Key(key) => match key.code {
                KeyCode::Down => ListSelector {
                    selected: if self.selected + 1 < self.items@.len() {
                        (self.selected + 1) as usize
                    } else {
                        self.selected
                    },
                    ..self
                },
                KeyCode::Up => ListSelector {
                    selected: if self.selected > 0 {
                        (self.selected - 1) as usize
                    } else {
                        0
                    },
                    ..self
                },
                _ => self,
            },
            _ => self,
        }
    }

    open spec fn emits_spec(self, event: Event) -> Seq<Message> {
        match event {
            Event::Key(key) => match key.code {
                KeyCode::Char(letter) => if letter == 'q' {
                    seq![Message::Quit]
                } else {
                    Seq::empty()
                },
                _ => Seq::empty(),
            },
            _ => Seq::empty(),
        }
    }

    open spec fn result_spec(self, event: Event) -> EventResult {
        match event {
            Event::Key(key) => match key.code {
                KeyCode::Up => EventResult::Consumed,
                KeyCode::Down => EventResult::Consumed,
                KeyCode::Char(letter) => if letter == 'q' {
                    EventResult::Consumed
                } else {
                    EventResult::Propagate
                },
                _ => EventResult::Propagate,
            },
            _ => EventResult::Propagate,
        }
    }

    open spec fn update_spec(self, message: Message) -> ListSelector {
        self
    }

    /// One line per item: a marker on the selected one, two spaces elsewhere.
    open spec fn view_spec(self, area: Rect) -> Seq<Seq<char>> {
        Seq::new(
            self.items@.len(),
            |i: int|
                (if i == self.selected {
                    "> "@
                } else {
                    "  "@
                }) + self.items@[i]@,
        )
    }

    proof fn next_preserves_inv(self, event: Event) {
    }

    proof fn update_preserves_inv(self, message: Message) {
    }

    fn handle_event(&mut self, event: Event, messages: &mut MessageQueue) -> (result: EventResult)
    {
        match event {
            Event::Key(key) => match key.code {
                KeyCode::Down => {
                    let count = self.items.len();
                    if count > 0 && self.selected < count - 1 {
                        self.selected = self.selected + 1;
                    }
                    EventResult::Consumed
                },
                KeyCode::Up => {
                    if self.selected > 0 {
                        self.selected = self.selected - 1;
                    }
                    EventResult::Consumed
                },
                KeyCode::Char(letter) => {
                    if letter == 'q' {
                        let _sent = messages.try_send(Message::Quit);
                        proof {
                            let emitted = seq![Message::Quit];
                            let capacity = old(messages).capacity();
                            assert(emitted[0] == Message::Quit);
                            assert(emitted.drop_first() =~= Seq::<Message>::empty());
                            assert(offer_all(old(messages)@, capacity, emitted) == offer_all(
                                offer(old(messages)@, capacity, Message::Quit),
                                capacity,
                                emitted.drop_first(),
                            ));
                            assert(offer_all(
                                offer(old(messages)@, capacity, Message::Quit),
                                capacity,
                                Seq::<Message>::empty(),
                            ) == offer(old(messages)@, capacity, Message::Quit));
                        }
                        EventResult::Consumed
                    } else {
                        EventResult::Propagate
                    }
                },
                _ => EventResult::Propagate,
            },
            _ => EventResult::Propagate,
        }
    }

    fn update(&mut self, message: Message) {
    }

    fn render(&self, area: Rect) -> (lines: Vec<String>) {
        let mut lines: Vec<String> = Vec::new();
        let mut i: usize = 0;
        while i < self.items.len()
            invariant
                i <= self.items@.len(),
                self.inv(),
                lines.deep_view() == self.view_spec(area).take(i as int),
            decreases self.items@.len() - i,
        {
            let ghost before = lines.deep_view();
            let mut line = if i == self.selected {
                String::from_str("> ")
            } else {
                String::from_str("  ")
            };
            line.append(self.items[i].as_str());
            lines.push(line);
            proof {
                assert(lines.deep_view() =~= before.push(line@));
                assert(before.push(line@) =~= self.view_spec(area).take(i as int + 1));
            }
            i += 1;
        }
        proof {
            assert(self.view_spec(area).take(self.items@.len() as int) =~= self.view_spec(area));
        }
        lines
    }
}

} // verus!
