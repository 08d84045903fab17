//! Control notifications flowing from the UI side back into the runtime, and
//! the bounded queue that carries them.

use vstd::prelude::*;

verus! {

/// A control notification consumed by the runtime: a request to terminate the
/// application, or an application-defined control signal that the runtime
/// forwards untouched to the component.
#[derive(Clone, Copy, Debug, PartialEq, Eq, Structural)]
pub enum Message {
    Quit,
    Custom(u64),
}

/// The queue after offering one message to it: the message is appended when
/// there is room, and dropped when the queue is full.
pub open spec fn offer(queue: Seq<Message>, capacity: int, message: Message) -> Seq<Message> {
    if queue.len() < capacity {
        queue.push(message)
    } else {
        queue
    }
}

/// The queue after offering a batch of messages to it, first one first.
pub open spec fn offer_all(queue: Seq<Message>, capacity: int, messages: Seq<Message>) -> Seq<
    Message,
>
    decreases messages.len(),
{
    if messages.len() == 0 {
        queue
    } else {
        offer_all(offer(queue, capacity, messages[0]), capacity, messages.drop_first())
    }
}

/// The bounded, first-in-first-out message queue connecting the component (its
/// producer) to the runtime (its sole consumer). A full queue drops further
/// messages instead of blocking: the capacity is a tuning knob, not an
/// invariant the rest of the runtime leans on.
pub struct MessageQueue {
    items: Vec<Message>,
    capacity: usize,
}

impl View for MessageQueue {
    type V = Seq<Message>;

    closed spec fn view(&self) -> Seq<Message> {
        self.items@
    }
}

impl MessageQueue {
    /// How many messages the queue holds at most.
    pub closed spec fn capacity(self) -> int {
        self.capacity as int
    }

    /// The queue never holds more than its capacity.
    pub closed spec fn wf(self) -> bool {
        self.items@.len() <= self.capacity as int
    }

    /// An empty queue that will hold at most `capacity` messages.
    pub fn new(capacity: usize) -> (queue: MessageQueue)
        ensures
            queue@ == Seq::<Message>::empty(),
            queue.capacity() == capacity as int,
            queue.wf(),
    {
        MessageQueue { items: Vec::new(), capacity }
    }

    /// How many messages are queued right now.
    pub fn len(&self) -> (n: usize)
        ensures
            n == self@.len(),
    {
        self.items.len()
    }

    /// Offer one message: append it if there is room, drop it otherwise.
    /// Returns whether the message was taken.
    pub fn try_send(&mut self, message: Message) -> (sent: bool)
        requires
            old(self).wf(),
        ensures
            final(self)@ == offer(old(self)@, old(self).capacity(), message),
            final(self).capacity() == old(self).capacity(),
            final(self).wf(),
            sent == (old(self)@.len() < old(self).capacity()),
    {
        if self.items.len() < self.capacity {
            self.items.push(message);
            true
        } else {
            false
        }
    }

    /// Take every queued message out, first sent first, leaving the queue
    /// empty with its capacity unchanged.
    pub fn drain(&mut self) -> (messages: Vec<Message>)
        ensures
            messages@ == old(self)@,
            final(self)@ == Seq::<Message>::empty(),
            final(self).capacity() == old(self).capacity(),
            final(self).wf(),
    {
        let mut messages: Vec<Message> = Vec::new();
        core::mem::swap(&mut messages, &mut self.items);
        messages
    }
}

/// Offering one more message after a batch offers it to the batch's result.
pub proof fn lemma_offer_all_snoc(
    queue: Seq<Message>,
    capacity: int,
    messages: Seq<Message>,
    message: Message,
)
    ensures
        offer_all(queue, capacity, messages.push(message)) == offer(
            offer_all(queue, capacity, messages),
            capacity,
            message,
        ),
    decreases messages.len(),
{
    let snoc = messages.push(message);
    if messages.len() == 0 {
        assert(snoc[0] == message);
        assert(snoc.drop_first() =~= Seq::<Message>::empty());
        assert(offer_all(queue, capacity, snoc) == offer_all(
            offer(queue, capacity, message),
            capacity,
            snoc.drop_first(),
        ));
    } else {
        assert(snoc[0] == messages[0]);
        assert(snoc.drop_first() =~= messages.drop_first().push(message));
        lemma_offer_all_snoc(
            offer(queue, capacity, messages[0]),
            capacity,
            messages.drop_first(),
            message,
        );
    }
}

/// When the batch fits, nothing is dropped: the queue after is exactly the
/// queue before with the whole batch appended.
pub proof fn lemma_offer_all_no_drop(queue: Seq<Message>, capacity: int, messages: Seq<Message>)
    requires
        queue.len() + messages.len() <= capacity,
    ensures
        offer_all(queue, capacity, messages) == queue + messages,
    decreases messages.len(),
{
    if messages.len() == 0 {
        assert(queue + messages =~= queue);
    } else {
        assert(queue.len() < capacity);
        lemma_offer_all_no_drop(queue.push(messages[0]), capacity, messages.drop_first());
        assert(queue.push(messages[0]) + messages.drop_first() =~= queue + messages);
    }
}

/// Offering a batch never removes anything: the queue before stays a prefix,
/// so a quit request already queued survives every later offer.
pub proof fn lemma_offer_all_keeps_prefix(
    queue: Seq<Message>,
    capacity: int,
    messages: Seq<Message>,
)
    ensures
        offer_all(queue, capacity, messages).len() >= queue.len(),
        forall|i: int|
            0 <= i < queue.len() ==> offer_all(queue, capacity, messages)[i] == queue[i],
    decreases messages.len(),
{
    if messages.len() > 0 {
        let stepped = offer(queue, capacity, messages[0]);
        lemma_offer_all_keeps_prefix(stepped, capacity, messages.drop_first());
        assert forall|i: int|
            0 <= i < queue.len() implies offer_all(queue, capacity, messages)[i] == queue[i] by {
            assert(stepped[i] == queue[i]);
            assert(offer_all(stepped, capacity, messages.drop_first())[i] == stepped[i]);
        }
    }
}

} // verus!
