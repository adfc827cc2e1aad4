//! The producer, and the window of messages in flight.

use crate::kafka_handler::messages::KafkaChannelMessage;
use vstd::prelude::*;

verus! {

/// The most messages that may wait for the broker at a time.
pub const MAX_IN_FLIGHT: usize = 1000;

/// What a producer waits for.
#[derive(Clone, Copy, Debug, PartialEq, Eq, Structural)]
pub enum ProducerPhase {
    /// Something to send, a delivery or the shutdown.
    Serve,
    /// The message at hand to be taken over.
    Enqueue,
    /// The deliveries that are left.
    Drain,
    /// Nothing any more.
    Over,
}

/// A producer: what it waits for, and how many messages are on their way.
#[derive(Clone, Copy, Debug, PartialEq, Eq, Structural)]
pub struct Producer {
    pub phase: ProducerPhase,
    pub in_flight: usize,
}

/// What a producer has to do next.
pub enum ProducerAction {
    /// Wait for a delivery alone.
    AwaitDelivery,
    /// Wait for a message, for the shutdown and, where `deliveries` says so, for a
    /// delivery.
    Select { deliveries: bool },
    /// Hand a message over.
    Send(KafkaChannelMessage),
    /// End.
    Finish,
}

/// What happened to a producer.
pub enum ProducerEvent {
    /// There is a message to send.
    Message(KafkaChannelMessage),
    /// There will be no more messages.
    Closed,
    /// The message was taken over.
    Enqueued,
    /// The message was not taken over.
    EnqueueFailed,
    /// It is known what became of a message.
    Delivery,
    /// The shutdown came.
    Shutdown,
}

/// Whether a producer is in order: no more messages are on their way than may be,
/// and there is room for one where one is at hand.
pub open spec fn in_order(state: Producer) -> bool {
    match state.phase {
        ProducerPhase::Serve => state.in_flight <= MAX_IN_FLIGHT,
        ProducerPhase::Enqueue => state.in_flight < MAX_IN_FLIGHT,
        ProducerPhase::Drain => 0 < state.in_flight <= MAX_IN_FLIGHT,
        ProducerPhase::Over => state.in_flight == 0,
    }
}

/// Whether an event can happen to a producer. While too many messages are on
/// their way it takes no new ones and does not see the shutdown.
pub open spec fn producer_fits(state: Producer, event: ProducerEvent) -> bool {
    match (state.phase, event) {
        (ProducerPhase::Serve, ProducerEvent::Delivery) => state.in_flight > 0,
        (ProducerPhase::Serve, ProducerEvent::Message(_)) => state.in_flight < MAX_IN_FLIGHT,
        (ProducerPhase::Serve, ProducerEvent::Closed) => state.in_flight < MAX_IN_FLIGHT,
        (ProducerPhase::Serve, ProducerEvent::Shutdown) => state.in_flight < MAX_IN_FLIGHT,
        (ProducerPhase::Enqueue, ProducerEvent::Enqueued) => true,
        (ProducerPhase::Enqueue, ProducerEvent::EnqueueFailed) => true,
        (ProducerPhase::Drain, ProducerEvent::Delivery) => true,
        _ => false,
    }
}

/// The state of a producer that serves.
pub open spec fn serving(in_flight: int) -> (Producer, ProducerAction) {
    (
        Producer { phase: ProducerPhase::Serve, in_flight: in_flight as usize },
        if in_flight >= MAX_IN_FLIGHT {
            ProducerAction::AwaitDelivery
        } else {
            ProducerAction::Select { deliveries: in_flight > 0 }
        },
    )
}

/// The state of a producer that waits for the deliveries that are left.
pub open spec fn draining(in_flight: int) -> (Producer, ProducerAction) {
    if in_flight > 0 {
        (
            Producer { phase: ProducerPhase::Drain, in_flight: in_flight as usize },
            ProducerAction::AwaitDelivery,
        )
    } else {
        (Producer { phase: ProducerPhase::Over, in_flight: 0 }, ProducerAction::Finish)
    }
}

/// How a producer goes on.
pub open spec fn producer_next(state: Producer, event: ProducerEvent) -> (
    Producer,
    ProducerAction,
) {
    match (state.phase, event) {
        (ProducerPhase::Serve, ProducerEvent::Message(message)) => (
            (Producer { phase: ProducerPhase::Enqueue, in_flight: state.in_flight }),
            ProducerAction::Send(message),
        ),
        (ProducerPhase::Serve, ProducerEvent::Delivery) => serving(state.in_flight - 1),
        (ProducerPhase::Serve, _) => draining(state.in_flight as int),
        (ProducerPhase::Enqueue, ProducerEvent::Enqueued) => serving(state.in_flight + 1),
        (ProducerPhase::Enqueue, _) => serving(state.in_flight as int),
        _ => draining(state.in_flight - 1),
    }
}

/// The next action of a producer that serves.
fn serve(in_flight: usize) -> (next: (Producer, ProducerAction))
    ensures
        next == serving(in_flight as int),
{
    let action = if in_flight >= MAX_IN_FLIGHT {
        ProducerAction::AwaitDelivery
    } else {
        ProducerAction::Select { deliveries: in_flight > 0 }
    };
    (Producer { phase: ProducerPhase::Serve, in_flight }, action)
}

/// The next action of a producer that waits for the deliveries that are left.
fn drain(in_flight: usize) -> (next: (Producer, ProducerAction))
    ensures
        next == draining(in_flight as int),
{
    if in_flight > 0 {
        (Producer { phase: ProducerPhase::Drain, in_flight }, ProducerAction::AwaitDelivery)
    } else {
        (Producer { phase: ProducerPhase::Over, in_flight: 0 }, ProducerAction::Finish)
    }
}

/// A producer that starts to serve.
pub fn init_kafka_producer() -> (begun: (Producer, ProducerAction))
    ensures
        begun == serving(0),
        in_order(begun.0),
{
    serve(0)
}

impl Producer {
    /// Goes on when something happened.
    pub fn step(&mut self, event: ProducerEvent) -> (action: ProducerAction)
        requires
            in_order(*old(self)),
            producer_fits(*old(self), event),
        ensures
            (*final(self), action) == producer_next(*old(self), event),
            in_order(*final(self)),
    {
        let in_flight: usize = self.in_flight;
        let next = match self.phase {
            ProducerPhase::Serve => match event {
                ProducerEvent::Message(message) => (
                    Producer { phase: ProducerPhase::Enqueue, in_flight },
                    ProducerAction::Send(message),
                ),
                ProducerEvent::Delivery => serve(in_flight - 1),
                _ => drain(in_flight),
            },
            ProducerPhase::Enqueue => match event {
                ProducerEvent::Enqueued => serve(in_flight + 1),
                _ => serve(in_flight),
            },
            _ => drain(in_flight - 1),
        };
        *self = next.0;
        next.1
    }
}

/// A producer after a history of events.
pub open spec fn producer_after(events: Seq<ProducerEvent>) -> (Producer, ProducerAction)
    decreases events.len(),
{
    if events.len() == 0 {
        serving(0)
    } else {
        producer_next(producer_after(events.drop_last()).0, events.last())
    }
}

/// Whether a history of events can happen to a producer.
pub open spec fn producer_possible(events: Seq<ProducerEvent>) -> bool
    decreases events.len(),
{
    events.len() > 0 ==> producer_possible(events.drop_last()) && producer_fits(
        producer_after(events.drop_last()).0,
        events.last(),
    )
}

/// How many messages were taken over.
pub open spec fn enqueued(events: Seq<ProducerEvent>) -> int
    decreases events.len(),
{
    if events.len() == 0 {
        0
    } else {
        enqueued(events.drop_last()) + (if events.last() is Enqueued {
            1int
        } else {
            0
        })
    }
}

/// Of how many messages it became known what became of them.
pub open spec fn settled(events: Seq<ProducerEvent>) -> int
    decreases events.len(),
{
    if events.len() == 0 {
        0
    } else {
        settled(events.drop_last()) + (if events.last() is Delivery {
            1int
        } else {
            0
        })
    }
}

/// At most a fixed number of messages is on its way at any time: those that were
/// taken over and of which it is not known what became of them.
pub proof fn window_is_kept(events: Seq<ProducerEvent>)
    requires
        producer_possible(events),
    ensures
        in_order(producer_after(events).0),
        producer_after(events).0.in_flight == enqueued(events) - settled(events),
        0 <= enqueued(events) - settled(events) <= MAX_IN_FLIGHT,
    decreases events.len(),
{
    if events.len() > 0 {
        window_is_kept(events.drop_last());
    }
}

/// A producer does not end before it is known of every message that was taken
/// over what became of it.
pub proof fn nothing_in_flight_is_left_behind(events: Seq<ProducerEvent>)
    requires
        producer_possible(events),
        producer_after(events).1 is Finish,
    ensures
        enqueued(events) == settled(events),
{
    window_is_kept(events);
    if events.len() > 0 {
        window_is_kept(events.drop_last());
    }
}

/// A message is sent as it came, and counts as under way once it is enqueued, and
/// until its delivery is reported.
pub proof fn messages_are_sent_as_they_come(state: Producer, message: KafkaChannelMessage)
    requires
        in_order(state),
    ensures
        MAX_IN_FLIGHT == 1000,
        state.phase == ProducerPhase::Serve ==> producer_next(
            state,
            ProducerEvent::Message(message),
        ) == (
            Producer { phase: ProducerPhase::Enqueue, in_flight: state.in_flight },
            ProducerAction::Send(message),
        ),
        state.phase == ProducerPhase::Enqueue ==> {
            let next = producer_next(state, ProducerEvent::Enqueued);
            &&& next.0 == (Producer {
                phase: ProducerPhase::Serve,
                in_flight: (state.in_flight + 1) as usize,
            })
            &&& state.in_flight + 1 == 1000 ==> next.1 == ProducerAction::AwaitDelivery
            &&& state.in_flight + 1 < 1000 ==> next.1 == (ProducerAction::Select {
                deliveries: true,
            })
        },
        state.phase == ProducerPhase::Enqueue ==> producer_next(
            state,
            ProducerEvent::EnqueueFailed,
        ) == (
            Producer { phase: ProducerPhase::Serve, in_flight: state.in_flight },
            ProducerAction::Select { deliveries: state.in_flight > 0 },
        ),
        state.phase == ProducerPhase::Serve && state.in_flight > 0 ==> producer_next(
            state,
            ProducerEvent::Delivery,
        ) == (
            Producer { phase: ProducerPhase::Serve, in_flight: (state.in_flight - 1) as usize },
            ProducerAction::Select { deliveries: state.in_flight > 1 },
        ),
{
}

/// When the messages end or the shutdown comes, the producer waits for what is
/// under way, one delivery at a time, and for nothing else.
pub proof fn producer_waits_for_what_is_under_way(state: Producer)
    requires
        in_order(state),
    ensures
        state.phase == ProducerPhase::Serve ==> producer_next(state, ProducerEvent::Shutdown)
            == producer_next(state, ProducerEvent::Closed),
        state.phase == ProducerPhase::Serve && state.in_flight == 0 ==> producer_next(
            state,
            ProducerEvent::Closed,
        ) == (Producer { phase: ProducerPhase::Over, in_flight: 0 }, ProducerAction::Finish),
        state.phase == ProducerPhase::Serve && state.in_flight > 0 ==> producer_next(
            state,
            ProducerEvent::Closed,
        ) == (
            Producer { phase: ProducerPhase::Drain, in_flight: state.in_flight },
            ProducerAction::AwaitDelivery,
        ),
        state.phase == ProducerPhase::Drain && state.in_flight > 1 ==> producer_next(
            state,
            ProducerEvent::Delivery,
        ) == (
            Producer { phase: ProducerPhase::Drain, in_flight: (state.in_flight - 1) as usize },
            ProducerAction::AwaitDelivery,
        ),
        state.phase == ProducerPhase::Drain && state.in_flight == 1 ==> producer_next(
            state,
            ProducerEvent::Delivery,
        ) == (Producer { phase: ProducerPhase::Over, in_flight: 0 }, ProducerAction::Finish),
{
}

} // verus!
