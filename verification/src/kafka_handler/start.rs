//! The start of the broker tasks.

use crate::orchestrator::error::{CoreError, CoreErrorView, KafkaError, KafkaErrorView};
use crate::orchestrator::error;
use vstd::prelude::*;

verus! {

/// What the work with the broker waits for.
#[derive(Clone, Copy, Debug, PartialEq, Eq, Structural)]
pub enum KafkaPhase {
    AdminClient,
    Topics,
    Tasks,
    Over,
}

/// What to do next with the broker.
pub enum KafkaAction {
    /// Create the client that creates topics.
    CreateAdminClient,
    /// Create the topics, unless the shutdown comes first.
    CreateTopics,
    /// Start the consumer and the producer, and wait for both.
    RunTasks,
    /// End.
    Finish(Result<(), CoreError>),
}

/// The contents of a `KafkaAction`.
#[verifier::ext_equal]
pub enum KafkaActionView {
    CreateAdminClient,
    CreateTopics,
    RunTasks,
    Finish(Option<CoreErrorView>),
}

impl View for KafkaAction {
    type V = KafkaActionView;

    open spec fn view(&self) -> KafkaActionView {
        match self {
            KafkaAction::CreateAdminClient => KafkaActionView::CreateAdminClient,
            KafkaAction::CreateTopics => KafkaActionView::CreateTopics,
            KafkaAction::RunTasks => KafkaActionView::RunTasks,
            KafkaAction::Finish(result) => KafkaActionView::Finish(error::outcome(*result)),
        }
    }
}

/// What happened with the broker.
pub enum KafkaEvent {
    /// The client exists, or the library gave an error.
    AdminClient(Result<(), String>),
    /// The creation of the topics ended.
    Topics(Result<(), KafkaError>),
    /// The shutdown came.
    Shutdown,
    /// The consumer and the producer ended.
    Ended { consumer: Result<(), KafkaError>, producer: Result<(), KafkaError> },
    /// One of them could not be joined.
    NotJoined(String),
}

/// The contents of a `KafkaEvent`.
#[verifier::ext_equal]
pub enum KafkaEventView {
    AdminClient(Option<Seq<char>>),
    Topics(Option<KafkaErrorView>),
    Shutdown,
    Ended { consumer: Option<KafkaErrorView>, producer: Option<KafkaErrorView> },
    NotJoined(Seq<char>),
}

impl View for KafkaEvent {
    type V = KafkaEventView;

    open spec fn view(&self) -> KafkaEventView {
        match self {
            KafkaEvent::AdminClient(Ok(_)) => KafkaEventView::AdminClient(None),
            KafkaEvent::AdminClient(Err(error)) => KafkaEventView::AdminClient(Some(error@)),
            KafkaEvent::Topics(result) => KafkaEventView::Topics(error::kafka_outcome(*result)),
            KafkaEvent::Shutdown => KafkaEventView::Shutdown,
            KafkaEvent::Ended { consumer, producer } => KafkaEventView::Ended {
                consumer: error::kafka_outcome(*consumer),
                producer: error::kafka_outcome(*producer),
            },
            KafkaEvent::NotJoined(error) => KafkaEventView::NotJoined(error@),
        }
    }
}

/// Whether an event can come in a phase.
pub open spec fn kafka_fits(phase: KafkaPhase, event: KafkaEventView) -> bool {
    match phase {
        KafkaPhase::AdminClient => event is AdminClient,
        KafkaPhase::Topics => event is Topics || event is Shutdown,
        KafkaPhase::Tasks => event is Ended || event is NotJoined,
        KafkaPhase::Over => false,
    }
}

/// An end with an error of the broker, or without one.
pub open spec fn over(error: Option<KafkaErrorView>) -> (KafkaPhase, KafkaActionView) {
    (
        KafkaPhase::Over,
        KafkaActionView::Finish(
            match error {
                Some(kafka) => Some(CoreErrorView::Kafka(kafka)),
                None => None,
            },
        ),
    )
}

/// How the work with the broker goes on. The error of the consumer comes before
/// that of the producer.
pub open spec fn kafka_next(event: KafkaEventView) -> (KafkaPhase, KafkaActionView) {
    match event {
        KafkaEventView::AdminClient(None) => (KafkaPhase::Topics, KafkaActionView::CreateTopics),
        KafkaEventView::AdminClient(Some(error)) => over(Some(KafkaErrorView::RDKafka(error))),
        KafkaEventView::Topics(None) => (KafkaPhase::Tasks, KafkaActionView::RunTasks),
        KafkaEventView::Topics(Some(error)) => over(Some(error)),
        KafkaEventView::Shutdown => over(None),
        KafkaEventView::Ended { consumer, producer } => over(
            if consumer is Some {
                consumer
            } else {
                producer
            },
        ),
        KafkaEventView::NotJoined(error) => (
            KafkaPhase::Over,
            KafkaActionView::Finish(Some(CoreErrorView::Join(error))),
        ),
    }
}

/// Begins the work with the broker.
pub fn init_kafka() -> (begun: (KafkaPhase, KafkaAction))
    ensures
        begun.0 == KafkaPhase::AdminClient,
        begun.1@ == KafkaActionView::CreateAdminClient,
{
    (KafkaPhase::AdminClient, KafkaAction::CreateAdminClient)
}

/// Goes on with the work with the broker.
pub fn init_kafka_next(phase: KafkaPhase, event: KafkaEvent) -> (next: (KafkaPhase, KafkaAction))
    requires
        kafka_fits(phase, event@),
    ensures
        (next.0, next.1@) == kafka_next(event@),
{
    match event {
        KafkaEvent::AdminClient(Ok(_)) => (KafkaPhase::Topics, KafkaAction::CreateTopics),
        KafkaEvent::AdminClient(Err(error)) => (
            KafkaPhase::Over,
            KafkaAction::Finish(Err(CoreError::Kafka(KafkaError::RDKafka(error)))),
        ),
        KafkaEvent::Topics(Ok(_)) => (KafkaPhase::Tasks, KafkaAction::RunTasks),
        KafkaEvent::Topics(Err(error)) => (
            KafkaPhase::Over,
            KafkaAction::Finish(Err(CoreError::Kafka(error))),
        ),
        KafkaEvent::Shutdown => (KafkaPhase::Over, KafkaAction::Finish(Ok(()))),
        KafkaEvent::Ended { consumer, producer } => {
            let result = match consumer {
                Err(error) => Err(CoreError::Kafka(error)),
                Ok(_) => match producer {
                    Err(error) => Err(CoreError::Kafka(error)),
                    Ok(_) => Ok(()),
                },
            };
            (KafkaPhase::Over, KafkaAction::Finish(result))
        },
        KafkaEvent::NotJoined(error) => (
            KafkaPhase::Over,
            KafkaAction::Finish(Err(CoreError::Join(error))),
        ),
    }
}

/// Kafka starts step by step: the topics are made once there is a client, and the
/// tasks run once there are topics.
pub proof fn kafka_starts_step_by_step()
    ensures
        kafka_next(KafkaEventView::AdminClient(None)) == (
            KafkaPhase::Topics,
            KafkaActionView::CreateTopics,
        ),
        kafka_next(KafkaEventView::Topics(None)) == (KafkaPhase::Tasks, KafkaActionView::RunTasks),
        kafka_next(KafkaEventView::Shutdown) == (KafkaPhase::Over, KafkaActionView::Finish(None)),
{
}

/// What fails ends it, and is told: of two tasks that failed the consumer, and the
/// producer where only that one did.
pub proof fn kafka_ends_with_what_failed(
    text: Seq<char>,
    error: KafkaErrorView,
    other: Option<KafkaErrorView>,
)
    ensures
        kafka_next(KafkaEventView::AdminClient(Some(text))) == (
            KafkaPhase::Over,
            KafkaActionView::Finish(Some(CoreErrorView::Kafka(KafkaErrorView::RDKafka(text)))),
        ),
        kafka_next(KafkaEventView::Topics(Some(error))) == (
            KafkaPhase::Over,
            KafkaActionView::Finish(Some(CoreErrorView::Kafka(error))),
        ),
        kafka_next(KafkaEventView::Ended { consumer: Some(error), producer: other }) == (
            KafkaPhase::Over,
            KafkaActionView::Finish(Some(CoreErrorView::Kafka(error))),
        ),
        kafka_next(KafkaEventView::Ended { consumer: None, producer: Some(error) }) == (
            KafkaPhase::Over,
            KafkaActionView::Finish(Some(CoreErrorView::Kafka(error))),
        ),
        kafka_next(KafkaEventView::Ended { consumer: None, producer: None }) == (
            KafkaPhase::Over,
            KafkaActionView::Finish(None),
        ),
        kafka_next(KafkaEventView::NotJoined(text)) == (
            KafkaPhase::Over,
            KafkaActionView::Finish(Some(CoreErrorView::Join(text))),
        ),
{
}

/// What came of a step is told as it came.
pub proof fn kafka_events_are_told_as_they_came(
    text: String,
    error: KafkaError,
    consumer: Result<(), KafkaError>,
    producer: Result<(), KafkaError>,
)
    ensures
        KafkaEvent::AdminClient(Ok(()))@ == KafkaEventView::AdminClient(None),
        KafkaEvent::AdminClient(Err(text))@ == KafkaEventView::AdminClient(Some(text@)),
        KafkaEvent::Topics(Ok(()))@ == KafkaEventView::Topics(None),
        KafkaEvent::Topics(Err(error))@ == KafkaEventView::Topics(Some(error@)),
        KafkaEvent::NotJoined(text)@ == KafkaEventView::NotJoined(text@),
        (KafkaEvent::Ended { consumer, producer })@ == (KafkaEventView::Ended {
            consumer: error::kafka_outcome(consumer),
            producer: error::kafka_outcome(producer),
        }),
{
}

} // verus!
