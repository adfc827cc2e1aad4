//! What can go wrong with the core program.

use crate::docker::definitions::{DockerErrorView, DockerModuleError};
use crate::text::cat2;
use vstd::prelude::*;

verus! {

/// Why the message broker could not be used.
#[derive(Debug)]
pub enum KafkaError {
    RDKafka(String),
    ErrorCode(String),
    NoTopicInConfiguration,
}

/// The contents of a `KafkaError`.
#[verifier::ext_equal]
pub enum KafkaErrorView {
    RDKafka(Seq<char>),
    ErrorCode(Seq<char>),
    NoTopicInConfiguration,
}

impl View for KafkaError {
    type V = KafkaErrorView;

    open spec fn view(&self) -> KafkaErrorView {
        match self {
            KafkaError::RDKafka(t) => KafkaErrorView::RDKafka(t@),
            KafkaError::ErrorCode(t) => KafkaErrorView::ErrorCode(t@),
            KafkaError::NoTopicInConfiguration => KafkaErrorView::NoTopicInConfiguration,
        }
    }
}

impl KafkaErrorView {
    /// The text that describes the error.
    pub open spec fn description(self) -> Seq<char> {
        match self {
            KafkaErrorView::RDKafka(t) => "Kafka library: "@ + t,
            KafkaErrorView::ErrorCode(t) => "Kafka error code: "@ + t,
            KafkaErrorView::NoTopicInConfiguration => "No topic configured"@,
        }
    }
}

impl KafkaError {
    /// Describes the error.
    pub fn message(&self) -> (text: String)
        ensures
            text@ == self@.description(),
    {
        match self {
            KafkaError::RDKafka(t) => cat2("Kafka library: ", t),
            KafkaError::ErrorCode(t) => cat2("Kafka error code: ", t),
            KafkaError::NoTopicInConfiguration => "No topic configured".to_owned(),
        }
    }
}

/// Why the program ended.
#[derive(Debug)]
pub enum CoreError {
    Configuration(String),
    Docker(DockerModuleError),
    Database(String),
    Kafka(KafkaError),
    WebServer(String),
    Join(String),
}

/// The contents of a `CoreError`.
#[verifier::ext_equal]
pub enum CoreErrorView {
    Configuration(Seq<char>),
    Docker(DockerErrorView),
    Database(Seq<char>),
    Kafka(KafkaErrorView),
    WebServer(Seq<char>),
    Join(Seq<char>),
}

impl View for CoreError {
    type V = CoreErrorView;

    open spec fn view(&self) -> CoreErrorView {
        match self {
            CoreError::Configuration(t) => CoreErrorView::Configuration(t@),
            CoreError::Docker(error) => CoreErrorView::Docker(error@),
            CoreError::Database(t) => CoreErrorView::Database(t@),
            CoreError::Kafka(error) => CoreErrorView::Kafka(error@),
            CoreError::WebServer(t) => CoreErrorView::WebServer(t@),
            CoreError::Join(t) => CoreErrorView::Join(t@),
        }
    }
}

impl CoreErrorView {
    /// The text that describes the error. Errors of the containers and of the
    /// message broker speak for themselves.
    pub open spec fn description(self) -> Seq<char> {
        match self {
            CoreErrorView::Configuration(t) => "Configuration: "@ + t,
            CoreErrorView::Docker(error) => error.description(),
            CoreErrorView::Database(t) => "Database: "@ + t,
            CoreErrorView::Kafka(error) => error.description(),
            CoreErrorView::WebServer(t) => "HTTP server: "@ + t,
            CoreErrorView::Join(t) => "Task join: "@ + t,
        }
    }
}

impl CoreError {
    /// Describes the error.
    pub fn message(&self) -> (text: String)
        ensures
            text@ == self@.description(),
    {
        match self {
            CoreError::Configuration(t) => cat2("Configuration: ", t),
            CoreError::Docker(error) => error.message(),
            CoreError::Database(t) => cat2("Database: ", t),
            CoreError::Kafka(error) => error.message(),
            CoreError::WebServer(t) => cat2("HTTP server: ", t),
            CoreError::Join(t) => cat2("Task join: ", t),
        }
    }
}

/// How a piece of work ended.
pub open spec fn outcome(result: Result<(), CoreError>) -> Option<CoreErrorView> {
    match result {
        Ok(_) => None,
        Err(error) => Some(error@),
    }
}

/// How a piece of work with the message broker ended.
pub open spec fn kafka_outcome(result: Result<(), KafkaError>) -> Option<KafkaErrorView> {
    match result {
        Ok(_) => None,
        Err(error) => Some(error@),
    }
}

/// Every error says which part of the program it comes from, and what that part
/// said.
pub proof fn core_errors_say_where_they_come_from(
    text: Seq<char>,
    docker: DockerErrorView,
    kafka: KafkaErrorView,
)
    ensures
        KafkaErrorView::RDKafka(text).description() == "Kafka library: "@ + text,
        KafkaErrorView::ErrorCode(text).description() == "Kafka error code: "@ + text,
        KafkaErrorView::NoTopicInConfiguration.description() == "No topic configured"@,
        CoreErrorView::Configuration(text).description() == "Configuration: "@ + text,
        CoreErrorView::Docker(docker).description() == docker.description(),
        CoreErrorView::Database(text).description() == "Database: "@ + text,
        CoreErrorView::Kafka(kafka).description() == kafka.description(),
        CoreErrorView::WebServer(text).description() == "HTTP server: "@ + text,
        CoreErrorView::Join(text).description() == "Task join: "@ + text,
{
}

/// No error is lost: a result that failed is told by its error, and only one that
/// succeeded by none.
pub proof fn no_error_is_lost(result: Result<(), CoreError>, kafka: Result<(), KafkaError>)
    ensures
        outcome(result) is None <==> result is Ok,
        result matches Err(error) ==> outcome(result) == Some(error@),
        kafka_outcome(kafka) is None <==> kafka is Ok,
        kafka matches Err(error) ==> kafka_outcome(kafka) == Some(error@),
{
}

} // verus!
