//! Messages, and the lines that tell of them.

use crate::decode::decode_lossy;
use crate::decode;
use crate::numbers::format_i64;
use crate::numbers;
use crate::text::{cat3, cat4, cat5};
use crate::text;
use vstd::prelude::*;

verus! {

/// The context that clients of the broker are created with.
pub struct KafkaBrokerContext {}

/// A message that waits to be sent to the broker.
pub struct KafkaChannelMessage {
    pub topic: String,
    pub sender: String,
    pub content: String,
}

/// A message that came from the broker.
pub struct ReceivedMessage {
    pub topic: String,
    pub partition: i32,
    pub offset: i64,
    pub key: Option<Vec<u8>>,
    pub timestamp_millis: Option<i64>,
    pub payload: Option<Vec<u8>>,
}

/// The time that a number of milliseconds since 1970 stands for, written out,
/// where there is such a time.
pub uninterp spec fn time_text(millis: i64) -> Option<Seq<char>>;

/// `chrono::DateTime::from_timestamp_millis`, and `to_string` on the result. Both
/// depend on the number alone: the time is in UTC. Which numbers are times and
/// how these are written is left to the name `time_text`.
#[verifier::external_body]
pub(crate) fn show_time(millis: i64) -> (shown: Option<String>)
    ensures
        match shown {
            Some(text) => time_text(millis) == Some(text@),
            None => time_text(millis) is None,
        },
{
    chrono::DateTime::from_timestamp_millis(millis).map(|time| time.to_string())
}

/// The text of bytes that may be missing.
pub open spec fn bytes_text(bytes: Option<Vec<u8>>) -> Seq<char> {
    match bytes {
        Some(found) => decode::lossy_text(found@),
        None => Seq::empty(),
    }
}

/// Reads bytes that may be missing as a text.
fn read_bytes(bytes: &Option<Vec<u8>>) -> (text: String)
    ensures
        text@ == bytes_text(*bytes),
{
    match bytes {
        Some(found) => decode_lossy(found.as_slice()),
        None => String::new(),
    }
}

/// The line that logs a message, given the texts of its key, of its time and of
/// its payload. What has no time is from the beginning of 1970.
pub open spec fn line_of(
    message: ReceivedMessage,
    key: Seq<char>,
    time: Option<Seq<char>>,
    payload: Seq<char>,
) -> Seq<char> {
    let shown = match time {
        Some(text) => text,
        None => "1970-01-01 00:00:00 UTC"@,
    };
    message.topic@ + ":"@ + numbers::decimal(message.partition as int) + "/"@ + (numbers::decimal(
        message.offset as int,
    ) + "/"@ + key + "/"@ + (shown + ": "@ + payload))
}

/// Writes the line that logs a message.
pub fn message_line(
    message: &ReceivedMessage,
    key: &str,
    time: Option<String>,
    payload: &str,
) -> (line: String)
    ensures
        line@ == line_of(*message, key@, text::opt_text(time), payload@),
{
    let shown = match time {
        Some(text) => text,
        None => "1970-01-01 00:00:00 UTC".to_owned(),
    };
    let end = cat3(&shown, ": ", payload);
    let tail = cat5(&format_i64(message.offset), "/", key, "/", &end);
    cat5(&message.topic, ":", &format_i64(message.partition as i64), "/", &tail)
}

/// The milliseconds of a message: zero where it has none.
pub open spec fn millis_of(message: ReceivedMessage) -> i64 {
    match message.timestamp_millis {
        Some(millis) => millis,
        None => 0,
    }
}

/// The line that logs a message.
pub fn log_kafka_message(message: &ReceivedMessage) -> (line: String)
    ensures
        line@ == line_of(
            *message,
            bytes_text(message.key),
            time_text(millis_of(*message)),
            bytes_text(message.payload),
        ),
{
    let key = read_bytes(&message.key);
    let payload = read_bytes(&message.payload);
    let millis: i64 = match message.timestamp_millis {
        Some(millis) => millis,
        None => 0,
    };
    message_line(message, &key, show_time(millis), &payload)
}

/// What became of a message that was handed to the producer.
pub enum DeliveryOutcome {
    /// The broker has it.
    Delivered,
    /// The broker refused it. The error is written out, and the key of the message
    /// comes back.
    Refused { error: String, key: Option<Vec<u8>> },
    /// Nobody will tell.
    Dropped,
}

/// The line that logs what became of a message. What was delivered needs none.
pub open spec fn outcome_line(outcome: DeliveryOutcome) -> Option<Seq<char>> {
    match outcome {
        DeliveryOutcome::Delivered => None,
        DeliveryOutcome::Refused { error, key } => Some(
            "Delivery failed (key '"@ + bytes_text(key) + "'): "@ + error@,
        ),
        DeliveryOutcome::Dropped => Some("Delivery report dropped before completion"@),
    }
}

/// The line that logs what became of a message.
pub fn log_delivery_outcome(outcome: &DeliveryOutcome) -> (line: Option<String>)
    ensures
        text::opt_text(line) == outcome_line(*outcome),
{
    match outcome {
        DeliveryOutcome::Delivered => None,
        DeliveryOutcome::Refused { error, key } => {
            let shown = read_bytes(key);
            Some(cat4("Delivery failed (key '", &shown, "'): ", error))
        },
        DeliveryOutcome::Dropped => {
            Some("Delivery report dropped before completion".to_owned())
        },
    }
}

/// What a consumer saw.
pub enum ConsumerEvent {
    Message(ReceivedMessage),
    StreamError,
    Shutdown,
}

/// What a consumer has to do next.
pub enum ConsumerAction {
    /// Log a line, and go on.
    Log(String),
    /// Go on.
    Continue,
    /// End.
    Stop,
}

/// What a consumer does with what it saw: an error of the stream does not end
/// it, only the shutdown does.
pub fn consumer_action(event: &ConsumerEvent) -> (action: ConsumerAction)
    ensures
        match event {
            ConsumerEvent::Message(message) => action matches ConsumerAction::Log(line) && line@
                == line_of(
                *message,
                bytes_text(message.key),
                time_text(millis_of(*message)),
                bytes_text(message.payload),
            ),
            ConsumerEvent::StreamError => action is Continue,
            ConsumerEvent::Shutdown => action is Stop,
        },
{
    match event {
        ConsumerEvent::Message(message) => ConsumerAction::Log(log_kafka_message(message)),
        ConsumerEvent::StreamError => ConsumerAction::Continue,
        ConsumerEvent::Shutdown => ConsumerAction::Stop,
    }
}

/// A message is logged with where it stands, its key, its time and what it says, in
/// this order; without a time it is logged under the beginning of the epoch.
pub proof fn message_is_logged_with_where_it_stands(
    message: ReceivedMessage,
    key: Seq<char>,
    time: Seq<char>,
    payload: Seq<char>,
)
    ensures
        line_of(message, key, Some(time), payload) == message.topic@ + ":"@ + numbers::decimal(
            message.partition as int,
        ) + "/"@ + numbers::decimal(message.offset as int) + "/"@ + key + "/"@ + time + ": "@
            + payload,
        line_of(message, key, None, payload) == message.topic@ + ":"@ + numbers::decimal(
            message.partition as int,
        ) + "/"@ + numbers::decimal(message.offset as int) + "/"@ + key + "/"@
            + "1970-01-01 00:00:00 UTC"@ + ": "@ + payload,
        message.timestamp_millis is None ==> millis_of(message) == 0,
        message.timestamp_millis is Some ==> millis_of(message) == message.timestamp_millis->0,
{
    assert(line_of(message, key, Some(time), payload) =~= message.topic@ + ":"@
        + numbers::decimal(message.partition as int) + "/"@ + numbers::decimal(
        message.offset as int,
    ) + "/"@ + key + "/"@ + time + ": "@ + payload);
    assert(line_of(message, key, None, payload) =~= message.topic@ + ":"@ + numbers::decimal(
        message.partition as int,
    ) + "/"@ + numbers::decimal(message.offset as int) + "/"@ + key + "/"@
        + "1970-01-01 00:00:00 UTC"@ + ": "@ + payload);
}

/// Only a message that was not delivered is told of, with its key, where it has
/// one, and the reason.
pub proof fn only_lost_messages_are_told_of(error: String, key: Vec<u8>)
    ensures
        outcome_line(DeliveryOutcome::Delivered) is None,
        outcome_line(DeliveryOutcome::Refused { error, key: Some(key) }) == Some(
            "Delivery failed (key '"@ + decode::lossy_text(key@) + "'): "@ + error@,
        ),
        outcome_line(DeliveryOutcome::Refused { error, key: None }) == Some(
            "Delivery failed (key '"@ + "'): "@ + error@,
        ),
        outcome_line(DeliveryOutcome::Dropped) == Some(
            "Delivery report dropped before completion"@,
        ),
{
    assert("Delivery failed (key '"@ + Seq::<char>::empty() =~= "Delivery failed (key '"@);
}

} // verus!
