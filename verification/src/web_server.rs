//! The answers of the web server.

use crate::kafka_handler::messages::KafkaChannelMessage;
use vstd::prelude::*;

verus! {

/// The answer to `GET /`, and the message that is sent to the broker first.
pub fn hello() -> (answer: (String, KafkaChannelMessage))
    ensures
        answer.0@ == "Hello world!"@,
        answer.1.sender@ == "base_endpoint"@,
        answer.1.content@ == "Hello world!"@,
        answer.1.topic@ == "ninoverse"@,
{
    (
        "Hello world!".to_owned(),
        KafkaChannelMessage {
            sender: "base_endpoint".to_owned(),
            content: "Hello world!".to_owned(),
            topic: "ninoverse".to_owned(),
        },
    )
}

/// The answer to `POST /echo`: the body that came.
pub fn echo(req_body: String) -> (answer: String)
    ensures
        answer@ == req_body@,
{
    req_body
}

/// The answer to `GET /hey`.
pub fn manual_hello() -> (answer: String)
    ensures
        answer@ == "Hey there!"@,
{
    "Hey there!".to_owned()
}

} // verus!
