//! Settings and topics of the message broker.

use crate::configuration::{KafkaBrokerConfiguration, KafkaTopic};
use crate::orchestrator::error::{KafkaError, KafkaErrorView};
use crate::orchestrator::error;
use crate::text;
use vstd::prelude::*;

verus! {

/// The outside type `rdkafka::ClientConfig`.
#[verifier::external_type_specification]
#[verifier::external_body]
pub struct ExClientConfig(rdkafka::ClientConfig);

/// The settings that an `rdkafka::ClientConfig` holds.
pub uninterp spec fn settings(config: rdkafka::ClientConfig) -> Map<Seq<char>, Seq<char>>;

/// No settings.
pub open spec fn no_settings() -> Map<Seq<char>, Seq<char>> {
    Map::empty()
}

/// `rdkafka::ClientConfig::new`: no settings.
#[verifier::external_body]
fn new_client_config() -> (config: rdkafka::ClientConfig)
    ensures
        settings(config) == no_settings(),
{
    rdkafka::ClientConfig::new()
}

/// `rdkafka::ClientConfig::set`: the setting has the given value, whatever it
/// had before. All others stay.
#[verifier::external_body]
fn set_setting(config: &mut rdkafka::ClientConfig, key: &str, value: &str)
    ensures
        settings(*final(config)) == settings(*old(config)).insert(key@, value@),
{
    config.set(key, value);
}

/// The settings that every client of the broker has.
pub open spec fn base_settings(kafka: KafkaBrokerConfiguration) -> Map<Seq<char>, Seq<char>> {
    map![
        "bootstrap.servers"@ => kafka.broker@,
        "security.protocol"@ => kafka.security_protocol@,
        "sasl.mechanism"@ => kafka.sasl_mechanism@,
        "sasl.username"@ => kafka.sasl_username@,
        "sasl.password"@ => kafka.sasl_password@,
    ]
}

/// The settings of the consumer.
pub open spec fn consumer_settings(kafka: KafkaBrokerConfiguration) -> Map<Seq<char>, Seq<char>> {
    base_settings(kafka).insert("group.id"@, kafka.group_id@).insert(
        "enable.partition.eof"@,
        "false"@,
    ).insert("session.timeout.ms"@, "6000"@).insert("enable.auto.commit"@, "true"@).insert(
        "auto.offset.reset"@,
        "earliest"@,
    )
}

/// The settings of the producer.
pub open spec fn producer_settings(kafka: KafkaBrokerConfiguration) -> Map<Seq<char>, Seq<char>> {
    base_settings(kafka).insert("message.timeout.ms"@, "5000"@).insert(
        "enable.idempotence"@,
        "true"@,
    )
}

/// The settings that every client of the broker is created with.
pub fn base_client_config(kafka: &KafkaBrokerConfiguration) -> (config: rdkafka::ClientConfig)
    ensures
        settings(config) == base_settings(*kafka),
{
    let mut config = new_client_config();
    set_setting(&mut config, "bootstrap.servers", &kafka.broker);
    set_setting(&mut config, "security.protocol", &kafka.security_protocol);
    set_setting(&mut config, "sasl.mechanism", &kafka.sasl_mechanism);
    set_setting(&mut config, "sasl.username", &kafka.sasl_username);
    set_setting(&mut config, "sasl.password", &kafka.sasl_password);
    config
}

/// The settings that the consumer is created with.
pub fn create_kafka_consumer(kafka: &KafkaBrokerConfiguration) -> (config: rdkafka::ClientConfig)
    ensures
        settings(config) == consumer_settings(*kafka),
{
    let mut config = base_client_config(kafka);
    set_setting(&mut config, "group.id", &kafka.group_id);
    set_setting(&mut config, "enable.partition.eof", "false");
    set_setting(&mut config, "session.timeout.ms", "6000");
    set_setting(&mut config, "enable.auto.commit", "true");
    set_setting(&mut config, "auto.offset.reset", "earliest");
    config
}

/// The settings that the producer is created with.
pub fn create_kafka_producer(kafka: &KafkaBrokerConfiguration) -> (config: rdkafka::ClientConfig)
    ensures
        settings(config) == producer_settings(*kafka),
{
    let mut config = base_client_config(kafka);
    set_setting(&mut config, "message.timeout.ms", "5000");
    set_setting(&mut config, "enable.idempotence", "true");
    config
}

/// The names of topics, in order.
pub open spec fn topic_names(topics: Seq<KafkaTopic>) -> Seq<Seq<char>> {
    Seq::new(topics.len(), |i: int| topics[i].name@)
}

/// The topics that the consumer subscribes to: all that are configured. Without
/// any it does not subscribe.
pub fn subscription(kafka: &KafkaBrokerConfiguration) -> (names: Option<Vec<String>>)
    ensures
        names is None <==> kafka.topics@.len() == 0,
        names is Some ==> text::texts(names->0@) == topic_names(kafka.topics@),
{
    if kafka.topics.len() == 0 {
        return None;
    }
    let mut names: Vec<String> = Vec::new();
    for i in 0..kafka.topics.len()
        invariant
            text::texts(names@) == topic_names(kafka.topics@.take(i as int)),
    {
        let ghost before = text::texts(names@);
        names.push(kafka.topics[i].name.clone());
        assert(text::texts(names@) =~= before.push(kafka.topics@[i as int].name@));
        assert(topic_names(kafka.topics@.take(i + 1)) =~= topic_names(
            kafka.topics@.take(i as int),
        ).push(kafka.topics@[i as int].name@));
    }
    assert(kafka.topics@.take(kafka.topics@.len() as int) =~= kafka.topics@);
    Some(names)
}

/// How many copies of a topic the broker keeps.
pub const REPLICATION: i32 = 1;

/// A topic that the broker is asked to create.
pub struct TopicRequest {
    pub name: String,
    pub num_partitions: i32,
    pub replication: i32,
}

/// The contents of a `TopicRequest`.
#[verifier::ext_equal]
pub struct TopicRequestView {
    pub name: Seq<char>,
    pub num_partitions: i32,
    pub replication: i32,
}

impl View for TopicRequest {
    type V = TopicRequestView;

    open spec fn view(&self) -> TopicRequestView {
        TopicRequestView {
            name: self.name@,
            num_partitions: self.num_partitions,
            replication: self.replication,
        }
    }
}

/// The request for a topic.
pub open spec fn request_for(topic: KafkaTopic) -> TopicRequestView {
    TopicRequestView {
        name: topic.name@,
        num_partitions: topic.num_partition,
        replication: REPLICATION,
    }
}

/// The contents of requests.
pub open spec fn requests_view(requests: Seq<TopicRequest>) -> Seq<TopicRequestView> {
    Seq::new(requests.len(), |i: int| requests[i]@)
}

/// The requests for topics, in order.
pub open spec fn requests_for(topics: Seq<KafkaTopic>) -> Seq<TopicRequestView> {
    Seq::new(topics.len(), |i: int| request_for(topics[i]))
}

/// The topics that the broker is asked to create: all that are configured. To
/// configure none is an error.
pub fn init_kafka_topics(kafka: &KafkaBrokerConfiguration) -> (result: Result<
    Vec<TopicRequest>,
    KafkaError,
>)
    ensures
        match result {
            Ok(requests) => kafka.topics@.len() > 0 && requests_view(requests@) == requests_for(
                kafka.topics@,
            ),
            Err(error) => kafka.topics@.len() == 0 && error@
                == KafkaErrorView::NoTopicInConfiguration,
        },
{
    if kafka.topics.len() == 0 {
        return Err(KafkaError::NoTopicInConfiguration);
    }
    let mut requests: Vec<TopicRequest> = Vec::new();
    for i in 0..kafka.topics.len()
        invariant
            requests_view(requests@) == requests_for(kafka.topics@.take(i as int)),
    {
        let ghost before = requests_view(requests@);
        requests.push(
            TopicRequest {
                name: kafka.topics[i].name.clone(),
                num_partitions: kafka.topics[i].num_partition,
                replication: REPLICATION,
            },
        );
        assert(requests_view(requests@) =~= before.push(request_for(kafka.topics@[i as int])));
        assert(requests_for(kafka.topics@.take(i + 1)) =~= before.push(
            request_for(kafka.topics@[i as int]),
        ));
    }
    assert(kafka.topics@.take(kafka.topics@.len() as int) =~= kafka.topics@);
    Ok(requests)
}

/// What became of one topic.
pub enum TopicOutcome {
    Created { topic: String },
    AlreadyExists { topic: String },
    /// The broker answered with an error code, written out.
    Failed { topic: String, code: String },
}

/// The error of the first topic that could not be created. A topic that exists
/// already is none.
pub open spec fn first_failure(outcomes: Seq<TopicOutcome>) -> Option<KafkaErrorView>
    decreases outcomes.len(),
{
    if outcomes.len() == 0 {
        None
    } else if first_failure(outcomes.drop_last()) is Some {
        first_failure(outcomes.drop_last())
    } else {
        match outcomes.last() {
            TopicOutcome::Failed { topic, code } => Some(KafkaErrorView::ErrorCode(code@)),
            _ => None,
        }
    }
}

proof fn lemma_first_failure(outcomes: Seq<TopicOutcome>, upto: int)
    requires
        0 <= upto <= outcomes.len(),
        first_failure(outcomes.take(upto)) is Some,
    ensures
        first_failure(outcomes) == first_failure(outcomes.take(upto)),
    decreases outcomes.len() - upto,
{
    if upto == outcomes.len() {
        assert(outcomes.take(upto) =~= outcomes);
    } else {
        assert(outcomes.take(upto + 1).drop_last() =~= outcomes.take(upto));
        lemma_first_failure(outcomes, upto + 1);
    }
}

/// The result of the creation of topics, given the answer of the broker.
pub fn topics_created(answer: Result<Vec<TopicOutcome>, String>) -> (result: Result<(), KafkaError>)
    ensures
        error::kafka_outcome(result) == (match answer {
            Err(error) => Some(KafkaErrorView::RDKafka(error@)),
            Ok(outcomes) => first_failure(outcomes@),
        }),
{
    let outcomes = match answer {
        Ok(outcomes) => outcomes,
        Err(error) => {
            return Err(KafkaError::RDKafka(error));
        },
    };
    for i in 0..outcomes.len()
        invariant
            answer == Ok::<Vec<TopicOutcome>, String>(outcomes),
            first_failure(outcomes@.take(i as int)) is None,
    {
        assert(outcomes@.take(i + 1).drop_last() =~= outcomes@.take(i as int));
        match &outcomes[i] {
            TopicOutcome::Failed { code, .. } => {
                proof {
                    lemma_first_failure(outcomes@, i + 1);
                }
                return Err(KafkaError::ErrorCode(code.clone()));
            },
            _ => {},
        }
    }
    assert(outcomes@.take(outcomes@.len() as int) =~= outcomes@);
    Ok(())
}

/// Topics can be asked for again: where each was created or exists already,
/// nothing failed.
pub proof fn existing_topics_are_accepted(outcomes: Seq<TopicOutcome>)
    requires
        forall|i: int| 0 <= i < outcomes.len() ==> !(#[trigger] outcomes[i] is Failed),
    ensures
        first_failure(outcomes) is None,
    decreases outcomes.len(),
{
    if outcomes.len() > 0 {
        assert forall|i: int| 0 <= i < outcomes.drop_last().len() implies !(
        #[trigger] outcomes.drop_last()[i] is Failed) by {
            assert(!(outcomes[i] is Failed));
        }
        existing_topics_are_accepted(outcomes.drop_last());
    }
}

proof fn lemma_setting_keys_differ()
    ensures
        "bootstrap.servers"@.len() == 17,
        "security.protocol"@.len() == 17,
        "sasl.mechanism"@.len() == 14,
        "sasl.username"@.len() == 13,
        "sasl.password"@.len() == 13,
        "group.id"@.len() == 8,
        "enable.partition.eof"@.len() == 20,
        "session.timeout.ms"@.len() == 18,
        "enable.auto.commit"@.len() == 18,
        "auto.offset.reset"@.len() == 17,
        "message.timeout.ms"@.len() == 18,
        "enable.idempotence"@.len() == 18,
        "bootstrap.servers"@ != "security.protocol"@,
        "bootstrap.servers"@ != "auto.offset.reset"@,
        "security.protocol"@ != "auto.offset.reset"@,
        "sasl.username"@ != "sasl.password"@,
        "session.timeout.ms"@ != "enable.auto.commit"@,
        "session.timeout.ms"@ != "message.timeout.ms"@,
        "session.timeout.ms"@ != "enable.idempotence"@,
        "enable.auto.commit"@ != "message.timeout.ms"@,
        "enable.auto.commit"@ != "enable.idempotence"@,
        "message.timeout.ms"@ != "enable.idempotence"@,
{
    reveal_strlit("bootstrap.servers");
    reveal_strlit("security.protocol");
    reveal_strlit("sasl.mechanism");
    reveal_strlit("sasl.username");
    reveal_strlit("sasl.password");
    reveal_strlit("group.id");
    reveal_strlit("enable.partition.eof");
    reveal_strlit("session.timeout.ms");
    reveal_strlit("enable.auto.commit");
    reveal_strlit("auto.offset.reset");
    reveal_strlit("message.timeout.ms");
    reveal_strlit("enable.idempotence");
    assert("bootstrap.servers"@[0] != "security.protocol"@[0]);
    assert("bootstrap.servers"@[0] != "auto.offset.reset"@[0]);
    assert("security.protocol"@[0] != "auto.offset.reset"@[0]);
    assert("sasl.username"@[5] != "sasl.password"@[5]);
    assert("session.timeout.ms"@[0] != "enable.auto.commit"@[0]);
    assert("session.timeout.ms"@[0] != "message.timeout.ms"@[0]);
    assert("session.timeout.ms"@[0] != "enable.idempotence"@[0]);
    assert("enable.auto.commit"@[0] != "message.timeout.ms"@[0]);
    assert("enable.auto.commit"@[7] != "enable.idempotence"@[7]);
    assert("message.timeout.ms"@[0] != "enable.idempotence"@[0]);
}

/// Every client reaches the broker that is configured, as the user that is, and is
/// told nothing else in common.
pub proof fn clients_reach_the_configured_broker(kafka: KafkaBrokerConfiguration)
    ensures
        base_settings(kafka).contains_pair("bootstrap.servers"@, kafka.broker@),
        base_settings(kafka).contains_pair("security.protocol"@, kafka.security_protocol@),
        base_settings(kafka).contains_pair("sasl.mechanism"@, kafka.sasl_mechanism@),
        base_settings(kafka).contains_pair("sasl.username"@, kafka.sasl_username@),
        base_settings(kafka).contains_pair("sasl.password"@, kafka.sasl_password@),
        forall|key: Seq<char>| #[trigger]
            base_settings(kafka).contains_key(key) ==> key == "bootstrap.servers"@
                || key == "security.protocol"@ || key == "sasl.mechanism"@
                || key == "sasl.username"@ || key == "sasl.password"@,
{
    lemma_setting_keys_differ();
}

/// A consumer reads as its group, from the earliest message on, and commits what it
/// has read by itself.
pub proof fn consumer_reads_as_its_group(kafka: KafkaBrokerConfiguration)
    ensures
        consumer_settings(kafka).contains_pair("bootstrap.servers"@, kafka.broker@),
        consumer_settings(kafka).contains_pair("security.protocol"@, kafka.security_protocol@),
        consumer_settings(kafka).contains_pair("sasl.mechanism"@, kafka.sasl_mechanism@),
        consumer_settings(kafka).contains_pair("sasl.username"@, kafka.sasl_username@),
        consumer_settings(kafka).contains_pair("sasl.password"@, kafka.sasl_password@),
        consumer_settings(kafka).contains_pair("group.id"@, kafka.group_id@),
        consumer_settings(kafka).contains_pair("enable.partition.eof"@, "false"@),
        consumer_settings(kafka).contains_pair("session.timeout.ms"@, "6000"@),
        consumer_settings(kafka).contains_pair("enable.auto.commit"@, "true"@),
        consumer_settings(kafka).contains_pair("auto.offset.reset"@, "earliest"@),
        forall|key: Seq<char>| #[trigger]
            consumer_settings(kafka).contains_key(key) ==> key == "bootstrap.servers"@
                || key == "security.protocol"@ || key == "sasl.mechanism"@
                || key == "sasl.username"@ || key == "sasl.password"@ || key == "group.id"@
                || key == "enable.partition.eof"@ || key == "session.timeout.ms"@
                || key == "enable.auto.commit"@ || key == "auto.offset.reset"@,
{
    lemma_setting_keys_differ();
}

/// A producer writes every message once, and gives up on one after five seconds.
pub proof fn producer_writes_every_message_once(kafka: KafkaBrokerConfiguration)
    ensures
        producer_settings(kafka).contains_pair("bootstrap.servers"@, kafka.broker@),
        producer_settings(kafka).contains_pair("security.protocol"@, kafka.security_protocol@),
        producer_settings(kafka).contains_pair("sasl.mechanism"@, kafka.sasl_mechanism@),
        producer_settings(kafka).contains_pair("sasl.username"@, kafka.sasl_username@),
        producer_settings(kafka).contains_pair("sasl.password"@, kafka.sasl_password@),
        producer_settings(kafka).contains_pair("message.timeout.ms"@, "5000"@),
        producer_settings(kafka).contains_pair("enable.idempotence"@, "true"@),
        forall|key: Seq<char>| #[trigger]
            producer_settings(kafka).contains_key(key) ==> key == "bootstrap.servers"@
                || key == "security.protocol"@ || key == "sasl.mechanism"@
                || key == "sasl.username"@ || key == "sasl.password"@
                || key == "message.timeout.ms"@ || key == "enable.idempotence"@,
{
    lemma_setting_keys_differ();
}

/// Every topic is asked for as it is configured, in order, with one replica, and
/// subscribed to under its name.
pub proof fn topics_are_asked_for_as_configured(topics: Seq<KafkaTopic>, i: int)
    requires
        0 <= i < topics.len(),
    ensures
        requests_for(topics).len() == topics.len(),
        requests_for(topics)[i].name == topics[i].name@,
        requests_for(topics)[i].num_partitions == topics[i].num_partition,
        requests_for(topics)[i].replication == 1,
        topic_names(topics).len() == topics.len(),
        topic_names(topics)[i] == topics[i].name@,
{
}

/// The first topic that could not be made is the one that is told; whether a topic
/// was made or there before makes no difference.
pub proof fn first_failed_topic_is_told(outcomes: Seq<TopicOutcome>)
    ensures
        first_failure(outcomes) is None <==> forall|i: int|
            0 <= i < outcomes.len() ==> !(#[trigger] outcomes[i] is Failed),
        first_failure(outcomes) matches Some(error) ==> exists|k: int|
            0 <= k < outcomes.len() && #[trigger] outcomes[k] is Failed && error
                == KafkaErrorView::ErrorCode(outcomes[k]->code@) && forall|i: int|
                0 <= i < k ==> !(#[trigger] outcomes[i] is Failed),
    decreases outcomes.len(),
{
    if outcomes.len() > 0 {
        let init = outcomes.drop_last();
        let last = outcomes.len() - 1;
        first_failed_topic_is_told(init);
        match first_failure(init) {
            Some(error) => {
                let k = choose|k: int|
                    0 <= k < init.len() && #[trigger] init[k] is Failed && error
                        == KafkaErrorView::ErrorCode(init[k]->code@) && forall|i: int|
                        0 <= i < k ==> !(#[trigger] init[i] is Failed);
                assert(outcomes[k] is Failed);
                assert forall|i: int| 0 <= i < k implies !(#[trigger] outcomes[i] is Failed) by {
                    assert(init[i] == outcomes[i]);
                }
            },
            None => {
                assert forall|i: int| 0 <= i < last implies !(#[trigger] outcomes[i] is Failed) by {
                    assert(init[i] == outcomes[i]);
                }
                assert(outcomes[last] == outcomes.last());
            },
        }
    }
}

} // verus!
