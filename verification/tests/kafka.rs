use ninoverse::configuration::{KafkaBrokerConfiguration, KafkaTopic};
use ninoverse::kafka_handler::config::{
    base_client_config, create_kafka_consumer, create_kafka_producer, init_kafka_topics,
    subscription, topics_created, TopicOutcome,
};
use ninoverse::kafka_handler::messages::{
    consumer_action, log_delivery_outcome, log_kafka_message, message_line, ConsumerAction,
    ConsumerEvent, DeliveryOutcome, KafkaChannelMessage, ReceivedMessage,
};
use ninoverse::kafka_handler::producer::{
    init_kafka_producer, ProducerAction, ProducerEvent, ProducerPhase, MAX_IN_FLIGHT,
};
use ninoverse::kafka_handler::start::{
    init_kafka, init_kafka_next, KafkaAction, KafkaEvent, KafkaPhase,
};
use ninoverse::orchestrator::error::{CoreError, KafkaError};

fn topic(name: &str, num_partition: i32) -> KafkaTopic {
    KafkaTopic { name: name.to_string(), num_partition, offset: 0 }
}

fn kafka(topics: Vec<KafkaTopic>) -> KafkaBrokerConfiguration {
    KafkaBrokerConfiguration {
        broker: "kafka:9092".to_string(),
        topics,
        group_id: "core".to_string(),
        security_protocol: "SASL_PLAINTEXT".to_string(),
        sasl_mechanism: "SCRAM-SHA-512".to_string(),
        sasl_username: "core-app".to_string(),
        sasl_password: "hidden".to_string(),
    }
}

#[test]
fn clients_are_configured() {
    let kafka = kafka(Vec::new());
    let base = base_client_config(&kafka);
    assert_eq!(base.get("bootstrap.servers"), Some("kafka:9092"));
    assert_eq!(base.get("security.protocol"), Some("SASL_PLAINTEXT"));
    assert_eq!(base.get("sasl.mechanism"), Some("SCRAM-SHA-512"));
    assert_eq!(base.get("sasl.username"), Some("core-app"));
    assert_eq!(base.get("sasl.password"), Some("hidden"));
    assert_eq!(base.config_map().len(), 5);

    let consumer = create_kafka_consumer(&kafka);
    assert_eq!(consumer.get("bootstrap.servers"), Some("kafka:9092"));
    assert_eq!(consumer.get("group.id"), Some("core"));
    assert_eq!(consumer.get("enable.partition.eof"), Some("false"));
    assert_eq!(consumer.get("session.timeout.ms"), Some("6000"));
    assert_eq!(consumer.get("enable.auto.commit"), Some("true"));
    assert_eq!(consumer.get("auto.offset.reset"), Some("earliest"));
    assert_eq!(consumer.config_map().len(), 10);

    let producer = create_kafka_producer(&kafka);
    assert_eq!(producer.get("message.timeout.ms"), Some("5000"));
    assert_eq!(producer.get("enable.idempotence"), Some("true"));
    assert_eq!(producer.get("group.id"), None);
    assert_eq!(producer.config_map().len(), 7);
}

#[test]
fn configured_topics_are_asked_for() {
    let with = kafka(vec![topic("a", 3), topic("b", 1)]);
    let requests = init_kafka_topics(&with).ok().unwrap();
    assert_eq!(requests.len(), 2);
    assert_eq!(requests[0].name, "a");
    assert_eq!(requests[0].num_partitions, 3);
    assert_eq!(requests[0].replication, 1);
    assert_eq!(subscription(&with), Some(vec!["a".to_string(), "b".to_string()]));

    let without = kafka(Vec::new());
    match init_kafka_topics(&without) {
        Err(error) => assert_eq!(error.message(), "No topic configured"),
        Ok(_) => panic!("topics out of nowhere"),
    }
    assert_eq!(subscription(&without), None);
}

#[test]
fn existing_topics_are_no_failure() {
    let created = || TopicOutcome::Created { topic: "a".to_string() };
    let exists = || TopicOutcome::AlreadyExists { topic: "b".to_string() };
    let failed = |code: &str| TopicOutcome::Failed {
        topic: "c".to_string(),
        code: code.to_string(),
    };
    assert!(topics_created(Ok(vec![created(), exists()])).is_ok());
    assert!(topics_created(Ok(Vec::new())).is_ok());
    match topics_created(Ok(vec![exists(), failed("one"), failed("two")])) {
        Err(error) => assert_eq!(error.message(), "Kafka error code: one"),
        Ok(_) => panic!("a failure was lost"),
    }
    match topics_created(Err("gone".to_string())) {
        Err(error) => assert_eq!(error.message(), "Kafka library: gone"),
        Ok(_) => panic!("a failure was lost"),
    }
}

fn message(timestamp_millis: Option<i64>) -> ReceivedMessage {
    ReceivedMessage {
        topic: "t".to_string(),
        partition: 2,
        offset: 40,
        key: Some(vec![b'k', 0xff]),
        timestamp_millis,
        payload: None,
    }
}

#[test]
fn messages_are_logged_on_one_line() {
    let shown = |millis: i64| {
        chrono::DateTime::from_timestamp_millis(millis).unwrap_or_default().to_string()
    };
    for millis in [0, 1_700_000_000_123, -1, i64::MAX, i64::MIN] {
        assert_eq!(
            log_kafka_message(&message(Some(millis))),
            format!("t:2/40/k\u{fffd}/{}: ", shown(millis))
        );
    }
    assert_eq!(
        log_kafka_message(&message(None)),
        "t:2/40/k\u{fffd}/1970-01-01 00:00:00 UTC: "
    );
    assert_eq!(
        message_line(&message(None), "key", Some("now".to_string()), "pay"),
        "t:2/40/key/now: pay"
    );
    assert_eq!(
        message_line(&message(None), "", None, "pay"),
        "t:2/40//1970-01-01 00:00:00 UTC: pay"
    );
}

#[test]
fn consumer_ends_with_the_shutdown_alone() {
    match consumer_action(&ConsumerEvent::Message(message(None))) {
        ConsumerAction::Log(line) => assert!(line.starts_with("t:2/40/")),
        _ => panic!("the message was lost"),
    }
    assert!(matches!(
        consumer_action(&ConsumerEvent::StreamError),
        ConsumerAction::Continue
    ));
    assert!(matches!(
        consumer_action(&ConsumerEvent::Shutdown),
        ConsumerAction::Stop
    ));
}

#[test]
fn failed_deliveries_are_logged() {
    assert_eq!(log_delivery_outcome(&DeliveryOutcome::Delivered), None);
    let refused = DeliveryOutcome::Refused {
        error: "Timeout".to_string(),
        key: Some(b"me".to_vec()),
    };
    assert_eq!(
        log_delivery_outcome(&refused).as_deref(),
        Some("Delivery failed (key 'me'): Timeout")
    );
    let keyless = DeliveryOutcome::Refused { error: "Timeout".to_string(), key: None };
    assert_eq!(
        log_delivery_outcome(&keyless).as_deref(),
        Some("Delivery failed (key ''): Timeout")
    );
    assert_eq!(
        log_delivery_outcome(&DeliveryOutcome::Dropped).as_deref(),
        Some("Delivery report dropped before completion")
    );
}

fn channel_message() -> KafkaChannelMessage {
    KafkaChannelMessage {
        topic: "t".to_string(),
        sender: "s".to_string(),
        content: "c".to_string(),
    }
}

#[test]
fn producer_keeps_its_window() {
    let (mut producer, action) = init_kafka_producer();
    assert!(matches!(action, ProducerAction::Select { deliveries: false }));
    let mut action = action;
    let mut sent = 0;
    while let ProducerAction::Select { .. } = action {
        match producer.step(ProducerEvent::Message(channel_message())) {
            ProducerAction::Send(message) => assert_eq!(message.content, "c"),
            _ => panic!("the message was lost"),
        }
        sent += 1;
        action = producer.step(ProducerEvent::Enqueued);
    }
    assert_eq!(sent, MAX_IN_FLIGHT);
    assert!(matches!(action, ProducerAction::AwaitDelivery));
    assert!(matches!(
        producer.step(ProducerEvent::Delivery),
        ProducerAction::Select { deliveries: true }
    ));
    let mut action = producer.step(ProducerEvent::Shutdown);
    let mut drained = 0;
    while let ProducerAction::AwaitDelivery = action {
        drained += 1;
        action = producer.step(ProducerEvent::Delivery);
    }
    assert!(matches!(action, ProducerAction::Finish));
    assert_eq!(drained, MAX_IN_FLIGHT - 1);
    assert_eq!(producer.phase, ProducerPhase::Over);
}

#[test]
fn producer_goes_on_without_a_refused_message() {
    let (mut producer, _) = init_kafka_producer();
    producer.step(ProducerEvent::Message(channel_message()));
    assert!(matches!(
        producer.step(ProducerEvent::EnqueueFailed),
        ProducerAction::Select { deliveries: false }
    ));
    assert!(matches!(producer.step(ProducerEvent::Closed), ProducerAction::Finish));
}

#[test]
fn broker_work_goes_step_by_step() {
    let (phase, action) = init_kafka();
    assert!(matches!(action, KafkaAction::CreateAdminClient));
    let (phase, action) = init_kafka_next(phase, KafkaEvent::AdminClient(Ok(())));
    assert!(matches!(action, KafkaAction::CreateTopics));
    let (phase, action) = init_kafka_next(phase, KafkaEvent::Topics(Ok(())));
    assert!(matches!(action, KafkaAction::RunTasks));
    assert_eq!(phase, KafkaPhase::Tasks);
    let ended = KafkaEvent::Ended {
        consumer: Err(KafkaError::RDKafka("c".to_string())),
        producer: Err(KafkaError::RDKafka("p".to_string())),
    };
    match init_kafka_next(phase, ended).1 {
        KafkaAction::Finish(Err(error)) => assert_eq!(error.message(), "Kafka library: c"),
        _ => panic!("the failure was lost"),
    }
    let ended = KafkaEvent::Ended {
        consumer: Ok(()),
        producer: Err(KafkaError::RDKafka("p".to_string())),
    };
    match init_kafka_next(phase, ended).1 {
        KafkaAction::Finish(Err(error)) => assert_eq!(error.message(), "Kafka library: p"),
        _ => panic!("the failure was lost"),
    }
    assert!(matches!(
        init_kafka_next(phase, KafkaEvent::Ended { consumer: Ok(()), producer: Ok(()) }).1,
        KafkaAction::Finish(Ok(()))
    ));
    assert!(matches!(
        init_kafka_next(phase, KafkaEvent::NotJoined("x".to_string())).1,
        KafkaAction::Finish(Err(CoreError::Join(_)))
    ));
}

#[test]
fn shutdown_during_topic_creation_is_no_failure() {
    assert!(matches!(
        init_kafka_next(KafkaPhase::Topics, KafkaEvent::Shutdown).1,
        KafkaAction::Finish(Ok(()))
    ));
    let failed = KafkaEvent::Topics(Err(KafkaError::NoTopicInConfiguration));
    assert!(matches!(
        init_kafka_next(KafkaPhase::Topics, failed).1,
        KafkaAction::Finish(Err(CoreError::Kafka(KafkaError::NoTopicInConfiguration)))
    ));
    assert!(matches!(
        init_kafka_next(
            KafkaPhase::AdminClient,
            KafkaEvent::AdminClient(Err("x".to_string()))
        )
        .1,
        KafkaAction::Finish(Err(CoreError::Kafka(KafkaError::RDKafka(_))))
    ));
}
