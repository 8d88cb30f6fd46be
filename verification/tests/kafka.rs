use kprf::http::api::DeliveryResult;
use kprf::kafka::client::client_config;
use kprf::kafka::config::Config;
use kprf::kafka::producer::{parse_state, stats, BrokerStats, Producer, Statistics, TopicStats};
use kprf::config::ConfigError;
use kprf::metrics::{Change, Metric, MetricKind, MetricUpdate, Server, ServerConfig};
use kprf::yaml::Node;

fn text(s: &str) -> Node {
    Node::Text(String::from(s))
}

fn hash(entries: Vec<(&str, Node)>) -> Node {
    Node::Hash(entries.into_iter().map(|(k, v)| (text(k), v)).collect())
}

fn pair(key: &str, value: &str) -> (String, String) {
    (String::from(key), String::from(value))
}

fn flat(update: &MetricUpdate) -> (Metric, Vec<String>, Change) {
    (update.metric, update.labels.clone(), update.change)
}

#[test]
fn empty_settings_are_empty() {
    let c = Config::new_empty();
    assert_eq!(c.brokers.len(), 0);
    assert_eq!(c.user, "");
    assert_eq!(c.password, "");
    assert_eq!(c.message_max_bytes, 0);
    assert_eq!(c.queue_buffering_max_messages, 0);
    assert_eq!(c.queue_buffering_max_ms, 0);
    assert_eq!(c.queue_buffering_max_kbytes, 0);
    assert_eq!(c.retries, 0);
    assert_eq!(c.message_timeout_ms, 0);
    assert_eq!(c.request_required_acks, 0);
    assert_eq!(c.request_timeout_ms, 0);
    assert_eq!(c.statistics_interval_ms, 0);
}

#[test]
fn settings_become_client_properties() {
    let c = Config {
        brokers: vec![String::from("a:9092"), String::from("b:9092")],
        user: String::from("me"),
        password: String::from("secret"),
        message_max_bytes: 1048576,
        queue_buffering_max_messages: 100000,
        queue_buffering_max_ms: 10,
        queue_buffering_max_kbytes: 4294967295,
        retries: 3,
        message_timeout_ms: 2000,
        request_required_acks: -1,
        request_timeout_ms: 30000,
        statistics_interval_ms: 0,
    };
    assert_eq!(
        c.to_hash(),
        vec![
            pair("bootstrap.servers", "a:9092,b:9092"),
            pair("sasl.username", "me"),
            pair("sasl.password", "secret"),
            pair("message.max.bytes", "1048576"),
            pair("queue.buffering.max.messages", "100000"),
            pair("queue.buffering.max.ms", "10"),
            pair("retries", "3"),
            pair("message.timeout.ms", "2000"),
            pair("request.timeout.ms", "30000"),
            pair("request.required.acks", "-1"),
            pair("queue.buffering.max.kbytes", "4294967295"),
            pair("statistics.interval.ms", "0"),
        ]
    );
}

#[test]
fn empty_credentials_are_left_out() {
    let mut c = Config::new_empty();
    c.request_required_acks = i32::MIN;
    let properties = c.to_hash();
    assert_eq!(properties.len(), 10);
    assert_eq!(properties[0], pair("bootstrap.servers", ""));
    assert_eq!(properties[1], pair("message.max.bytes", "0"));
    assert_eq!(properties[7], pair("request.required.acks", "-2147483648"));
    c.password = String::from("p");
    c.brokers = vec![String::from("only:1")];
    let properties = c.to_hash();
    assert_eq!(properties.len(), 11);
    assert_eq!(properties[0], pair("bootstrap.servers", "only:1"));
    assert_eq!(properties[1], pair("sasl.password", "p"));
}

#[test]
fn settings_can_be_cloned() {
    let mut c = Config::new_empty();
    c.brokers = vec![String::from("x"), String::from("y")];
    c.user = String::from("u");
    c.retries = 9;
    let d = c.clone();
    assert_eq!(d.brokers, c.brokers);
    assert_eq!(d.user, "u");
    assert_eq!(d.retries, 9);
}

#[test]
fn settings_are_read_from_a_mapping() {
    let section = hash(vec![
        ("brokers", Node::Array(vec![text("a:1"), text("b:2")])),
        ("user", text("me")),
        ("retries", Node::Integer(7)),
        ("request_required_acks", Node::Integer(-1)),
        ("request_timeout_ms", Node::Integer(123)),
        ("queue_buffering_max_kbytes", Node::Integer(2048)),
        ("unknown", Node::Boolean(true)),
    ]);
    let c = Config::new_from_yaml(&section).unwrap();
    assert_eq!(c.brokers, vec![String::from("a:1"), String::from("b:2")]);
    assert_eq!(c.user, "me");
    assert_eq!(c.password, "");
    assert_eq!(c.retries, 7);
    assert_eq!(c.request_required_acks, -1);
    assert_eq!(c.request_timeout_ms, 123);
    assert_eq!(c.queue_buffering_max_kbytes, 2048);
    assert_eq!(c.message_max_bytes, 1048576);
    assert_eq!(c.queue_buffering_max_messages, 100000);
    assert_eq!(c.queue_buffering_max_ms, 10);
    assert_eq!(c.message_timeout_ms, 2000);
    assert_eq!(c.statistics_interval_ms, 0);
}

#[test]
fn a_setting_of_the_wrong_kind_is_refused_by_its_key() {
    let cases: Vec<(Node, &str)> = vec![
        (hash(vec![("brokers", text("a:1"))]), "brokers"),
        (hash(vec![("brokers", Node::Array(vec![text("a"), Node::Integer(1)]))]), "brokers"),
        (hash(vec![("user", Node::Integer(1))]), "user"),
        (hash(vec![("password", Node::Null)]), "password"),
        (hash(vec![("message_max_bytes", Node::Integer(-1))]), "message_max_bytes"),
        (hash(vec![("retries", Node::Integer(4294967296))]), "retries"),
        (hash(vec![("request_required_acks", Node::Integer(2147483648))]), "request_required_acks"),
        (hash(vec![("statistics_interval_ms", Node::Real(String::from("1.5")))]), "statistics_interval_ms"),
        // the first key at fault is named
        (
            hash(vec![("retries", text("x")), ("user", Node::Integer(1))]),
            "user",
        ),
    ];
    for (section, key) in cases {
        match Config::new_from_yaml(&section) {
            Err(ConfigError::Invalid(k)) => assert_eq!(k, key),
            _ => panic!("the settings under {} were taken", key),
        }
    }
    assert_eq!(
        Config::new_from_yaml(&hash(vec![("retries", Node::Integer(4294967295))]))
            .unwrap()
            .retries,
        4294967295
    );
}

#[test]
fn the_first_entry_under_a_key_counts() {
    let section = hash(vec![
        ("retries", Node::Integer(1)),
        ("retries", Node::Integer(2)),
    ]);
    assert_eq!(Config::new_from_yaml(&section).unwrap().retries, 1);
    assert_eq!(section.get("retries").unwrap().as_i64(), Some(1));
    assert!(section.get("absent").is_none());
    assert!(Node::Integer(3).get("retries").is_none());
    assert_eq!(text("x").as_str(), Some(&String::from("x")));
    assert_eq!(Node::Boolean(true).as_bool(), Some(true));
    assert_eq!(Node::Integer(1).as_bool(), None);
    assert_eq!(Node::Array(vec![Node::Null]).as_vec().unwrap().len(), 1);
    assert!(text("x").as_vec().is_none());
    assert_eq!(text("1").as_i64(), None);
}

#[test]
fn broker_states_have_their_numbers() {
    let cases = [
        ("INIT", 0),
        ("DOWN", 1),
        ("CONNECT", 2),
        ("AUTH", 3),
        ("APIVERSION_QUERY", 4),
        ("AUTH_HANDSHAKE", 5),
        ("UP", 6),
        ("UPDATE", 7),
        ("", 1),
        ("up", 1),
        ("UP ", 1),
        ("TRY_CONNECT", 1),
    ];
    for (state, code) in cases {
        assert_eq!(parse_state(&String::from(state)), code, "state {}", state);
    }
}

fn sample() -> Statistics {
    Statistics {
        replyq: 1,
        msg_cnt: 2,
        msg_size: 3,
        tx: 4,
        tx_bytes: 5,
        rx: 6,
        rx_bytes: 7,
        txmsgs: 8,
        txmsg_bytes: -9,
        metadata_cache_cnt: -10,
        brokers: vec![BrokerStats {
            name: String::from("b1"),
            state: String::from("UP"),
            stateage: 11,
            outbuf_cnt: 12,
            outbuf_msg_cnt: 13,
            waitresp_cnt: 14,
            waitresp_msg_cnt: -15,
            tx: 16,
            txbytes: 17,
            txerrs: 18,
            txretries: 19,
            req_timeouts: 20,
            rx: 21,
            rxbytes: 22,
            rxerrs: 23,
        }],
        topics: vec![
            TopicStats {
                topic: String::from("t1"),
                metadata_age: 24,
                batchsize_avg: 25,
                batchcnt_avg: 26,
            },
            TopicStats {
                topic: String::from("t2"),
                metadata_age: 27,
                batchsize_avg: 28,
                batchcnt_avg: 29,
            },
        ],
    }
}

#[test]
fn statistics_are_projected_onto_the_metrics() {
    let updates: Vec<(Metric, Vec<String>, Change)> = stats(&sample()).iter().map(flat).collect();
    let none: Vec<String> = vec![];
    let b1 = vec![String::from("b1")];
    let t1 = vec![String::from("t1")];
    let t2 = vec![String::from("t2")];
    let expected = vec![
        (Metric::ReplyQueueSize, none.clone(), Change::Add(1)),
        (Metric::CurrentMessagesInQueue, none.clone(), Change::Add(2)),
        (Metric::CurrentMessagesInQueueBytes, none.clone(), Change::Add(3)),
        (Metric::TotalRequestsCount, none.clone(), Change::Add(4)),
        (Metric::TotalBytesSent, none.clone(), Change::Add(5)),
        (Metric::TotalResponsesReceived, none.clone(), Change::Add(6)),
        (Metric::TotalBytesReceived, none.clone(), Change::Add(7)),
        (Metric::TotalMessagesSent, none.clone(), Change::Add(8)),
        (Metric::TotalMessagesSentBytes, none.clone(), Change::Add(0)),
        (Metric::MetadataCacheTopicsCount, none.clone(), Change::Store(-10)),
        (Metric::BrokerState, b1.clone(), Change::Store(6)),
        (Metric::BrokerStateage, b1.clone(), Change::Store(11)),
        (Metric::BrokerOutbufCount, b1.clone(), Change::Add(12)),
        (Metric::BrokerOutbufMsgCount, b1.clone(), Change::Add(13)),
        (Metric::BrokerWaitrespCount, b1.clone(), Change::Add(14)),
        (Metric::BrokerWaitrespMsgCount, b1.clone(), Change::Add(0)),
        (Metric::BrokerRequestsSent, b1.clone(), Change::Add(16)),
        (Metric::BrokerRequestsSentBytes, b1.clone(), Change::Add(17)),
        (Metric::BrokerTransmissionErrors, b1.clone(), Change::Add(18)),
        (Metric::BrokerRequestRetries, b1.clone(), Change::Add(19)),
        (Metric::BrokerRequestTimeouts, b1.clone(), Change::Add(20)),
        (Metric::BrokerResponsesCount, b1.clone(), Change::Add(21)),
        (Metric::BrokerBytesReceived, b1.clone(), Change::Add(22)),
        (Metric::BrokerErrorsCount, b1.clone(), Change::Add(23)),
        (Metric::TopicMetadataAge, t1.clone(), Change::Store(24)),
        (Metric::TopicBatchsizeAvg, t1.clone(), Change::Store(25)),
        (Metric::TopicBatchcountAvg, t1.clone(), Change::Store(26)),
        (Metric::TopicMetadataAge, t2.clone(), Change::Store(27)),
        (Metric::TopicBatchsizeAvg, t2.clone(), Change::Store(28)),
        (Metric::TopicBatchcountAvg, t2.clone(), Change::Store(29)),
    ];
    assert_eq!(updates, expected);
}

#[test]
fn statistics_without_brokers_and_topics_give_the_client_readings() {
    let mut s = sample();
    s.brokers.clear();
    s.topics.clear();
    assert_eq!(stats(&s).len(), 10);
}

#[test]
fn a_send_is_accounted_for() {
    let topic = String::from("t");
    let begin: Vec<(Metric, Vec<String>, Change)> =
        Producer::send_begins(&topic).iter().map(flat).collect();
    assert_eq!(
        begin,
        vec![
            (Metric::InternalQueueSize, vec![String::from("t")], Change::Inc),
            (Metric::SentMessages, vec![String::from("t")], Change::Inc),
        ]
    );
    let delivered: Vec<(Metric, Vec<String>, Change)> =
        Producer::send_ends(&topic, &DeliveryResult::Delivered)
            .iter()
            .map(flat)
            .collect();
    assert_eq!(
        delivered,
        vec![(Metric::InternalQueueSize, vec![String::from("t")], Change::Dec)]
    );
    let failed: Vec<(Metric, Vec<String>, Change)> = Producer::send_ends(
        &topic,
        &DeliveryResult::Failed {
            kind: -185,
            message: String::from("timed out"),
        },
    )
    .iter()
    .map(flat)
    .collect();
    assert_eq!(
        failed,
        vec![
            (Metric::InternalQueueSize, vec![String::from("t")], Change::Dec),
            (
                Metric::ErrorsCount,
                vec![String::from("t"), String::from("-185")],
                Change::Inc
            ),
        ]
    );
}

#[test]
fn metric_names_are_as_exported() {
    let all = Metric::all();
    assert_eq!(all.len(), 33);
    let names: Vec<&str> = all.iter().map(|m| m.name()).collect();
    for name in [
        "http_requests_duration",
        "ratelimit_messages_count",
        "kafka_sent_messages",
        "kafka_errors_count",
        "kafka_internal_queue_size",
        "kafka_message_send_duration",
        "kafka_producer_reply_queue_size",
        "kafka_producer_broker_state",
        "kafka_producer_topic_metadata_age",
    ] {
        assert!(names.contains(&name), "{} is missing", name);
    }
    let mut unique = names.clone();
    unique.sort();
    unique.dedup();
    assert_eq!(unique.len(), names.len());
    for m in all.iter() {
        assert!(!m.help().is_empty());
    }
    assert_eq!(Metric::HttpRequestsDuration.kind(), MetricKind::Histogram);
    assert_eq!(Metric::HttpRequestsDuration.label_names(), vec!["code", "method"]);
    assert_eq!(Metric::ErrorsCount.kind(), MetricKind::Counter);
    assert_eq!(Metric::ErrorsCount.label_names(), vec!["topic", "error_code"]);
    assert_eq!(Metric::InternalQueueSize.kind(), MetricKind::Gauge);
    assert_eq!(Metric::InternalQueueSize.label_names(), vec!["topic"]);
    assert_eq!(Metric::BrokerState.kind(), MetricKind::Gauge);
    assert_eq!(Metric::BrokerState.label_names(), vec!["broker"]);
    assert_eq!(Metric::BrokerErrorsCount.kind(), MetricKind::Counter);
    assert_eq!(Metric::ReplyQueueSize.kind(), MetricKind::Counter);
    assert_eq!(Metric::ReplyQueueSize.label_names(), Vec::<&str>::new());
    assert_eq!(Metric::MetadataCacheTopicsCount.kind(), MetricKind::Gauge);
    assert_eq!(Metric::MessageSendDuration.kind(), MetricKind::Histogram);
    assert_eq!(Metric::RatelimitMessagesCount.name(), "ratelimit_messages_count");
    assert_eq!(Metric::BrokerRequestTimeouts.name(), "kafka_producer_request_timeouts");
    assert_eq!(
        Metric::TotalMessagesSentBytes.name(),
        "kafka_producer_total_messages_bytes_sent"
    );
    assert_eq!(kprf::metrics::HISTOGRAM_START, 5);
    assert_eq!(kprf::metrics::HISTOGRAM_FACTOR, 2);
    assert_eq!(kprf::metrics::HISTOGRAM_BUCKETS, 5);
}

#[test]
fn the_metrics_server_keeps_its_port() {
    let server = Server::new(ServerConfig { port: 8088 });
    assert_eq!(server.port(), 8088);
}

#[test]
fn the_client_configuration_holds_the_properties() {
    let mut c = Config::new_empty();
    c.brokers = vec![String::from("a:9092"), String::from("b:9092")];
    c.user = String::from("me");
    c.retries = 3;
    c.request_required_acks = -1;
    let config = client_config(&c);
    assert_eq!(config.get("bootstrap.servers"), Some("a:9092,b:9092"));
    assert_eq!(config.get("sasl.username"), Some("me"));
    assert_eq!(config.get("sasl.password"), None);
    assert_eq!(config.get("retries"), Some("3"));
    assert_eq!(config.get("request.required.acks"), Some("-1"));
    assert_eq!(config.get("message.max.bytes"), Some("0"));
    assert_eq!(config.get("statistics.interval.ms"), Some("0"));
    assert_eq!(config.get("acks"), None);
}
