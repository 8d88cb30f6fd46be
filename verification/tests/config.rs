use kprf::config::{ConfigError, KafkaProxyConfig};

const KAFKA_CONFIG_YAML: &str = "\
http:
  metrics_port: 8089
kafka:
  brokers:
    - \"localhost:9092\"
  request_required_acks: 1
  queue_buffering_max_ms: 20
";

const RATELIMIT_YAML: &str = "\
ratelimit:
  enabled: true
  rules:
    - topic: \"some_topic\"
      max_requests_per_minute: 42
    - topic: \"some_topic_2\"
      max_requests_per_minute: 0
";

const CONFIG_YAML: &str = "\
output_file: \"\"
http:
  metrics_port: 8089
kafka:
  brokers:
    - \"localhost:9092\"
  request_required_acks: 1
  queue_buffering_max_ms: 20
  queue_buffering_max_kbytes: 2048
ratelimit:
  enabled: true
  rules:
    - topic: \"some_topic\"
      max_requests_per_minute: 42
    - topic: \"some_topic_2\"
      max_requests_per_minute: 0
";

fn testdata(config_path: &String) -> &'static str {
    match config_path.as_str() {
        "testdata/kafka_config.yaml" => KAFKA_CONFIG_YAML,
        "testdata/ratelimit.yaml" => RATELIMIT_YAML,
        "testdata/config.yaml" => CONFIG_YAML,
        other => panic!("no such test data: {}", other),
    }
}

fn prepare_config(config_path: &String) -> KafkaProxyConfig {
    let config = KafkaProxyConfig::initialize_config(testdata(config_path));
    match config {
        Ok(config) => config,
        Err(err) => panic!("failed to initialize kafka-proxy config: got error: {:?}", err),
    }
}

#[test]
fn test_kafkaproxy_config_new() {
    let config_path = String::from("testdata/kafka_config.yaml");
    let config = prepare_config(&config_path);

    assert_eq!(config.get_http_config().port(), 4242); // default value
    assert_eq!(config.get_kafka_config().brokers.len(), 1);
    assert_eq!(config.get_http_config().metrics_port(), 8089);
    assert_eq!(config.get_kafka_config().request_required_acks, 1);
    assert_eq!(config.get_kafka_config().queue_buffering_max_ms, 20);
}

#[test]
fn test_kafkaproxy_config_ratelimit() {
    let config_path = String::from("testdata/ratelimit.yaml");
    let config = prepare_config(&config_path);

    assert_eq!(config.get_ratelimit_config().enabled(), true);
    assert_eq!(config.get_ratelimit_config().get_rules().len(), 2);
}

#[test]
fn test_kafkaproxy_config() {
    let config_path = String::from("testdata/config.yaml");
    let config = prepare_config(&config_path);

    assert_eq!(config.get_http_config().port(), 4242); // default value
    assert_eq!(config.get_http_config().metrics_port(), 8089);

    assert_eq!(config.get_kafka_config().brokers.len(), 1);
    assert_eq!(config.get_kafka_config().request_required_acks, 1);
    assert_eq!(config.get_kafka_config().queue_buffering_max_ms, 20);
    assert_eq!(config.get_kafka_config().queue_buffering_max_kbytes, 2048);

    assert_eq!(config.get_ratelimit_config().enabled(), true);
    assert_eq!(config.get_ratelimit_config().get_rules().len(), 2);
}

#[test]
fn config_defaults_for_an_empty_text() {
    let config = KafkaProxyConfig::initialize_config("").unwrap();
    assert_eq!(config.get_http_config().port(), 4242);
    assert_eq!(config.get_http_config().metrics_port(), 8088);
    assert_eq!(config.get_output_file(), "");
    let kafka = config.get_kafka_config();
    assert_eq!(kafka.brokers.len(), 0);
    assert_eq!(kafka.user, "");
    assert_eq!(kafka.password, "");
    assert_eq!(kafka.message_max_bytes, 1048576);
    assert_eq!(kafka.queue_buffering_max_messages, 100000);
    assert_eq!(kafka.queue_buffering_max_ms, 10);
    assert_eq!(kafka.queue_buffering_max_kbytes, 1048576);
    assert_eq!(kafka.retries, 3);
    assert_eq!(kafka.message_timeout_ms, 2000);
    assert_eq!(kafka.request_required_acks, 1);
    assert_eq!(kafka.request_timeout_ms, 30000);
    assert_eq!(kafka.statistics_interval_ms, 0);
    assert_eq!(config.get_ratelimit_config().enabled(), false);
    assert_eq!(config.get_ratelimit_config().get_rules().len(), 0);
    assert_eq!(config.get_wal_config().dir, "wal-segments");
    assert_eq!(config.get_wal_config().segment_size_bytes, 1048576);
}

#[test]
fn config_reads_rules_in_order() {
    let config = prepare_config(&String::from("testdata/ratelimit.yaml"));
    let ratelimit = config.get_ratelimit_config();
    let rules = ratelimit.get_rules();
    assert_eq!(rules[0].topic_name, "some_topic");
    assert_eq!(rules[0].max_requests_per_minute, 42);
    assert_eq!(rules[1].topic_name, "some_topic_2");
    assert_eq!(rules[1].max_requests_per_minute, 0);
}

#[test]
fn config_refuses_a_number_out_of_range() {
    let config = KafkaProxyConfig::initialize_config("http:\n  port: 70000\n");
    match config {
        Err(ConfigError::Invalid(key)) => assert_eq!(key, "port"),
        _ => panic!("port 70000 was taken"),
    }
}

#[test]
fn config_refuses_a_value_of_the_wrong_kind() {
    let config = KafkaProxyConfig::initialize_config("kafka:\n  retries: many\n");
    match config {
        Err(ConfigError::Invalid(key)) => assert_eq!(key, "retries"),
        _ => panic!("retries that are no number were taken"),
    }
    let config = KafkaProxyConfig::initialize_config("kafka: 7\n");
    match config {
        Err(ConfigError::Invalid(key)) => assert_eq!(key, "kafka"),
        _ => panic!("a section that is no mapping was taken"),
    }
    let config = KafkaProxyConfig::initialize_config("just a scalar\n");
    match config {
        Err(ConfigError::Invalid(key)) => assert_eq!(key, ""),
        _ => panic!("a document that is no mapping was taken"),
    }
}

#[test]
fn config_refuses_a_rule_without_topic() {
    let config = KafkaProxyConfig::initialize_config(
        "ratelimit:\n  rules:\n    - max_requests_per_minute: 3\n",
    );
    match config {
        Err(ConfigError::Invalid(key)) => assert_eq!(key, "topic"),
        _ => panic!("a rule without a topic was taken"),
    }
}

#[test]
fn config_refuses_text_that_is_no_yaml() {
    let config = KafkaProxyConfig::initialize_config("kafka: [unclosed\n");
    assert!(matches!(config, Err(ConfigError::Syntax(_))));
}

#[test]
fn config_reads_wal_and_output() {
    let config = KafkaProxyConfig::initialize_config(
        "output_file: /var/log/kprf.log\nwal:\n  dir: /tmp/wal\n  segment_size_bytes: 256\n",
    )
    .unwrap();
    assert_eq!(config.get_output_file(), "/var/log/kprf.log");
    assert_eq!(config.get_wal_config().dir, "/tmp/wal");
    assert_eq!(config.get_wal_config().segment_size_bytes, 256);
}
