//! The metrics that the proxy exports: their names, kinds and labels.

use vstd::prelude::*;

verus! {

/// What kind of instrument a metric is.
#[derive(Debug, Clone, Copy, PartialEq, Eq, Structural)]
pub enum MetricKind {
    Counter,
    Gauge,
    Histogram,
}

/// The metrics of the proxy. The first twenty-seven mirror the producer
/// client's statistics; the rest are the proxy's own.
#[derive(Debug, Clone, Copy, PartialEq, Eq, Structural)]
pub enum Metric {
    /// Operations waiting in the reply queue.
    ReplyQueueSize,
    /// Messages in the producer's queues.
    CurrentMessagesInQueue,
    /// Size of the messages in the producer's queues.
    CurrentMessagesInQueueBytes,
    /// Requests sent to brokers.
    TotalRequestsCount,
    /// Bytes sent to brokers.
    TotalBytesSent,
    /// Responses received from brokers.
    TotalResponsesReceived,
    /// Bytes received from brokers.
    TotalBytesReceived,
    /// Messages produced to brokers.
    TotalMessagesSent,
    /// Bytes of the messages produced to brokers.
    TotalMessagesSentBytes,
    /// Topics in the metadata cache.
    MetadataCacheTopicsCount,
    /// The state of a broker, as its number.
    BrokerState,
    /// Microseconds since a broker last changed its state.
    BrokerStateage,
    BrokerOutbufCount,
    BrokerOutbufMsgCount,
    BrokerWaitrespCount,
    BrokerWaitrespMsgCount,
    BrokerRequestsSent,
    BrokerRequestsSentBytes,
    BrokerTransmissionErrors,
    BrokerRequestRetries,
    BrokerRequestTimeouts,
    BrokerResponsesCount,
    BrokerBytesReceived,
    BrokerErrorsCount,
    TopicMetadataAge,
    TopicBatchsizeAvg,
    TopicBatchcountAvg,
    /// Sends in flight, by topic.
    InternalQueueSize,
    /// Failed sends, by topic and error code.
    ErrorsCount,
    /// Sends begun, by topic.
    SentMessages,
    /// How long a send took, by topic.
    MessageSendDuration,
    /// Records the limiter turned away, by topic.
    RatelimitMessagesCount,
    /// How long a push took, by status code and mode.
    HttpRequestsDuration,
}

/// The first boundary of a duration histogram, and the factor and number of
/// its boundaries: 5, 10, 20, 40, 80.
pub const HISTOGRAM_START: u32 = 5;

pub const HISTOGRAM_FACTOR: u32 = 2;

pub const HISTOGRAM_BUCKETS: usize = 5;

/// The name under which a metric is exported.
pub open spec fn metric_name(metric: Metric) -> Seq<char> {
    match metric {
        Metric::ReplyQueueSize => "kafka_producer_reply_queue_size"@,
        Metric::CurrentMessagesInQueue => "kafka_producer_current_messages_in_queue"@,
        Metric::CurrentMessagesInQueueBytes => "kafka_producer_current_messages_in_queue_bytes"@,
        Metric::TotalRequestsCount => "kafka_producer_total_requests_count"@,
        Metric::TotalBytesSent => "kafka_producer_total_bytes_sent"@,
        Metric::TotalResponsesReceived => "kafka_producer_total_responses_received"@,
        Metric::TotalBytesReceived => "kafka_producer_total_bytes_received"@,
        Metric::TotalMessagesSent => "kafka_producer_total_messages_sent"@,
        Metric::TotalMessagesSentBytes => "kafka_producer_total_messages_bytes_sent"@,
        Metric::MetadataCacheTopicsCount => "kafka_producer_metadata_cache_topics_count"@,
        Metric::BrokerState => "kafka_producer_broker_state"@,
        Metric::BrokerStateage => "kafka_producer_broker_state_age"@,
        Metric::BrokerOutbufCount => "kafka_producer_broker_outbuf_count"@,
        Metric::BrokerOutbufMsgCount => "kafka_producer_broker_outbuf_msg_count"@,
        Metric::BrokerWaitrespCount => "kafka_producer_broker_waitresp_count"@,
        Metric::BrokerWaitrespMsgCount => "kafka_producer_broker_waitresp_msg_count"@,
        Metric::BrokerRequestsSent => "kafka_producer_broker_requests_sent"@,
        Metric::BrokerRequestsSentBytes => "kafka_producer_broker_requests_sent_bytes"@,
        Metric::BrokerTransmissionErrors => "kafka_producer_broker_transmission_errors"@,
        Metric::BrokerRequestRetries => "kafka_producer_broker_request_retries"@,
        Metric::BrokerRequestTimeouts => "kafka_producer_request_timeouts"@,
        Metric::BrokerResponsesCount => "kafka_producer_broker_responses_count"@,
        Metric::BrokerBytesReceived => "kafka_producer_broker_bytes_received"@,
        Metric::BrokerErrorsCount => "kafka_producer_broker_errors_count"@,
        Metric::TopicMetadataAge => "kafka_producer_topic_metadata_age"@,
        Metric::TopicBatchsizeAvg => "kafka_producer_topic_batchsize_avg"@,
        Metric::TopicBatchcountAvg => "kafka_producer_topic_batchcount_avg"@,
        Metric::InternalQueueSize => "kafka_internal_queue_size"@,
        Metric::ErrorsCount => "kafka_errors_count"@,
        Metric::SentMessages => "kafka_sent_messages"@,
        Metric::MessageSendDuration => "kafka_message_send_duration"@,
        Metric::RatelimitMessagesCount => "ratelimit_messages_count"@,
        Metric::HttpRequestsDuration => "http_requests_duration"@,
    }
}

/// The help text of a metric.
pub open spec fn metric_help(metric: Metric) -> Seq<char> {
    match metric {
        Metric::ReplyQueueSize => "Kafka producer reply queue size"@,
        Metric::CurrentMessagesInQueue => "Kafka producer messages currently in queue"@,
        Metric::CurrentMessagesInQueueBytes => "Kafka producer messages currently in queue as bytes"@,
        Metric::TotalRequestsCount => "Kafka producer total number of requests sent to brokers"@,
        Metric::TotalBytesSent => "Kafka producer total number of bytes transmitted to brokers"@,
        Metric::TotalResponsesReceived => "Kafka producer total number of responses received from brokers"@,
        Metric::TotalBytesReceived => "Kafka producer total number of bytes received from brokers"@,
        Metric::TotalMessagesSent => "Kafka producer total number of messages transmitted (produced) to brokers"@,
        Metric::TotalMessagesSentBytes => "Kafka producer total number of bytes transmitted (produced) to brokers"@,
        Metric::MetadataCacheTopicsCount => "Kafka producer number of topics in the metadata cache"@,
        Metric::BrokerState => "Kafka producer broker state"@,
        Metric::BrokerStateage => "Kafka producer time since the last broker state change, in microseconds"@,
        Metric::BrokerOutbufCount => "Kafka producer number of requests awaiting transmission to the broker"@,
        Metric::BrokerOutbufMsgCount => "Kafka producer number of messages awaiting transmission to the broker"@,
        Metric::BrokerWaitrespCount => "Kafka producer number of requests in flight to the broker that await a response"@,
        Metric::BrokerWaitrespMsgCount => "Kafka producer number of messages in flight to the broker that await a response"@,
        Metric::BrokerRequestsSent => "Kafka producer total number of requests sent to the broker"@,
        Metric::BrokerRequestsSentBytes => "Kafka producer total number of bytes sent to the broker"@,
        Metric::BrokerTransmissionErrors => "Kafka producer total number of transmission errors"@,
        Metric::BrokerRequestRetries => "Kafka producer total number of request retries"@,
        Metric::BrokerRequestTimeouts => "Kafka producer total number of requests that timed out"@,
        Metric::BrokerResponsesCount => "Kafka producer total number of responses received from the broker"@,
        Metric::BrokerBytesReceived => "Kafka producer total number of bytes received from the broker"@,
        Metric::BrokerErrorsCount => "Kafka producer total number of received errors"@,
        Metric::TopicMetadataAge => "Kafka producer age of the client's metadata for this topic, in milliseconds"@,
        Metric::TopicBatchsizeAvg => "Kafka producer rolling window statistics for batch sizes, in bytes"@,
        Metric::TopicBatchcountAvg => "Kafka producer rolling window statistics for batch message counts"@,
        Metric::InternalQueueSize => "Kafka internal queue size"@,
        Metric::ErrorsCount => "Kafka internal errors count"@,
        Metric::SentMessages => "Kafka sent messages count"@,
        Metric::MessageSendDuration => "Kafka message send duration"@,
        Metric::RatelimitMessagesCount => "Total number of ratelimited messages"@,
        Metric::HttpRequestsDuration => "Duration of HTTP requests"@,
    }
}

/// The kind of a metric.
pub open spec fn metric_kind(metric: Metric) -> MetricKind {
    match metric {
        Metric::MetadataCacheTopicsCount | Metric::BrokerState | Metric::BrokerStateage | Metric::TopicMetadataAge | Metric::TopicBatchsizeAvg | Metric::TopicBatchcountAvg | Metric::InternalQueueSize => MetricKind::Gauge,
        Metric::MessageSendDuration | Metric::HttpRequestsDuration => MetricKind::Histogram,
        _ => MetricKind::Counter,
    }
}

/// The names of the labels of a metric, in order.
pub open spec fn metric_labels(metric: Metric) -> Seq<Seq<char>> {
    match metric {
        Metric::BrokerState | Metric::BrokerStateage | Metric::BrokerOutbufCount | Metric::BrokerOutbufMsgCount | Metric::BrokerWaitrespCount | Metric::BrokerWaitrespMsgCount | Metric::BrokerRequestsSent | Metric::BrokerRequestsSentBytes | Metric::BrokerTransmissionErrors | Metric::BrokerRequestRetries | Metric::BrokerRequestTimeouts | Metric::BrokerResponsesCount | Metric::BrokerBytesReceived | Metric::BrokerErrorsCount => seq!["broker"@],
        Metric::TopicMetadataAge | Metric::TopicBatchsizeAvg | Metric::TopicBatchcountAvg | Metric::InternalQueueSize | Metric::SentMessages | Metric::MessageSendDuration | Metric::RatelimitMessagesCount => seq!["topic"@],
        Metric::ErrorsCount => seq!["topic"@, "error_code"@],
        Metric::HttpRequestsDuration => seq!["code"@, "method"@],
        _ => Seq::empty(),
    }
}

impl Metric {
    pub fn name(&self) -> (text: &'static str)
        ensures
            text@ == metric_name(*self),
    {
        match self {
            Metric::ReplyQueueSize => "kafka_producer_reply_queue_size",
            Metric::CurrentMessagesInQueue => "kafka_producer_current_messages_in_queue",
            Metric::CurrentMessagesInQueueBytes => "kafka_producer_current_messages_in_queue_bytes",
            Metric::TotalRequestsCount => "kafka_producer_total_requests_count",
            Metric::TotalBytesSent => "kafka_producer_total_bytes_sent",
            Metric::TotalResponsesReceived => "kafka_producer_total_responses_received",
            Metric::TotalBytesReceived => "kafka_producer_total_bytes_received",
            Metric::TotalMessagesSent => "kafka_producer_total_messages_sent",
            Metric::TotalMessagesSentBytes => "kafka_producer_total_messages_bytes_sent",
            Metric::MetadataCacheTopicsCount => "kafka_producer_metadata_cache_topics_count",
            Metric::BrokerState => "kafka_producer_broker_state",
            Metric::BrokerStateage => "kafka_producer_broker_state_age",
            Metric::BrokerOutbufCount => "kafka_producer_broker_outbuf_count",
            Metric::BrokerOutbufMsgCount => "kafka_producer_broker_outbuf_msg_count",
            Metric::BrokerWaitrespCount => "kafka_producer_broker_waitresp_count",
            Metric::BrokerWaitrespMsgCount => "kafka_producer_broker_waitresp_msg_count",
            Metric::BrokerRequestsSent => "kafka_producer_broker_requests_sent",
            Metric::BrokerRequestsSentBytes => "kafka_producer_broker_requests_sent_bytes",
            Metric::BrokerTransmissionErrors => "kafka_producer_broker_transmission_errors",
            Metric::BrokerRequestRetries => "kafka_producer_broker_request_retries",
            Metric::BrokerRequestTimeouts => "kafka_producer_request_timeouts",
            Metric::BrokerResponsesCount => "kafka_producer_broker_responses_count",
            Metric::BrokerBytesReceived => "kafka_producer_broker_bytes_received",
            Metric::BrokerErrorsCount => "kafka_producer_broker_errors_count",
            Metric::TopicMetadataAge => "kafka_producer_topic_metadata_age",
            Metric::TopicBatchsizeAvg => "kafka_producer_topic_batchsize_avg",
            Metric::TopicBatchcountAvg => "kafka_producer_topic_batchcount_avg",
            Metric::InternalQueueSize => "kafka_internal_queue_size",
            Metric::ErrorsCount => "kafka_errors_count",
            Metric::SentMessages => "kafka_sent_messages",
            Metric::MessageSendDuration => "kafka_message_send_duration",
            Metric::RatelimitMessagesCount => "ratelimit_messages_count",
            Metric::HttpRequestsDuration => "http_requests_duration",
        }
    }

    pub fn help(&self) -> (text: &'static str)
        ensures
            text@ == metric_help(*self),
    {
        match self {
            Metric::ReplyQueueSize => "Kafka producer reply queue size",
            Metric::CurrentMessagesInQueue => "Kafka producer messages currently in queue",
            Metric::CurrentMessagesInQueueBytes => "Kafka producer messages currently in queue as bytes",
            Metric::TotalRequestsCount => "Kafka producer total number of requests sent to brokers",
            Metric::TotalBytesSent => "Kafka producer total number of bytes transmitted to brokers",
            Metric::TotalResponsesReceived => "Kafka producer total number of responses received from brokers",
            Metric::TotalBytesReceived => "Kafka producer total number of bytes received from brokers",
            Metric::TotalMessagesSent => "Kafka producer total number of messages transmitted (produced) to brokers",
            Metric::TotalMessagesSentBytes => "Kafka producer total number of bytes transmitted (produced) to brokers",
            Metric::MetadataCacheTopicsCount => "Kafka producer number of topics in the metadata cache",
            Metric::BrokerState => "Kafka producer broker state",
            Metric::BrokerStateage => "Kafka producer time since the last broker state change, in microseconds",
            Metric::BrokerOutbufCount => "Kafka producer number of requests awaiting transmission to the broker",
            Metric::BrokerOutbufMsgCount => "Kafka producer number of messages awaiting transmission to the broker",
            Metric::BrokerWaitrespCount => "Kafka producer number of requests in flight to the broker that await a response",
            Metric::BrokerWaitrespMsgCount => "Kafka producer number of messages in flight to the broker that await a response",
            Metric::BrokerRequestsSent => "Kafka producer total number of requests sent to the broker",
            Metric::BrokerRequestsSentBytes => "Kafka producer total number of bytes sent to the broker",
            Metric::BrokerTransmissionErrors => "Kafka producer total number of transmission errors",
            Metric::BrokerRequestRetries => "Kafka producer total number of request retries",
            Metric::BrokerRequestTimeouts => "Kafka producer total number of requests that timed out",
            Metric::BrokerResponsesCount => "Kafka producer total number of responses received from the broker",
            Metric::BrokerBytesReceived => "Kafka producer total number of bytes received from the broker",
            Metric::BrokerErrorsCount => "Kafka producer total number of received errors",
            Metric::TopicMetadataAge => "Kafka producer age of the client's metadata for this topic, in milliseconds",
            Metric::TopicBatchsizeAvg => "Kafka producer rolling window statistics for batch sizes, in bytes",
            Metric::TopicBatchcountAvg => "Kafka producer rolling window statistics for batch message counts",
            Metric::InternalQueueSize => "Kafka internal queue size",
            Metric::ErrorsCount => "Kafka internal errors count",
            Metric::SentMessages => "Kafka sent messages count",
            Metric::MessageSendDuration => "Kafka message send duration",
            Metric::RatelimitMessagesCount => "Total number of ratelimited messages",
            Metric::HttpRequestsDuration => "Duration of HTTP requests",
        }
    }

    pub fn kind(&self) -> (kind: MetricKind)
        ensures
            kind == metric_kind(*self),
    {
        match self {
            Metric::MetadataCacheTopicsCount | Metric::BrokerState | Metric::BrokerStateage | Metric::TopicMetadataAge | Metric::TopicBatchsizeAvg | Metric::TopicBatchcountAvg | Metric::InternalQueueSize => MetricKind::Gauge,
            Metric::MessageSendDuration | Metric::HttpRequestsDuration => MetricKind::Histogram,
            _ => MetricKind::Counter,
        }
    }

    pub fn label_names(&self) -> (names: Vec<&'static str>)
        ensures
            names@.len() == metric_labels(*self).len(),
            forall|i: int| 0 <= i < names@.len() ==> (#[trigger] names@[i])@ == metric_labels(*self)[i],
    {
        let mut names: Vec<&'static str> = Vec::new();
        match self {
            Metric::BrokerState | Metric::BrokerStateage | Metric::BrokerOutbufCount | Metric::BrokerOutbufMsgCount | Metric::BrokerWaitrespCount | Metric::BrokerWaitrespMsgCount | Metric::BrokerRequestsSent | Metric::BrokerRequestsSentBytes | Metric::BrokerTransmissionErrors | Metric::BrokerRequestRetries | Metric::BrokerRequestTimeouts | Metric::BrokerResponsesCount | Metric::BrokerBytesReceived | Metric::BrokerErrorsCount => {
                names.push("broker");
            },
            Metric::TopicMetadataAge | Metric::TopicBatchsizeAvg | Metric::TopicBatchcountAvg | Metric::InternalQueueSize | Metric::SentMessages | Metric::MessageSendDuration | Metric::RatelimitMessagesCount => {
                names.push("topic");
            },
            Metric::ErrorsCount => {
                names.push("topic");
                names.push("error_code");
            },
            Metric::HttpRequestsDuration => {
                names.push("code");
                names.push("method");
            },
            _ => {},
        }
        names
    }

    /// Every metric, in the order of the catalogue.
    pub fn all() -> (metrics: Vec<Metric>)
        ensures
            metrics@ == catalogue(),
    {
        let mut metrics: Vec<Metric> = Vec::new();
        metrics.push(Metric::ReplyQueueSize);
        metrics.push(Metric::CurrentMessagesInQueue);
        metrics.push(Metric::CurrentMessagesInQueueBytes);
        metrics.push(Metric::TotalRequestsCount);
        metrics.push(Metric::TotalBytesSent);
        metrics.push(Metric::TotalResponsesReceived);
        metrics.push(Metric::TotalBytesReceived);
        metrics.push(Metric::TotalMessagesSent);
        metrics.push(Metric::TotalMessagesSentBytes);
        metrics.push(Metric::MetadataCacheTopicsCount);
        metrics.push(Metric::BrokerState);
        metrics.push(Metric::BrokerStateage);
        metrics.push(Metric::BrokerOutbufCount);
        metrics.push(Metric::BrokerOutbufMsgCount);
        metrics.push(Metric::BrokerWaitrespCount);
        metrics.push(Metric::BrokerWaitrespMsgCount);
        metrics.push(Metric::BrokerRequestsSent);
        metrics.push(Metric::BrokerRequestsSentBytes);
        metrics.push(Metric::BrokerTransmissionErrors);
        metrics.push(Metric::BrokerRequestRetries);
        metrics.push(Metric::BrokerRequestTimeouts);
        metrics.push(Metric::BrokerResponsesCount);
        metrics.push(Metric::BrokerBytesReceived);
        metrics.push(Metric::BrokerErrorsCount);
        metrics.push(Metric::TopicMetadataAge);
        metrics.push(Metric::TopicBatchsizeAvg);
        metrics.push(Metric::TopicBatchcountAvg);
        metrics.push(Metric::InternalQueueSize);
        metrics.push(Metric::ErrorsCount);
        metrics.push(Metric::SentMessages);
        metrics.push(Metric::MessageSendDuration);
        metrics.push(Metric::RatelimitMessagesCount);
        metrics.push(Metric::HttpRequestsDuration);
        assert(metrics@ =~= catalogue());
        metrics
    }
}

/// Every metric, in the order of the catalogue.
pub open spec fn catalogue() -> Seq<Metric> {
    seq![
        Metric::ReplyQueueSize,
        Metric::CurrentMessagesInQueue,
        Metric::CurrentMessagesInQueueBytes,
        Metric::TotalRequestsCount,
        Metric::TotalBytesSent,
        Metric::TotalResponsesReceived,
        Metric::TotalBytesReceived,
        Metric::TotalMessagesSent,
        Metric::TotalMessagesSentBytes,
        Metric::MetadataCacheTopicsCount,
        Metric::BrokerState,
        Metric::BrokerStateage,
        Metric::BrokerOutbufCount,
        Metric::BrokerOutbufMsgCount,
        Metric::BrokerWaitrespCount,
        Metric::BrokerWaitrespMsgCount,
        Metric::BrokerRequestsSent,
        Metric::BrokerRequestsSentBytes,
        Metric::BrokerTransmissionErrors,
        Metric::BrokerRequestRetries,
        Metric::BrokerRequestTimeouts,
        Metric::BrokerResponsesCount,
        Metric::BrokerBytesReceived,
        Metric::BrokerErrorsCount,
        Metric::TopicMetadataAge,
        Metric::TopicBatchsizeAvg,
        Metric::TopicBatchcountAvg,
        Metric::InternalQueueSize,
        Metric::ErrorsCount,
        Metric::SentMessages,
        Metric::MessageSendDuration,
        Metric::RatelimitMessagesCount,
        Metric::HttpRequestsDuration,
    ]
}

/// What is done to a metric.
#[derive(Debug, Clone, Copy, PartialEq, Eq, Structural)]
pub enum Change {
    /// A counter goes up by this much.
    Add(u64),
    /// A gauge is set to this.
    Store(i64),
    /// A counter or gauge goes up by one.
    Inc,
    /// A gauge goes down by one.
    Dec,
}

/// One step on one metric, with the values of its labels in order.
#[derive(Debug)]
pub struct MetricUpdate {
    pub metric: Metric,
    pub labels: Vec<String>,
    pub change: Change,
}

impl View for MetricUpdate {
    type V = (Metric, Seq<Seq<char>>, Change);

    open spec fn view(&self) -> (Metric, Seq<Seq<char>>, Change) {
        (self.metric, crate::text::texts(self.labels@), self.change)
    }
}

/// A list of steps as plain values.
pub open spec fn updates_view(updates: Seq<MetricUpdate>) -> Seq<(Metric, Seq<Seq<char>>, Change)> {
    updates.map_values(|u: MetricUpdate| u@)
}

/// Where the metrics server listens.
#[derive(Debug, Clone, Copy)]
pub struct ServerConfig {
    pub port: u16,
}

/// The metrics server, before it is started.
#[derive(Debug)]
pub struct Server {
    config: ServerConfig,
}

impl Server {
    pub closed spec fn view(&self) -> ServerConfig {
        self.config
    }

    pub fn new(config: ServerConfig) -> (server: Server)
        ensures
            server.view() == config,
    {
        Server { config }
    }

    /// The port the server is to listen on.
    pub fn port(&self) -> (port: u16)
        ensures
            port == self.view().port,
    {
        self.config.port
    }
}

} // verus!
