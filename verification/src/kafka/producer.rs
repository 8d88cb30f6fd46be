//! What the producer's statistics and sends mean for the metrics.

use vstd::prelude::*;
use crate::http::api::DeliveryResult;
use crate::metrics::{Change, Metric, MetricUpdate, updates_view};
use crate::text::{signed_decimal, str_eq, to_signed_decimal};

verus! {

pub const BROKER_STATE_INIT: i64 = 0;

pub const BROKER_STATE_DOWN: i64 = 1;

pub const BROKER_STATE_CONNECT: i64 = 2;

pub const BROKER_STATE_AUTH: i64 = 3;

pub const BROKER_STATE_APIVERSION_QUERY: i64 = 4;

pub const BROKER_STATE_AUTH_HANDSHAKE: i64 = 5;

pub const BROKER_STATE_UP: i64 = 6;

pub const BROKER_STATE_UPDATE: i64 = 7;

/// What the client reports of one broker.
#[derive(Debug)]
pub struct BrokerStats {
    pub name: String,
    pub state: String,
    pub stateage: i64,
    pub outbuf_cnt: i64,
    pub outbuf_msg_cnt: i64,
    pub waitresp_cnt: i64,
    pub waitresp_msg_cnt: i64,
    pub tx: u64,
    pub txbytes: u64,
    pub txerrs: u64,
    pub txretries: u64,
    pub req_timeouts: u64,
    pub rx: u64,
    pub rxbytes: u64,
    pub rxerrs: u64,
}

/// What the client reports of one topic.
#[derive(Debug)]
pub struct TopicStats {
    pub topic: String,
    pub metadata_age: i64,
    pub batchsize_avg: i64,
    pub batchcnt_avg: i64,
}

/// One report of the client's statistics, as far as the metrics use it.
#[derive(Debug)]
pub struct Statistics {
    pub replyq: i64,
    pub msg_cnt: u64,
    pub msg_size: u64,
    pub tx: i64,
    pub tx_bytes: i64,
    pub rx: i64,
    pub rx_bytes: i64,
    pub txmsgs: i64,
    pub txmsg_bytes: i64,
    pub metadata_cache_cnt: i64,
    pub brokers: Vec<BrokerStats>,
    pub topics: Vec<TopicStats>,
}

/// The number of a broker state: `INIT` 0, `DOWN` 1, `CONNECT` 2, `AUTH` 3,
/// `APIVERSION_QUERY` 4, `AUTH_HANDSHAKE` 5, `UP` 6, `UPDATE` 7; anything
/// else counts as down.
pub open spec fn broker_state_code(state: Seq<char>) -> i64 {
    if state == "INIT"@ {
        BROKER_STATE_INIT
    } else if state == "DOWN"@ {
        BROKER_STATE_DOWN
    } else if state == "CONNECT"@ {
        BROKER_STATE_CONNECT
    } else if state == "AUTH"@ {
        BROKER_STATE_AUTH
    } else if state == "APIVERSION_QUERY"@ {
        BROKER_STATE_APIVERSION_QUERY
    } else if state == "AUTH_HANDSHAKE"@ {
        BROKER_STATE_AUTH_HANDSHAKE
    } else if state == "UP"@ {
        BROKER_STATE_UP
    } else if state == "UPDATE"@ {
        BROKER_STATE_UPDATE
    } else {
        BROKER_STATE_DOWN
    }
}

/// What a signed reading adds to a counter: itself, and nothing where it is
/// below zero.
pub open spec fn count_of(reading: i64) -> u64 {
    if reading < 0 {
        0
    } else {
        reading as u64
    }
}

/// The steps for the readings of the client as a whole.
pub open spec fn client_updates(s: Statistics) -> Seq<(Metric, Seq<Seq<char>>, Change)> {
    seq![
        (Metric::ReplyQueueSize, Seq::empty(), Change::Add(count_of(s.replyq))),
        (Metric::CurrentMessagesInQueue, Seq::empty(), Change::Add(s.msg_cnt)),
        (Metric::CurrentMessagesInQueueBytes, Seq::empty(), Change::Add(s.msg_size)),
        (Metric::TotalRequestsCount, Seq::empty(), Change::Add(count_of(s.tx))),
        (Metric::TotalBytesSent, Seq::empty(), Change::Add(count_of(s.tx_bytes))),
        (Metric::TotalResponsesReceived, Seq::empty(), Change::Add(count_of(s.rx))),
        (Metric::TotalBytesReceived, Seq::empty(), Change::Add(count_of(s.rx_bytes))),
        (Metric::TotalMessagesSent, Seq::empty(), Change::Add(count_of(s.txmsgs))),
        (Metric::TotalMessagesSentBytes, Seq::empty(), Change::Add(count_of(s.txmsg_bytes))),
        (Metric::MetadataCacheTopicsCount, Seq::empty(), Change::Store(s.metadata_cache_cnt)),
    ]
}

/// The steps for the readings of one broker, each labelled with its name.
pub open spec fn broker_updates(b: BrokerStats) -> Seq<(Metric, Seq<Seq<char>>, Change)> {
    seq![
        (Metric::BrokerState, seq![b.name@], Change::Store(broker_state_code(b.state@))),
        (Metric::BrokerStateage, seq![b.name@], Change::Store(b.stateage)),
        (Metric::BrokerOutbufCount, seq![b.name@], Change::Add(count_of(b.outbuf_cnt))),
        (Metric::BrokerOutbufMsgCount, seq![b.name@], Change::Add(count_of(b.outbuf_msg_cnt))),
        (Metric::BrokerWaitrespCount, seq![b.name@], Change::Add(count_of(b.waitresp_cnt))),
        (Metric::BrokerWaitrespMsgCount, seq![b.name@], Change::Add(count_of(b.waitresp_msg_cnt))),
        (Metric::BrokerRequestsSent, seq![b.name@], Change::Add(b.tx)),
        (Metric::BrokerRequestsSentBytes, seq![b.name@], Change::Add(b.txbytes)),
        (Metric::BrokerTransmissionErrors, seq![b.name@], Change::Add(b.txerrs)),
        (Metric::BrokerRequestRetries, seq![b.name@], Change::Add(b.txretries)),
        (Metric::BrokerRequestTimeouts, seq![b.name@], Change::Add(b.req_timeouts)),
        (Metric::BrokerResponsesCount, seq![b.name@], Change::Add(b.rx)),
        (Metric::BrokerBytesReceived, seq![b.name@], Change::Add(b.rxbytes)),
        (Metric::BrokerErrorsCount, seq![b.name@], Change::Add(b.rxerrs)),
    ]
}

/// The steps for the readings of one topic, each labelled with its name.
pub open spec fn topic_updates(t: TopicStats) -> Seq<(Metric, Seq<Seq<char>>, Change)> {
    seq![
        (Metric::TopicMetadataAge, seq![t.topic@], Change::Store(t.metadata_age)),
        (Metric::TopicBatchsizeAvg, seq![t.topic@], Change::Store(t.batchsize_avg)),
        (Metric::TopicBatchcountAvg, seq![t.topic@], Change::Store(t.batchcnt_avg)),
    ]
}

/// The steps for a list of brokers, broker after broker.
pub open spec fn all_broker_updates(brokers: Seq<BrokerStats>) -> Seq<
    (Metric, Seq<Seq<char>>, Change),
>
    decreases brokers.len(),
{
    if brokers.len() == 0 {
        Seq::empty()
    } else {
        all_broker_updates(brokers.drop_last()) + broker_updates(brokers.last())
    }
}

/// The steps for a list of topics, topic after topic.
pub open spec fn all_topic_updates(topics: Seq<TopicStats>) -> Seq<(Metric, Seq<Seq<char>>, Change)>
    decreases topics.len(),
{
    if topics.len() == 0 {
        Seq::empty()
    } else {
        all_topic_updates(topics.drop_last()) + topic_updates(topics.last())
    }
}

/// Everything one report of statistics does to the metrics: first the
/// client's own readings, then each broker's, then each topic's.
pub open spec fn projected(s: Statistics) -> Seq<(Metric, Seq<Seq<char>>, Change)> {
    client_updates(s) + all_broker_updates(s.brokers@) + all_topic_updates(s.topics@)
}

/// What the start of a send to `topic` does: one more in flight, one more
/// sent.
pub open spec fn send_started(topic: Seq<char>) -> Seq<(Metric, Seq<Seq<char>>, Change)> {
    seq![
        (Metric::InternalQueueSize, seq![topic], Change::Inc),
        (Metric::SentMessages, seq![topic], Change::Inc),
    ]
}

/// What the end of a send to `topic` does: one less in flight, and for a
/// failure one more error under its code.
pub open spec fn send_finished(topic: Seq<char>, result: DeliveryResult) -> Seq<
    (Metric, Seq<Seq<char>>, Change),
> {
    match result {
        DeliveryResult::Delivered => seq![(Metric::InternalQueueSize, seq![topic], Change::Dec)],
        DeliveryResult::Failed { kind, message } => seq![
            (Metric::InternalQueueSize, seq![topic], Change::Dec),
            (Metric::ErrorsCount, seq![topic, signed_decimal(kind as int)], Change::Inc),
        ],
    }
}

fn clamp(reading: i64) -> (count: u64)
    ensures
        count == count_of(reading),
{
    if reading < 0 {
        0
    } else {
        reading as u64
    }
}

fn plain(out: &mut Vec<MetricUpdate>, metric: Metric, change: Change)
    ensures
        updates_view(final(out)@) == updates_view(old(out)@).push(
            (metric, Seq::<Seq<char>>::empty(), change),
        ),
{
    let update = MetricUpdate { metric, labels: Vec::new(), change };
    assert(update@.1 =~= Seq::<Seq<char>>::empty());
    out.push(update);
    assert(updates_view(out@) =~= updates_view(old(out)@).push(update@));
}

fn labelled(out: &mut Vec<MetricUpdate>, metric: Metric, label: &String, change: Change)
    ensures
        updates_view(final(out)@) == updates_view(old(out)@).push((metric, seq![label@], change)),
{
    let mut labels: Vec<String> = Vec::new();
    labels.push(label.clone());
    let update = MetricUpdate { metric, labels, change };
    assert(update@.1 =~= seq![label@]);
    out.push(update);
    assert(updates_view(out@) =~= updates_view(old(out)@).push(update@));
}

/// The number of a broker state.
pub fn parse_state(state: &String) -> (code: i64)
    ensures
        code == broker_state_code(state@),
{
    let s = state.as_str();
    if str_eq(s, "INIT") {
        BROKER_STATE_INIT
    } else if str_eq(s, "DOWN") {
        BROKER_STATE_DOWN
    } else if str_eq(s, "CONNECT") {
        BROKER_STATE_CONNECT
    } else if str_eq(s, "AUTH") {
        BROKER_STATE_AUTH
    } else if str_eq(s, "APIVERSION_QUERY") {
        BROKER_STATE_APIVERSION_QUERY
    } else if str_eq(s, "AUTH_HANDSHAKE") {
        BROKER_STATE_AUTH_HANDSHAKE
    } else if str_eq(s, "UP") {
        BROKER_STATE_UP
    } else if str_eq(s, "UPDATE") {
        BROKER_STATE_UPDATE
    } else {
        BROKER_STATE_DOWN
    }
}

fn broker(out: &mut Vec<MetricUpdate>, b: &BrokerStats)
    ensures
        updates_view(final(out)@) == updates_view(old(out)@) + broker_updates(*b),
{
    labelled(out, Metric::BrokerState, &b.name, Change::Store(parse_state(&b.state)));
    labelled(out, Metric::BrokerStateage, &b.name, Change::Store(b.stateage));
    labelled(out, Metric::BrokerOutbufCount, &b.name, Change::Add(clamp(b.outbuf_cnt)));
    labelled(out, Metric::BrokerOutbufMsgCount, &b.name, Change::Add(clamp(b.outbuf_msg_cnt)));
    labelled(out, Metric::BrokerWaitrespCount, &b.name, Change::Add(clamp(b.waitresp_cnt)));
    labelled(out, Metric::BrokerWaitrespMsgCount, &b.name, Change::Add(clamp(b.waitresp_msg_cnt)));
    labelled(out, Metric::BrokerRequestsSent, &b.name, Change::Add(b.tx));
    labelled(out, Metric::BrokerRequestsSentBytes, &b.name, Change::Add(b.txbytes));
    labelled(out, Metric::BrokerTransmissionErrors, &b.name, Change::Add(b.txerrs));
    labelled(out, Metric::BrokerRequestRetries, &b.name, Change::Add(b.txretries));
    labelled(out, Metric::BrokerRequestTimeouts, &b.name, Change::Add(b.req_timeouts));
    labelled(out, Metric::BrokerResponsesCount, &b.name, Change::Add(b.rx));
    labelled(out, Metric::BrokerBytesReceived, &b.name, Change::Add(b.rxbytes));
    labelled(out, Metric::BrokerErrorsCount, &b.name, Change::Add(b.rxerrs));
    assert(updates_view(out@) =~= updates_view(old(out)@) + broker_updates(*b));
}

fn topic(out: &mut Vec<MetricUpdate>, t: &TopicStats)
    ensures
        updates_view(final(out)@) == updates_view(old(out)@) + topic_updates(*t),
{
    labelled(out, Metric::TopicMetadataAge, &t.topic, Change::Store(t.metadata_age));
    labelled(out, Metric::TopicBatchsizeAvg, &t.topic, Change::Store(t.batchsize_avg));
    labelled(out, Metric::TopicBatchcountAvg, &t.topic, Change::Store(t.batchcnt_avg));
    assert(updates_view(out@) =~= updates_view(old(out)@) + topic_updates(*t));
}

/// Everything one report of statistics does to the metrics.
pub fn stats(statistics: &Statistics) -> (updates: Vec<MetricUpdate>)
    ensures
        updates_view(updates@) == projected(*statistics),
{
    let mut out: Vec<MetricUpdate> = Vec::new();
    assert(updates_view(out@) =~= Seq::empty());
    plain(&mut out, Metric::ReplyQueueSize, Change::Add(clamp(statistics.replyq)));
    plain(&mut out, Metric::CurrentMessagesInQueue, Change::Add(statistics.msg_cnt));
    plain(&mut out, Metric::CurrentMessagesInQueueBytes, Change::Add(statistics.msg_size));
    plain(&mut out, Metric::TotalRequestsCount, Change::Add(clamp(statistics.tx)));
    plain(&mut out, Metric::TotalBytesSent, Change::Add(clamp(statistics.tx_bytes)));
    plain(&mut out, Metric::TotalResponsesReceived, Change::Add(clamp(statistics.rx)));
    plain(&mut out, Metric::TotalBytesReceived, Change::Add(clamp(statistics.rx_bytes)));
    plain(&mut out, Metric::TotalMessagesSent, Change::Add(clamp(statistics.txmsgs)));
    plain(&mut out, Metric::TotalMessagesSentBytes, Change::Add(clamp(statistics.txmsg_bytes)));
    plain(&mut out, Metric::MetadataCacheTopicsCount, Change::Store(statistics.metadata_cache_cnt));
    assert(updates_view(out@) =~= client_updates(*statistics));
    let mut i: usize = 0;
    assert(statistics.brokers@.take(0) =~= Seq::empty());
    while i < statistics.brokers.len()
        invariant
            i <= statistics.brokers@.len(),
            updates_view(out@) == client_updates(*statistics) + all_broker_updates(
                statistics.brokers@.take(i as int),
            ),
        decreases statistics.brokers@.len() - i,
    {
        proof {
            assert(statistics.brokers@.take(i + 1).drop_last() =~= statistics.brokers@.take(
                i as int,
            ));
            assert(statistics.brokers@.take(i + 1).last() == statistics.brokers@[i as int]);
        }
        broker(&mut out, &statistics.brokers[i]);
        assert(updates_view(out@) =~= client_updates(*statistics) + all_broker_updates(
            statistics.brokers@.take(i + 1),
        ));
        i = i + 1;
    }
    assert(statistics.brokers@.take(i as int) =~= statistics.brokers@);
    let mut j: usize = 0;
    assert(statistics.topics@.take(0) =~= Seq::empty());
    assert(updates_view(out@) =~= client_updates(*statistics) + all_broker_updates(
        statistics.brokers@,
    ) + all_topic_updates(statistics.topics@.take(0)));
    while j < statistics.topics.len()
        invariant
            j <= statistics.topics@.len(),
            updates_view(out@) == client_updates(*statistics) + all_broker_updates(
                statistics.brokers@,
            ) + all_topic_updates(statistics.topics@.take(j as int)),
        decreases statistics.topics@.len() - j,
    {
        proof {
            assert(statistics.topics@.take(j + 1).drop_last() =~= statistics.topics@.take(
                j as int,
            ));
            assert(statistics.topics@.take(j + 1).last() == statistics.topics@[j as int]);
        }
        topic(&mut out, &statistics.topics[j]);
        assert(updates_view(out@) =~= client_updates(*statistics) + all_broker_updates(
            statistics.brokers@,
        ) + all_topic_updates(statistics.topics@.take(j + 1)));
        j = j + 1;
    }
    assert(statistics.topics@.take(j as int) =~= statistics.topics@);
    out
}

/// The producer's bookkeeping around a send. The send itself is the
/// client's.
pub struct Producer {}

impl Producer {
    /// What the start of a send to `topic` does to the metrics.
    pub fn send_begins(topic: &String) -> (updates: Vec<MetricUpdate>)
        ensures
            updates_view(updates@) == send_started(topic@),
    {
        let mut out: Vec<MetricUpdate> = Vec::new();
        assert(updates_view(out@) =~= Seq::empty());
        labelled(&mut out, Metric::InternalQueueSize, topic, Change::Inc);
        labelled(&mut out, Metric::SentMessages, topic, Change::Inc);
        assert(updates_view(out@) =~= send_started(topic@));
        out
    }

    /// What the end of a send to `topic` does to the metrics, given what the
    /// client reported.
    pub fn send_ends(topic: &String, result: &DeliveryResult) -> (updates: Vec<MetricUpdate>)
        ensures
            updates_view(updates@) == send_finished(topic@, *result),
    {
        let mut out: Vec<MetricUpdate> = Vec::new();
        assert(updates_view(out@) =~= Seq::empty());
        labelled(&mut out, Metric::InternalQueueSize, topic, Change::Dec);
        match result {
            DeliveryResult::Delivered => {},
            DeliveryResult::Failed { kind, message } => {
                let mut labels: Vec<String> = Vec::new();
                labels.push(topic.clone());
                labels.push(to_signed_decimal(*kind as i64));
                let update = MetricUpdate { metric: Metric::ErrorsCount, labels, change: Change::Inc };
                assert(update@.1 =~= seq![topic@, signed_decimal(*kind as int)]);
                let ghost before = updates_view(out@);
                out.push(update);
                assert(updates_view(out@) =~= before.push(update@));
            },
        }
        assert(updates_view(out@) =~= send_finished(topic@, *result));
        out
    }
}

} // verus!
