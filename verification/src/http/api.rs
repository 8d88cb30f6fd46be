//! Turning a push request into its response: each record is put to the rate
//! limiter, the admitted ones are sent, and the outcomes are collated in the
//! order of the request.

use vstd::prelude::*;
use vstd::string::StringExecFns;
use crate::metrics::{Change, Metric, MetricUpdate, updates_view};
use crate::ratelimit::Limiter;

verus! {

/// How long one send may take before it counts as failed, in milliseconds.
pub const SEND_TIMEOUT_MS: u64 = 100;

/// One record of a push.
#[derive(Debug)]
pub struct Record {
    pub data: String,
    pub topic: String,
    pub key: Option<String>,
    pub partition: Option<i32>,
}

/// A batch of records. Without `wait_for_send` the batch is answered at once
/// and sent in the background.
#[derive(Debug)]
pub struct PushRequest {
    pub records: Vec<Record>,
    pub wait_for_send: Option<bool>,
}

/// What became of one record: `message` is there exactly where `error` is set.
#[derive(Debug)]
pub struct PushResponseError {
    pub error: bool,
    pub message: Option<String>,
}

/// The answer to a push: one entry for each record, in the order of the request.
#[derive(Debug)]
pub struct PushResponse {
    pub status: String,
    pub errors: Vec<PushResponseError>,
}

/// What the producer reports of one send.
#[derive(Debug)]
pub enum DeliveryResult {
    Delivered,
    Failed { kind: i32, message: String },
}

/// What became of one record in the pipeline.
#[derive(Debug)]
pub enum Outcome {
    /// The limiter let it pass, and the producer reported this.
    Admitted(DeliveryResult),
    /// The limiter turned it away; the producer was not called.
    Rejected,
}

/// The outcome of the record at position `idx` of its batch.
#[derive(Debug)]
pub struct ProduceHelper {
    pub idx: usize,
    pub outcome: Outcome,
}

/// Where one record of a batch stands.
#[derive(Debug)]
pub enum Slot {
    /// Not yet put to the limiter.
    Pending,
    /// Admitted; its send has not reported back.
    Sending,
    /// Done.
    Settled(Outcome),
}

pub open spec fn status_ok() -> Seq<char> {
    "ok"@
}

pub open spec fn status_err() -> Seq<char> {
    "err"@
}

pub open spec fn message_ratelimit() -> Seq<char> {
    "ratelimit"@
}

pub open spec fn text_of(message: Option<String>) -> Option<Seq<char>> {
    match message {
        Some(m) => Some(m@),
        None => None,
    }
}

impl View for PushResponseError {
    type V = (bool, Option<Seq<char>>);

    open spec fn view(&self) -> (bool, Option<Seq<char>>) {
        (self.error, text_of(self.message))
    }
}

/// The entry that reports `outcome`: a rejection reads `ratelimit`, a failed
/// send carries the producer's description, a delivery carries nothing.
pub open spec fn item_of(outcome: Outcome) -> (bool, Option<Seq<char>>) {
    match outcome {
        Outcome::Rejected => (true, Some(message_ratelimit())),
        Outcome::Admitted(DeliveryResult::Delivered) => (false, None),
        Outcome::Admitted(DeliveryResult::Failed { kind, message }) => (true, Some(message@)),
    }
}

/// What a rejection by the limiter does to the metrics: one more record
/// turned away, under its topic.
pub open spec fn rejection_counted(topic: Seq<char>) -> Seq<(Metric, Seq<Seq<char>>, Change)> {
    seq![(Metric::RatelimitMessagesCount, seq![topic], Change::Inc)]
}

/// Whether the limiter's answer lets a record pass: only a plain yes does.
pub open spec fn passes(verdict: Result<bool, String>) -> bool {
    verdict == Ok::<bool, String>(true)
}

/// No entry of `items` reports an error.
pub open spec fn all_clear(items: Seq<PushResponseError>) -> bool {
    forall|i: int| 0 <= i < items.len() ==> !(#[trigger] items[i]).error
}

/// The status that goes with `items`.
pub open spec fn status_of(items: Seq<PushResponseError>) -> Seq<char> {
    if all_clear(items) {
        status_ok()
    } else {
        status_err()
    }
}

/// An entry carries a message exactly where it reports an error.
pub proof fn lemma_message_iff_error(outcome: Outcome)
    ensures
        item_of(outcome).0 <==> item_of(outcome).1 is Some,
{
}

/// The two statuses are two different words.
pub proof fn lemma_statuses_differ()
    ensures
        status_ok() != status_err(),
{
    reveal_strlit("ok");
    reveal_strlit("err");
    assert(status_ok().len() == 2);
    assert(status_err().len() == 3);
}

impl PushResponse {
    /// The answer for a batch with nothing to report: `ok`, no entries.
    pub fn empty_ok() -> (response: PushResponse)
        ensures
            response.status@ == status_ok(),
            response.errors@.len() == 0,
    {
        PushResponse { status: String::from_str("ok"), errors: Vec::new() }
    }

    /// The answer that carries `errors`: `ok` if none of them reports an
    /// error, `err` otherwise.
    pub fn from_items(errors: Vec<PushResponseError>) -> (response: PushResponse)
        ensures
            response.errors == errors,
            response.status@ == status_of(errors@),
            response.status@ == status_ok() <==> all_clear(errors@),
    {
        let mut has_errors = false;
        let mut i: usize = 0;
        while i < errors.len()
            invariant
                i <= errors@.len(),
                has_errors <==> !all_clear(errors@.take(i as int)),
            decreases errors@.len() - i,
        {
            if errors[i].error {
                has_errors = true;
                assert(errors@.take(i + 1)[i as int].error);
            } else {
                proof {
                    if all_clear(errors@.take(i as int)) {
                        assert forall|k: int| 0 <= k < i + 1 implies !(#[trigger] errors@.take(
                            i + 1,
                        )[k]).error by {
                            if k < i {
                                assert(!errors@.take(i as int)[k].error);
                            }
                        }
                    } else {
                        let k = choose|k: int|
                            0 <= k < i && (#[trigger] errors@.take(i as int)[k]).error;
                        assert(errors@.take(i + 1)[k].error);
                    }
                }
            }
            i = i + 1;
        }
        proof {
            assert(errors@.take(i as int) =~= errors@);
            lemma_statuses_differ();
        }
        let status = if has_errors {
            String::from_str("err")
        } else {
            String::from_str("ok")
        };
        PushResponse { status, errors }
    }
}

/// One batch on its way through the pipeline: its records, and where each of
/// them stands.
pub struct Request {
    records: Vec<Record>,
    slots: Vec<Slot>,
}

impl Request {
    #[verifier::type_invariant]
    spec fn inv(self) -> bool {
        self.records@.len() == self.slots@.len()
    }

    /// The records of the batch, in the order of the request.
    pub closed spec fn records(&self) -> Seq<Record> {
        self.records@
    }

    /// Where each record stands, by its position in the request.
    pub closed spec fn slots(&self) -> Seq<Slot> {
        self.slots@
    }

    /// No record has been put to the limiter yet.
    pub open spec fn untouched(&self) -> bool {
        &&& self.slots().len() == self.records().len()
        &&& forall|i: int| 0 <= i < self.slots().len() ==> #[trigger] self.slots()[i] is Pending
    }

    /// Every record has its outcome.
    pub open spec fn settled(&self) -> bool {
        &&& self.slots().len() == self.records().len()
        &&& forall|i: int| 0 <= i < self.slots().len() ==> #[trigger] self.slots()[i] is Settled
    }

    /// What putting record `idx` to the limiter does when the clock answers
    /// `now`. A record that waits is admitted or turned away by the limiter's
    /// answer for its topic, and only a plain yes admits it. For a position
    /// outside the batch, or a record that was put to the limiter before,
    /// nothing changes.
    pub open spec fn admission(
        &self,
        limiter: &Limiter,
        idx: usize,
        now: Result<u64, String>,
        post: &Request,
        post_limiter: &Limiter,
        send: bool,
    ) -> bool {
        &&& post.records() == self.records()
        &&& if idx < self.slots().len() && idx < self.records().len() && self.slots()[idx as int]
            is Pending {
            let topic = self.records()[idx as int].topic@;
            &&& limiter.checked(topic, now, post_limiter, limiter.verdict(topic, now))
            &&& send == passes(limiter.verdict(topic, now))
            &&& post.slots() == self.slots().update(
                idx as int,
                if send {
                    Slot::Sending
                } else {
                    Slot::Settled(Outcome::Rejected)
                },
            )
        } else {
            &&& !send
            &&& post.slots() == self.slots()
            &&& post_limiter.same_as(limiter)
        }
    }

    /// A batch of `records`, none of them put to the limiter yet.
    pub fn new(records: Vec<Record>) -> (request: Request)
        ensures
            request.records() == records@,
            request.untouched(),
    {
        let mut slots: Vec<Slot> = Vec::new();
        let mut i: usize = 0;
        while i < records.len()
            invariant
                i <= records@.len(),
                slots@.len() == i,
                forall|k: int| 0 <= k < i ==> #[trigger] slots@[k] is Pending,
            decreases records@.len() - i,
        {
            slots.push(Slot::Pending);
            i = i + 1;
        }
        Request { records, slots }
    }

    /// The number of records in the batch.
    pub fn len(&self) -> (n: usize)
        ensures
            n == self.records().len(),
            n == self.slots().len(),
    {
        proof {
            use_type_invariant(self);
        }
        self.records.len()
    }

    /// The record at position `idx`, if the batch has one there.
    pub fn record(&self, idx: usize) -> (found: Option<&Record>)
        ensures
            idx < self.records().len() ==> found == Some(&self.records()[idx as int]),
            idx >= self.records().len() ==> found is None,
    {
        if idx < self.records.len() {
            Some(&self.records[idx])
        } else {
            None
        }
    }

    /// The entry that reports a rejection by the limiter.
    pub fn new_ratelimit_error() -> (item: PushResponseError)
        ensures
            item@ == item_of(Outcome::Rejected),
    {
        PushResponseError { error: true, message: Some(String::from_str("ratelimit")) }
    }

    /// What the rejection of a record for `topic` does to the metrics.
    pub fn count_rejection(topic: &String) -> (updates: Vec<MetricUpdate>)
        ensures
            updates_view(updates@) == rejection_counted(topic@),
    {
        let mut labels: Vec<String> = Vec::new();
        labels.push(topic.clone());
        let update = MetricUpdate {
            metric: Metric::RatelimitMessagesCount,
            labels,
            change: Change::Inc,
        };
        assert(update@.1 =~= seq![topic@]);
        let mut updates: Vec<MetricUpdate> = Vec::new();
        updates.push(update);
        assert(updates_view(updates@) =~= rejection_counted(topic@));
        updates
    }

    /// Puts `topic` to the limiter, the clock having answered `now`. Anything
    /// but a plain yes is a rejection.
    pub fn check_ratelimit_at(limiter: &mut Limiter, topic: &String, now: Result<u64, String>) -> (res:
        Result<(), ProduceHelper>)
        ensures
            old(limiter).checked(topic@, now, final(limiter), old(limiter).verdict(topic@, now)),
            res is Ok <==> passes(old(limiter).verdict(topic@, now)),
            res matches Err(helper) ==> helper.idx == 0 && helper.outcome == Outcome::Rejected,
    {
        let ratelimit_result = limiter.check_at(topic, now);
        match ratelimit_result {
            Ok(true) => Ok(()),
            _ => Err(ProduceHelper { idx: 0, outcome: Outcome::Rejected }),
        }
    }

    /// Puts `topic` to the limiter. Anything but a plain yes is a rejection,
    /// the limiter's own failure too.
    pub fn check_ratelimit(limiter: &mut Limiter, topic: &String) -> (res: Result<(), ProduceHelper>)
        ensures
            exists|now: Result<u64, String>|
                {
                    &&& old(limiter).checked(
                        topic@,
                        now,
                        final(limiter),
                        #[trigger] old(limiter).verdict(topic@, now),
                    )
                    &&& res is Ok <==> passes(old(limiter).verdict(topic@, now))
                },
            res matches Err(helper) ==> helper.idx == 0 && helper.outcome == Outcome::Rejected,
    {
        let ratelimit_result = limiter.check(topic);
        match ratelimit_result {
            Ok(true) => Ok(()),
            _ => Err(ProduceHelper { idx: 0, outcome: Outcome::Rejected }),
        }
    }

    fn waits(&self, idx: usize) -> (pending: bool)
        ensures
            pending == (idx < self.slots().len() && idx < self.records().len() && self.slots()[idx as int]
                is Pending),
    {
        proof {
            use_type_invariant(self);
        }
        if idx < self.slots.len() {
            match &self.slots[idx] {
                Slot::Pending => true,
                _ => false,
            }
        } else {
            false
        }
    }

    fn mark(&mut self, idx: usize, slot: Slot)
        requires
            idx < old(self).slots().len(),
        ensures
            final(self).records() == old(self).records(),
            final(self).slots() == old(self).slots().update(idx as int, slot),
    {
        proof {
            use_type_invariant(&*self);
        }
        self.slots[idx] = slot;
    }

    /// Puts the record at `idx` to the limiter, the clock having answered
    /// `now`, and says whether the record is to be sent. A record that is
    /// turned away has its outcome at once and must not be sent; it is to be
    /// counted as `count_rejection` says.
    pub fn screen_at(&mut self, limiter: &mut Limiter, idx: usize, now: Result<u64, String>) -> (send:
        bool)
        ensures
            old(self).admission(old(limiter), idx, now, final(self), final(limiter), send),
    {
        if !self.waits(idx) {
            return false;
        }
        let verdict = Request::check_ratelimit_at(limiter, &self.records[idx].topic, now);
        match verdict {
            Ok(_) => {
                self.mark(idx, Slot::Sending);
                true
            },
            Err(helper) => {
                self.mark(idx, Slot::Settled(helper.outcome));
                false
            },
        }
    }

    /// Puts the record at `idx` to the limiter and says whether the record is
    /// to be sent.
    pub fn screen(&mut self, limiter: &mut Limiter, idx: usize) -> (send: bool)
        ensures
            exists|now: Result<u64, String>| #[trigger]
                old(self).admission(old(limiter), idx, now, final(self), final(limiter), send),
    {
        if !self.waits(idx) {
            proof {
                let now: Result<u64, String> = Ok(0u64);
                assert(old(self).admission(old(limiter), idx, now, self, limiter, false));
            }
            return false;
        }
        let verdict = Request::check_ratelimit(limiter, &self.records[idx].topic);
        let ghost now: Result<u64, String> = choose|now: Result<u64, String>|
            {
                &&& old(limiter).checked(
                    old(self).records()[idx as int].topic@,
                    now,
                    limiter,
                    #[trigger] old(limiter).verdict(old(self).records()[idx as int].topic@, now),
                )
                &&& verdict is Ok <==> passes(
                    old(limiter).verdict(old(self).records()[idx as int].topic@, now),
                )
            };
        match verdict {
            Ok(_) => {
                self.mark(idx, Slot::Sending);
                proof {
                    assert(old(self).admission(old(limiter), idx, now, self, limiter, true));
                }
                true
            },
            Err(helper) => {
                self.mark(idx, Slot::Settled(helper.outcome));
                proof {
                    assert(old(self).admission(old(limiter), idx, now, self, limiter, false));
                }
                false
            },
        }
    }

    /// Takes in what the producer reported of the record at `idx`. Only a
    /// record that was admitted and has not reported yet takes a result;
    /// otherwise nothing changes and the answer is no.
    pub fn complete(&mut self, idx: usize, result: DeliveryResult) -> (taken: bool)
        ensures
            final(self).records() == old(self).records(),
            taken == (idx < old(self).slots().len() && old(self).slots()[idx as int] is Sending),
            taken ==> final(self).slots() == old(self).slots().update(
                idx as int,
                Slot::Settled(Outcome::Admitted(result)),
            ),
            !taken ==> final(self).slots() == old(self).slots(),
    {
        let sending = if idx < self.slots.len() {
            match &self.slots[idx] {
                Slot::Sending => true,
                _ => false,
            }
        } else {
            false
        };
        if sending {
            self.mark(idx, Slot::Settled(Outcome::Admitted(result)));
        }
        sending
    }

    /// Whether every record has its outcome.
    pub fn is_settled(&self) -> (done: bool)
        ensures
            done == self.settled(),
    {
        proof {
            use_type_invariant(self);
        }
        let mut i: usize = 0;
        while i < self.slots.len()
            invariant
                i <= self.slots@.len(),
                forall|k: int| 0 <= k < i ==> #[trigger] self.slots@[k] is Settled,
            decreases self.slots@.len() - i,
        {
            match &self.slots[i] {
                Slot::Settled(_) => {},
                _ => {
                    return false;
                },
            }
            i = i + 1;
        }
        true
    }
}

/// The entry that reports `outcome`.
pub fn report(outcome: &Outcome) -> (item: PushResponseError)
    ensures
        item@ == item_of(*outcome),
{
    match outcome {
        Outcome::Rejected => Request::new_ratelimit_error(),
        Outcome::Admitted(DeliveryResult::Delivered) => PushResponseError {
            error: false,
            message: None,
        },
        Outcome::Admitted(DeliveryResult::Failed { kind, message }) => PushResponseError {
            error: true,
            message: Some(message.clone()),
        },
    }
}

impl Request {
    /// The entries of the response, once every record has its outcome: entry
    /// `i` reports the record at position `i` of the request.
    pub fn produce_records(&self) -> (res: Option<Vec<PushResponseError>>)
        ensures
            res is Some <==> self.settled(),
            res matches Some(items) ==> {
                &&& items@.len() == self.records().len()
                &&& forall|i: int|
                    0 <= i < items@.len() ==> (#[trigger] items@[i])@ == item_of(
                        self.slots()[i]->Settled_0,
                    )
            },
    {
        proof {
            use_type_invariant(self);
        }
        let mut items: Vec<PushResponseError> = Vec::new();
        let mut i: usize = 0;
        while i < self.slots.len()
            invariant
                i <= self.slots@.len(),
                items@.len() == i,
                forall|k: int| 0 <= k < i ==> #[trigger] self.slots@[k] is Settled,
                forall|k: int|
                    0 <= k < i ==> (#[trigger] items@[k])@ == item_of(self.slots@[k]->Settled_0),
            decreases self.slots@.len() - i,
        {
            match &self.slots[i] {
                Slot::Settled(outcome) => {
                    items.push(report(outcome));
                },
                _ => {
                    return None;
                },
            }
            i = i + 1;
        }
        Some(items)
    }

    /// The response to the batch, once every record has its outcome. It has
    /// one entry for each record, entry `i` reports the record at position
    /// `i`, and the status is `ok` exactly where no entry reports an error.
    pub fn response(&self) -> (res: Option<PushResponse>)
        ensures
            res is Some <==> self.settled(),
            res matches Some(response) ==> {
                &&& response.errors@.len() == self.records().len()
                &&& forall|i: int|
                    0 <= i < response.errors@.len() ==> (#[trigger] response.errors@[i])@
                        == item_of(self.slots()[i]->Settled_0)
                &&& forall|i: int|
                    0 <= i < response.errors@.len() ==> ((#[trigger] response.errors@[i]).error
                        <==> response.errors@[i].message is Some)
                &&& response.status@ == status_of(response.errors@)
                &&& response.status@ == status_ok() <==> all_clear(response.errors@)
                &&& response.status@ == status_ok() || response.status@ == status_err()
            },
    {
        match self.produce_records() {
            Some(items) => {
                proof {
                    assert forall|i: int| 0 <= i < items@.len() implies ((#[trigger] items@[i]).error
                        <==> items@[i].message is Some) by {
                        lemma_message_iff_error(self.slots()[i]->Settled_0);
                    }
                }
                Some(PushResponse::from_items(items))
            },
            None => None,
        }
    }
}

/// How a push is to be answered.
pub enum PushPlan {
    /// Answer at once; there is nothing to send.
    Respond(PushResponse),
    /// Answer at once with `response`, and run `batch` in the background;
    /// what becomes of its records is logged, not reported.
    Detach { response: PushResponse, batch: Request },
    /// Run the batch to its end and answer with its response.
    Await(Request),
}

/// Whether the sender of `req` waits for the sends: only if it says so.
pub open spec fn waits_for_send(req: &PushRequest) -> bool {
    req.wait_for_send == Some(true)
}

/// The ingest core: it owns the limiter that every record is put to.
pub struct ApiHandler {
    ratelimiter: Limiter,
}

impl ApiHandler {
    /// The limiter as it stands.
    pub closed spec fn limiter(&self) -> Limiter {
        self.ratelimiter
    }

    pub fn new(ratelimiter: Limiter) -> (handler: ApiHandler)
        ensures
            handler.limiter() == ratelimiter,
    {
        ApiHandler { ratelimiter }
    }

    /// Decides how `req` is answered. An empty batch is answered `ok` with no
    /// entries. A batch whose sender does not wait is answered the same way at
    /// once, and handed back to be run in the background. A batch whose sender
    /// waits is handed back to be run first; its response is the answer.
    pub fn handle_push(&self, req: PushRequest) -> (plan: PushPlan)
        ensures
            match plan {
                PushPlan::Respond(response) => {
                    &&& req.records@.len() == 0
                    &&& response.status@ == status_ok()
                    &&& response.errors@.len() == 0
                },
                PushPlan::Detach { response, batch } => {
                    &&& req.records@.len() > 0
                    &&& !waits_for_send(&req)
                    &&& response.status@ == status_ok()
                    &&& response.errors@.len() == 0
                    &&& batch.records() == req.records@
                    &&& batch.untouched()
                },
                PushPlan::Await(batch) => {
                    &&& req.records@.len() > 0
                    &&& waits_for_send(&req)
                    &&& batch.records() == req.records@
                    &&& batch.untouched()
                },
            },
    {
        if req.records.len() == 0 {
            return PushPlan::Respond(PushResponse::empty_ok());
        }
        let wait = match req.wait_for_send {
            Some(w) => w,
            None => false,
        };
        let batch = Request::new(req.records);
        if !wait {
            return PushPlan::Detach { response: PushResponse::empty_ok(), batch };
        }
        PushPlan::Await(batch)
    }

    /// Puts the record at `idx` of `batch` to the handler's limiter, the
    /// clock having answered `now`.
    pub fn screen_at(&mut self, batch: &mut Request, idx: usize, now: Result<u64, String>) -> (send:
        bool)
        ensures
            old(batch).admission(
                &old(self).limiter(),
                idx,
                now,
                final(batch),
                &final(self).limiter(),
                send,
            ),
    {
        batch.screen_at(&mut self.ratelimiter, idx, now)
    }

    /// Puts the record at `idx` of `batch` to the handler's limiter, and says
    /// whether the record is to be sent.
    pub fn screen(&mut self, batch: &mut Request, idx: usize) -> (send: bool)
        ensures
            exists|now: Result<u64, String>| #[trigger]
                old(batch).admission(
                    &old(self).limiter(),
                    idx,
                    now,
                    final(batch),
                    &final(self).limiter(),
                    send,
                ),
    {
        let send = batch.screen(&mut self.ratelimiter, idx);
        proof {
            let now = choose|now: Result<u64, String>| #[trigger]
                old(batch).admission(
                    &old(self).ratelimiter,
                    idx,
                    now,
                    batch,
                    &self.ratelimiter,
                    send,
                );
            assert(old(batch).admission(
                &old(self).limiter(),
                idx,
                now,
                batch,
                &self.limiter(),
                send,
            ));
        }
        send
    }
}

} // verus!
