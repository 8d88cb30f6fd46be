//! Sliding-window admission: for each topic with a rule, a ring of sixty
//! one-second counters decides whether one more request fits the budget of the
//! last minute.

use vstd::prelude::*;
use crate::clock::unix_seconds;

pub mod config;
pub mod window;

verus! {

/// Number of one-second slots in a ring.
pub const BUCKET_COUNT: u64 = 60;

/// The budget of one topic. A budget of zero means no limit.
#[derive(Debug)]
pub struct Rule {
    pub topic_name: String,
    pub max_requests_per_minute: u32,
}

impl Clone for Rule {
    fn clone(&self) -> (rule: Rule)
        ensures
            rule == *self,
    {
        Rule {
            topic_name: self.topic_name.clone(),
            max_requests_per_minute: self.max_requests_per_minute,
        }
    }
}

/// One slot of a ring: the second it last counted for, and how many requests
/// were seen in that second.
#[derive(Debug, Clone, Copy, PartialEq, Eq, Structural)]
pub struct Bucket {
    pub last_ts: u64,
    pub count: u64,
}

/// The ring of one topic.
pub struct BucketStorage {
    pub buckets: Vec<Bucket>,
}

/// The ring slot that second `ts` falls into.
pub open spec fn slot_of(ts: u64) -> int {
    ts as int % 60
}

/// A ring in which nothing has been counted yet.
pub open spec fn fresh_ring() -> Seq<Bucket> {
    Seq::new(60, |i: int| Bucket { last_ts: 0, count: 0 })
}

/// The slot after one more request in second `ts`: a slot that already counts
/// for `ts` goes up by one (and stays at the top of the range once there), any
/// other slot starts again at one.
pub open spec fn bumped(b: Bucket, ts: u64) -> Bucket {
    if b.last_ts == ts {
        Bucket { last_ts: ts, count: if b.count < u64::MAX { (b.count + 1) as u64 } else { b.count } }
    } else {
        Bucket { last_ts: ts, count: 1 }
    }
}

/// The ring after a request in second `ts` has been recorded. A ring too short
/// to hold the slot of `ts` is left as it is.
pub open spec fn recorded(ring: Seq<Bucket>, ts: u64) -> Seq<Bucket> {
    if slot_of(ts) < ring.len() {
        ring.update(slot_of(ts), bumped(ring[slot_of(ts)], ts))
    } else {
        ring
    }
}

/// Whether a slot still counts at second `ts`: it is stale once its second
/// lies more than sixty seconds back.
pub open spec fn is_live(b: Bucket, ts: u64) -> bool {
    b.last_ts + 60 >= ts
}

/// What a slot adds to the window that ends at `ts`.
pub open spec fn live_part(b: Bucket, ts: u64) -> nat {
    if is_live(b, ts) { b.count as nat } else { 0 }
}

/// The number of requests that the live slots of `ring` hold at second `ts`.
pub open spec fn live_count(ring: Seq<Bucket>, ts: u64) -> nat
    decreases ring.len(),
{
    if ring.len() == 0 {
        0
    } else {
        live_count(ring.drop_last(), ts) + live_part(ring.last(), ts)
    }
}

/// Whether a request in second `ts` is admitted: it is recorded first, and
/// passes if the window that then ends at `ts` holds at most `max` requests.
pub open spec fn admits(ring: Seq<Bucket>, ts: u64, max: u32) -> bool {
    live_count(recorded(ring, ts), ts) <= max
}

impl BucketStorage {
    pub fn new() -> (storage: BucketStorage)
        ensures
            storage.buckets@ == fresh_ring(),
    {
        let mut v: Vec<Bucket> = Vec::new();
        let mut i: u64 = 0;
        while i < BUCKET_COUNT
            invariant
                i <= BUCKET_COUNT,
                v@.len() == i,
                forall|k: int| 0 <= k < i ==> v@[k] == (Bucket { last_ts: 0, count: 0 }),
            decreases BUCKET_COUNT - i,
        {
            v.push(Bucket { count: 0, last_ts: 0 });
            i = i + 1;
        }
        assert(v@ =~= fresh_ring());
        BucketStorage { buckets: v }
    }
}

/// The limiter: the rules by topic, and one ring for each rule.
pub struct Limiter {
    rules: Vec<Rule>,
    container: Vec<BucketStorage>,
}

/// The position of the rule that governs `topic`: the last one given for it.
pub open spec fn rule_position(rules: Seq<Rule>, topic: Seq<char>) -> Option<int>
    decreases rules.len(),
{
    if rules.len() == 0 {
        None
    } else if rules.last().topic_name@ == topic {
        Some(rules.len() - 1)
    } else {
        rule_position(rules.drop_last(), topic)
    }
}

/// The budget that `rules` give `topic`, if any rule names it.
pub open spec fn limit_in(rules: Seq<Rule>, topic: Seq<char>) -> Option<u32> {
    match rule_position(rules, topic) {
        Some(i) => Some(rules[i].max_requests_per_minute),
        None => None,
    }
}

/// The rule that governs a topic is one of the rules, and names the topic.
pub proof fn lemma_rule_position_in_range(rules: Seq<Rule>, topic: Seq<char>)
    ensures
        rule_position(rules, topic) matches Some(i) ==> 0 <= i < rules.len()
            && rules[i].topic_name@ == topic,
    decreases rules.len(),
{
    if rules.len() > 0 && rules.last().topic_name@ != topic {
        lemma_rule_position_in_range(rules.drop_last(), topic);
    }
}

impl Limiter {
    #[verifier::type_invariant]
    spec fn inv(self) -> bool {
        self.rules@.len() == self.container@.len()
    }

    /// The rules the limiter was made with, in the order given.
    pub closed spec fn rules(&self) -> Seq<Rule> {
        self.rules@
    }

    /// The budget of `topic`, if a rule names it.
    pub open spec fn limit(&self, topic: Seq<char>) -> Option<u32> {
        limit_in(self.rules(), topic)
    }

    /// The ring of `topic`; empty where no rule names it.
    pub closed spec fn ring(&self, topic: Seq<char>) -> Seq<Bucket> {
        match rule_position(self.rules@, topic) {
            Some(i) => self.container@[i].buckets@,
            None => Seq::empty(),
        }
    }

    /// Whether a check of `topic` passes without a look at the clock: the
    /// topic is the empty string, no rule names it, or its budget is zero.
    pub open spec fn bypasses(&self, topic: Seq<char>) -> bool {
        topic.len() == 0 || self.limit(topic) is None || self.limit(topic) == Some(0u32)
    }

    /// The two limiters have the same rules and the same ring for every topic.
    pub open spec fn same_as(&self, other: &Limiter) -> bool {
        &&& self.rules() == other.rules()
        &&& forall|t: Seq<char>| self.ring(t) == other.ring(t)
    }

    /// The two limiters differ in nothing but the ring of `topic`.
    pub open spec fn same_but(&self, other: &Limiter, topic: Seq<char>) -> bool {
        &&& self.rules() == other.rules()
        &&& forall|t: Seq<char>| t != topic ==> self.ring(t) == other.ring(t)
    }

    /// The answer to a check of `topic` when the clock answers `now`.
    pub open spec fn verdict(&self, topic: Seq<char>, now: Result<u64, String>) -> Result<
        bool,
        String,
    > {
        if self.bypasses(topic) {
            Ok(true)
        } else {
            match now {
                Err(e) => Err(e),
                Ok(ts) => Ok(admits(self.ring(topic), ts, self.limit(topic).unwrap())),
            }
        }
    }

    /// What a check of `topic` does when the clock answers `now`: `post` and
    /// `res` are the limiter and the answer after it, `self` the limiter before.
    /// Only a check that reaches the ring changes anything, and only the ring
    /// of its topic.
    pub open spec fn checked(
        &self,
        topic: Seq<char>,
        now: Result<u64, String>,
        post: &Limiter,
        res: Result<bool, String>,
    ) -> bool {
        &&& res == self.verdict(topic, now)
        &&& if !self.bypasses(topic) && now is Ok {
            &&& post.ring(topic) == recorded(self.ring(topic), now->Ok_0)
            &&& post.same_but(self, topic)
        } else {
            post.same_as(self)
        }
    }

    /// Records one request in the slot `b` for second `ts`.
    pub fn update_bucket(b: &mut Bucket, ts: u64)
        ensures
            *final(b) == bumped(*old(b), ts),
    {
        if b.last_ts != ts {
            b.last_ts = ts;
            b.count = 1;
        } else if b.count < u64::MAX {
            b.count = b.count + 1;
        }
    }

    pub fn calculate_bucket(ts: u64) -> (slot: u64)
        ensures
            slot as int == slot_of(ts),
            slot < BUCKET_COUNT,
    {
        ts % BUCKET_COUNT
    }

    /// Records a request in second `ts` and says whether the window that ends
    /// at `ts` then holds at most `max_allowed` requests.
    pub fn check_locked(buckets: &mut Vec<Bucket>, ts: u64, max_allowed: u32) -> (admitted: bool)
        ensures
            final(buckets)@ == recorded(old(buckets)@, ts),
            admitted == admits(old(buckets)@, ts, max_allowed),
    {
        let bucket_slot: usize = Limiter::calculate_bucket(ts) as usize;
        if bucket_slot < buckets.len() {
            let mut b: Bucket = buckets[bucket_slot];
            Limiter::update_bucket(&mut b, ts);
            buckets.set(bucket_slot, b);
        }
        let mut count: u128 = 0;
        let mut i: usize = 0;
        while i < buckets.len()
            invariant
                i <= buckets@.len(),
                count == live_count(buckets@.take(i as int), ts),
                count <= i * u64::MAX,
            decreases buckets@.len() - i,
        {
            let v: Bucket = buckets[i];
            proof {
                assert(buckets@.take(i + 1).drop_last() =~= buckets@.take(i as int));
            }
            if ts < BUCKET_COUNT || v.last_ts >= ts - BUCKET_COUNT {
                count = count + v.count as u128;
            }
            i = i + 1;
        }
        proof {
            assert(buckets@.take(i as int) =~= buckets@);
        }
        count <= max_allowed as u128
    }

    /// A limiter for `rules`, every ring fresh. Where two rules name one
    /// topic, the later one governs it.
    pub fn new(rules: Vec<Rule>) -> (limiter: Limiter)
        ensures
            limiter.rules() == rules@,
            forall|t: Seq<char>| limiter.limit(t) is Some ==> #[trigger] limiter.ring(t) == fresh_ring(),
    {
        let mut storage: Vec<BucketStorage> = Vec::new();
        let mut i: usize = 0;
        while i < rules.len()
            invariant
                i <= rules@.len(),
                storage@.len() == i,
                forall|k: int| 0 <= k < i ==> #[trigger] storage@[k].buckets@ == fresh_ring(),
            decreases rules@.len() - i,
        {
            storage.push(BucketStorage::new());
            i = i + 1;
        }
        let limiter = Limiter { rules, container: storage };
        assert forall|t: Seq<char>| limiter.limit(t) is Some implies #[trigger] limiter.ring(t)
            == fresh_ring() by {
            lemma_rule_position_in_range(limiter.rules@, t);
        }
        limiter
    }

    /// The position of the rule that governs `topic_name`.
    fn find(&self, topic_name: &String) -> (found: Option<usize>)
        ensures
            match found {
                Some(i) => rule_position(self.rules(), topic_name@) == Some(i as int),
                None => rule_position(self.rules(), topic_name@) is None,
            },
    {
        let mut i: usize = self.rules.len();
        proof {
            assert(self.rules@.take(i as int) =~= self.rules@);
        }
        while i > 0
            invariant
                i <= self.rules@.len(),
                rule_position(self.rules@, topic_name@) == rule_position(
                    self.rules@.take(i as int),
                    topic_name@,
                ),
            decreases i,
        {
            proof {
                assert(self.rules@.take(i as int).drop_last() =~= self.rules@.take(i - 1));
            }
            if self.rules[i - 1].topic_name == *topic_name {
                return Some(i - 1);
            }
            i = i - 1;
        }
        None
    }

    /// The rule that a check of `topic_name` has to enforce: its position and
    /// its budget. None where the check passes without a look at the clock.
    fn budget(&self, topic_name: &String) -> (found: Option<(usize, u32)>)
        ensures
            found is None <==> self.bypasses(topic_name@),
            found matches Some((i, max)) ==> rule_position(self.rules(), topic_name@) == Some(
                i as int,
            ) && self.limit(topic_name@) == Some(max) && i < self.rules().len(),
    {
        if topic_name.as_str().is_empty() {
            return None;
        }
        let position = match self.find(topic_name) {
            Some(i) => i,
            None => return None,
        };
        proof {
            lemma_rule_position_in_range(self.rules@, topic_name@);
        }
        let max_attempts_count: u32 = self.rules[position].max_requests_per_minute;
        if max_attempts_count == 0 {
            return None;
        }
        Some((position, max_attempts_count))
    }

    /// The check proper, once the rule is found and the clock has answered.
    fn settle(
        &mut self,
        position: usize,
        max_attempts_count: u32,
        topic_name: &String,
        now: Result<u64, String>,
    ) -> (res: Result<bool, String>)
        requires
            !old(self).bypasses(topic_name@),
            rule_position(old(self).rules(), topic_name@) == Some(position as int),
            old(self).limit(topic_name@) == Some(max_attempts_count),
            position < old(self).rules().len(),
        ensures
            old(self).checked(topic_name@, now, final(self), res),
    {
        proof {
            use_type_invariant(&*self);
        }
        let ts: u64 = match now {
            Ok(n) => n,
            Err(err) => return Err(err),
        };
        let admitted = Limiter::check_locked(
            &mut self.container[position].buckets,
            ts,
            max_attempts_count,
        );
        proof {
            lemma_rule_position_in_range(self.rules@, topic_name@);
            assert forall|t: Seq<char>| t != topic_name@ implies self.ring(t) == old(self).ring(
                t,
            ) by {
                lemma_rule_position_in_range(self.rules@, t);
            }
        }
        Ok(admitted)
    }

    /// A check of `topic_name` for which the clock has answered `now`. The
    /// answer of the clock is looked at only where a rule with a budget above
    /// zero governs the topic.
    pub fn check_at(&mut self, topic_name: &String, now: Result<u64, String>) -> (res: Result<
        bool,
        String,
    >)
        ensures
            old(self).checked(topic_name@, now, final(self), res),
    {
        match self.budget(topic_name) {
            None => Ok(true),
            Some((position, max_attempts_count)) => self.settle(
                position,
                max_attempts_count,
                topic_name,
                now,
            ),
        }
    }

    /// Decides whether one more request for `topic_name` is admitted now. The
    /// empty topic, a topic without a rule and a budget of zero are admitted
    /// without a look at the clock; otherwise the request is recorded in the
    /// ring of the topic at the second the clock gives, and admitted if the
    /// last minute then holds no more than the budget. The clock's failure is
    /// the only error.
    pub fn check(&mut self, topic_name: &String) -> (res: Result<bool, String>)
        ensures
            old(self).bypasses(topic_name@) ==> res == Ok::<bool, String>(true)
                && final(self).same_as(old(self)),
            exists|now: Result<u64, String>|
                old(self).checked(topic_name@, now, final(self), res),
    {
        match self.budget(topic_name) {
            None => {
                proof {
                    let now: Result<u64, String> = Ok(0u64);
                    assert(old(self).checked(topic_name@, now, self, Ok::<bool, String>(true)));
                }
                Ok(true)
            },
            Some((position, max_attempts_count)) => {
                let now = unix_seconds();
                self.settle(position, max_attempts_count, topic_name, now)
            },
        }
    }
}

} // verus!
