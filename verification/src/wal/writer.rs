//! The writer: it appends each record to the active segment and rolls to a
//! new segment when the next record would not fit.

use vstd::prelude::*;
use crate::clock::LocalTime;
use crate::text::texts;
use crate::wal::frame::{frame, has_newline, line_of};
use crate::wal::segment::{
    STAMP_LIMIT, Segment, is_active_name, parsed_name, preallocated, sealed_name, segment_name,
    stamp_of,
};

verus! {

/// What is to be done to the files of the log, each named by its file name
/// in the log's directory. The steps of one answer are to be carried out in
/// order.
#[derive(Debug)]
pub enum WalAction {
    /// Create the file `name`, and give it `size` bytes.
    Create { name: String, size: u64 },
    /// Write `bytes` behind what has been written to the file `name`.
    Append { name: String, bytes: Vec<u8> },
    /// Rename the file `from` to `to`: this seals a segment.
    Rename { from: String, to: String },
    /// Delete the file `name`.
    Remove { name: String },
}

/// A step as plain values.
pub ghost enum Step {
    Create { name: Seq<char>, size: u64 },
    Append { name: Seq<char>, bytes: Seq<u8> },
    Rename { from: Seq<char>, to: Seq<char> },
    Remove { name: Seq<char> },
}

impl View for WalAction {
    type V = Step;

    open spec fn view(&self) -> Step {
        match *self {
            WalAction::Create { name, size } => Step::Create { name: name@, size },
            WalAction::Append { name, bytes } => Step::Append { name: name@, bytes: bytes@ },
            WalAction::Rename { from, to } => Step::Rename { from: from@, to: to@ },
            WalAction::Remove { name } => Step::Remove { name: name@ },
        }
    }
}

/// A list of steps as plain values.
pub open spec fn steps(actions: Seq<WalAction>) -> Seq<Step> {
    actions.map_values(|a: WalAction| a@)
}

/// Why a record is not written, or the log not opened.
#[derive(Debug, Clone, Copy, PartialEq, Eq, Structural)]
pub enum WalError {
    /// The record holds a newline, which would split it in two.
    Newline,
    /// A new segment is due, and there is no stamp for it: the clock cannot
    /// be read, or the stamps of seventeen digits have run out.
    Clock,
}

/// The writer. It alone touches the active segment.
pub struct WALWriter {
    segment_size: u64,
    bytes_written: u64,
    current_segment: Segment,
}

/// The writer as plain values: the size a segment may reach, the bytes that
/// the segment in use holds, and the stamp of that segment.
pub ghost struct WriterView {
    pub segment_size: u64,
    pub bytes_written: nat,
    pub current: u64,
}

/// The name of the active file of the segment with this stamp.
pub open spec fn active_name(stamp: u64) -> Seq<char> {
    segment_name(stamp, false)
}

/// The name of the sealed file of the segment with this stamp.
pub open spec fn closed_name(stamp: u64) -> Seq<char> {
    segment_name(stamp, true)
}

/// The step that seals the active file `name`.
pub open spec fn seal(name: Seq<char>) -> Step {
    Step::Rename { from: name, to: sealed_name(name) }
}

/// The length of a record's line: its bytes and the newline.
pub open spec fn line_len(payload: Seq<u8>) -> nat {
    payload.len() + 1
}

/// Whether a record of this line length makes the writer roll: it does not
/// fit behind what the segment holds.
pub open spec fn rolls(w: WriterView, length: nat) -> bool {
    w.bytes_written + length > w.segment_size
}

/// The stamp of a new segment, the clock showing the stamp `clock` and
/// `latest` being the latest stamp in use. It is the clock's stamp where that
/// is later than `latest`, and otherwise the stamp after `latest`: so each
/// segment has a name of its own, and the names sort in the order in which
/// the segments were made, even where the clock stalls or is set back. There
/// is none where the clock shows no stamp, or where the stamp would take
/// more than seventeen digits.
pub open spec fn next_stamp(latest: Option<u64>, clock: Option<u64>) -> Option<u64> {
    match clock {
        None => None,
        Some(c) => {
            let stamp = match latest {
                Some(l) => if c <= l {
                    l + 1
                } else {
                    c as int
                },
                None => c as int,
            };
            if stamp < STAMP_LIMIT {
                Some(stamp as u64)
            } else {
                None
            }
        },
    }
}

/// What writing `payload` does, the clock showing the stamp `clock` should a
/// new segment be due. A record with a newline is refused. A record that fits
/// is appended to the segment in use. For one that does not fit, a new
/// segment is created under the next stamp, the one in use is sealed, and
/// the record is appended to the new one; without a next stamp the record is
/// refused. A refusal changes nothing.
pub open spec fn written(w: WriterView, payload: Seq<u8>, clock: Option<u64>) -> Result<
    (WriterView, Seq<Step>),
    WalError,
> {
    if has_newline(payload) {
        Err(WalError::Newline)
    } else if !rolls(w, line_len(payload)) {
        Ok(
            (
                WriterView { bytes_written: w.bytes_written + line_len(payload), ..w },
                seq![Step::Append { name: active_name(w.current), bytes: line_of(payload) }],
            ),
        )
    } else {
        match next_stamp(Some(w.current), clock) {
            Some(stamp) => Ok(
                (
                    WriterView { bytes_written: line_len(payload), current: stamp, ..w },
                    seq![
                        Step::Create {
                            name: active_name(stamp),
                            size: preallocated(w.segment_size),
                        },
                        seal(active_name(w.current)),
                        Step::Append { name: active_name(stamp), bytes: line_of(payload) },
                    ],
                ),
            ),
            None => Err(WalError::Clock),
        }
    }
}

/// The active files among the names of a directory, in the order of the
/// names: every name that ends in a dot and `A`.
pub open spec fn orphans(names: Seq<Seq<char>>) -> Seq<Seq<char>>
    decreases names.len(),
{
    if names.len() == 0 {
        Seq::empty()
    } else if is_active_name(names.last()) {
        orphans(names.drop_last()).push(names.last())
    } else {
        orphans(names.drop_last())
    }
}

/// The steps that seal these active files, one after the other.
pub open spec fn seals(names: Seq<Seq<char>>) -> Seq<Step> {
    names.map_values(|n: Seq<char>| seal(n))
}

/// The latest stamp among the segments of a directory, active or sealed;
/// none where it holds no segment.
pub open spec fn latest_stamp(names: Seq<Seq<char>>) -> Option<u64>
    decreases names.len(),
{
    if names.len() == 0 {
        None
    } else {
        let rest = latest_stamp(names.drop_last());
        match parsed_name(names.last()) {
            Some((stamp, _)) => if rest matches Some(r) && r >= stamp {
                rest
            } else {
                Some(stamp)
            },
            None => rest,
        }
    }
}

/// What preparing a directory that holds the files `names` does, the clock
/// showing the stamp `clock`: every active file found is an orphan of a
/// crash and is sealed, then a fresh segment is created under the stamp next
/// to the latest in the directory. Nothing is done without a next stamp.
pub open spec fn prepared(capacity: u64, names: Seq<Seq<char>>, clock: Option<u64>) -> Option<
    (u64, Seq<Step>),
> {
    match next_stamp(latest_stamp(names), clock) {
        Some(stamp) => Some(
            (
                stamp,
                seals(orphans(names)).push(
                    Step::Create { name: active_name(stamp), size: preallocated(capacity) },
                ),
            ),
        ),
        None => None,
    }
}

/// What opening the log does in a directory that holds the files `names`,
/// the clock showing the stamp `clock`: the directory is prepared, and the
/// writer starts on the fresh segment. Without a next stamp the log is not
/// opened.
pub open spec fn opened(segment_size: u64, names: Seq<Seq<char>>, clock: Option<u64>) -> Result<
    (WriterView, Seq<Step>),
    WalError,
> {
    match prepared(segment_size, names, clock) {
        Some((stamp, steps)) => Ok(
            (WriterView { segment_size, bytes_written: 0, current: stamp }, steps),
        ),
        None => Err(WalError::Clock),
    }
}

/// An answer of the writer as plain values.
pub open spec fn outcome(writer: WriterView, res: Result<Vec<WalAction>, WalError>) -> Result<
    (WriterView, Seq<Step>),
    WalError,
> {
    match res {
        Ok(actions) => Ok((writer, steps(actions@))),
        Err(e) => Err(e),
    }
}

/// The answer of an opening as plain values.
pub open spec fn opening(res: Result<(WALWriter, Vec<WalAction>), WalError>) -> Result<
    (WriterView, Seq<Step>),
    WalError,
> {
    match res {
        Ok((writer, actions)) => Ok((writer@, steps(actions@))),
        Err(e) => Err(e),
    }
}

impl View for WALWriter {
    type V = WriterView;

    closed spec fn view(&self) -> WriterView {
        WriterView {
            segment_size: self.segment_size,
            bytes_written: self.bytes_written as nat,
            current: self.current_segment.stamp(),
        }
    }
}

fn push_step(actions: &mut Vec<WalAction>, action: WalAction)
    ensures
        steps(final(actions)@) == steps(old(actions)@).push(action@),
{
    actions.push(action);
    assert(steps(actions@) =~= steps(old(actions)@).push(action@));
}

impl Segment {
    /// The stamp of a new segment, the clock showing `clock` and `latest`
    /// being the latest stamp in use.
    pub fn next_stamp(latest: Option<u64>, clock: Option<u64>) -> (stamp: Option<u64>)
        ensures
            stamp == next_stamp(latest, clock),
            stamp matches Some(s) ==> s < STAMP_LIMIT,
    {
        let c = match clock {
            Some(c) => c,
            None => {
                return None;
            },
        };
        let stamp = match latest {
            Some(l) => if c <= l {
                if l >= STAMP_LIMIT {
                    return None;
                }
                l + 1
            } else {
                c
            },
            None => c,
        };
        if stamp < STAMP_LIMIT {
            Some(stamp)
        } else {
            None
        }
    }

    /// The step that seals this active segment. None for a sealed one.
    pub fn seal(&self) -> (action: Option<WalAction>)
        ensures
            match action {
                Some(a) => !self.is_closed() && a@ == seal(active_name(self.stamp())),
                None => self.is_closed(),
            },
    {
        if self.closed() {
            return None;
        }
        proof {
            crate::wal::segment::lemma_segment_names(self.stamp());
        }
        Some(WalAction::Rename { from: self.file_name(), to: self.close().file_name() })
    }

    /// The steps that seal every active file among the files `names`: every
    /// one whose name ends in a dot and `A`.
    pub fn close_active_segments(names: &Vec<String>) -> (actions: Vec<WalAction>)
        ensures
            steps(actions@) == seals(orphans(texts(names@))),
    {
        let mut actions: Vec<WalAction> = Vec::new();
        let mut i: usize = 0;
        let ghost all = texts(names@);
        proof {
            assert(all.take(0) =~= Seq::<Seq<char>>::empty());
            assert(steps(actions@) =~= seals(orphans(all.take(0))));
        }
        while i < names.len()
            invariant
                i <= names@.len(),
                all == texts(names@),
                steps(actions@) == seals(orphans(all.take(i as int))),
            decreases names@.len() - i,
        {
            proof {
                assert(all.take(i + 1).drop_last() =~= all.take(i as int));
                assert(all.take(i + 1).last() == names@[i as int]@);
            }
            match Segment::sealed_name_of(names[i].as_str()) {
                Some(to) => {
                    push_step(&mut actions, WalAction::Rename { from: names[i].clone(), to });
                    proof {
                        assert(seals(orphans(all.take(i + 1))) =~= seals(
                            orphans(all.take(i as int)),
                        ).push(seal(names@[i as int]@)));
                    }
                },
                None => {},
            }
            i = i + 1;
        }
        proof {
            assert(all.take(i as int) =~= all);
        }
        actions
    }

    /// The latest stamp among the segments of a directory.
    pub fn latest_stamp(names: &Vec<String>) -> (latest: Option<u64>)
        ensures
            latest == latest_stamp(texts(names@)),
    {
        let mut latest: Option<u64> = None;
        let mut i: usize = 0;
        let ghost all = texts(names@);
        proof {
            assert(all.take(0) =~= Seq::<Seq<char>>::empty());
        }
        while i < names.len()
            invariant
                i <= names@.len(),
                all == texts(names@),
                latest == latest_stamp(all.take(i as int)),
            decreases names@.len() - i,
        {
            proof {
                assert(all.take(i + 1).drop_last() =~= all.take(i as int));
                assert(all.take(i + 1).last() == names@[i as int]@);
            }
            match Segment::load(names[i].as_str()) {
                Some(segment) => {
                    let stamp = segment.get_stamp();
                    let keep = match latest {
                        Some(r) => r >= stamp,
                        None => false,
                    };
                    if !keep {
                        latest = Some(stamp);
                    }
                },
                None => {},
            }
            i = i + 1;
        }
        proof {
            assert(all.take(i as int) =~= all);
        }
        latest
    }

    /// Seals the orphans among the files `names` and creates a fresh active
    /// segment of `capacity` bytes, the clock showing `now`.
    pub fn prepare_env_and_create(names: &Vec<String>, capacity: u64, now: &LocalTime) -> (res:
        Option<(Segment, Vec<WalAction>)>)
        ensures
            match res {
                Some((segment, actions)) => !segment.is_closed() && prepared(
                    capacity,
                    texts(names@),
                    stamp_of(*now),
                ) == Some((segment.stamp(), steps(actions@))),
                None => prepared(capacity, texts(names@), stamp_of(*now)) is None,
            },
    {
        Segment::prepare(names, capacity, Segment::stamp_at(now))
    }

    /// Seals the orphans among the files `names` and creates a fresh active
    /// segment of `capacity` bytes, the clock showing the stamp `clock`.
    pub fn prepare(names: &Vec<String>, capacity: u64, clock: Option<u64>) -> (res: Option<
        (Segment, Vec<WalAction>),
    >)
        ensures
            match res {
                Some((segment, actions)) => !segment.is_closed() && prepared(
                    capacity,
                    texts(names@),
                    clock,
                ) == Some((segment.stamp(), steps(actions@))),
                None => prepared(capacity, texts(names@), clock) is None,
            },
    {
        let stamp = match Segment::next_stamp(Segment::latest_stamp(names), clock) {
            Some(stamp) => stamp,
            None => {
                return None;
            },
        };
        let segment = Segment::with_stamp(stamp);
        let mut actions = Segment::close_active_segments(names);
        let size = Segment::preallocation(capacity);
        push_step(&mut actions, WalAction::Create { name: segment.file_name(), size });
        Some((segment, actions))
    }

    /// The step that writes one record to this segment: its bytes and a
    /// newline are appended. None for a sealed segment, and for a record with
    /// a newline in it.
    pub fn write(&self, payload: &[u8]) -> (action: Option<WalAction>)
        ensures
            match action {
                Some(a) => !self.is_closed() && !has_newline(payload@) && a@ == (Step::Append {
                    name: active_name(self.stamp()),
                    bytes: line_of(payload@),
                }),
                None => self.is_closed() || has_newline(payload@),
            },
    {
        if self.closed() {
            return None;
        }
        match frame(payload) {
            Some(line) => Some(WalAction::Append { name: self.file_name(), bytes: line }),
            None => None,
        }
    }

    /// The step that deletes this segment's file. Only a sealed segment can
    /// go.
    pub fn remove(&self) -> (action: Option<WalAction>)
        ensures
            match action {
                Some(a) => self.is_closed() && a@ == (Step::Remove {
                    name: closed_name(self.stamp()),
                }),
                None => !self.is_closed(),
            },
    {
        if self.closed() {
            Some(WalAction::Remove { name: self.file_name() })
        } else {
            None
        }
    }
}

impl WALWriter {
    #[verifier::type_invariant]
    spec fn inv(self) -> bool {
        !self.current_segment.is_closed()
    }

    /// Opens the log in a directory that holds the files `names`, the clock
    /// showing `now`.
    pub fn new_at(segment_size: u64, names: &Vec<String>, now: &LocalTime) -> (res: Result<
        (WALWriter, Vec<WalAction>),
        WalError,
    >)
        ensures
            opening(res) == opened(segment_size, texts(names@), stamp_of(*now)),
    {
        WALWriter::open(segment_size, names, Segment::stamp_at(now))
    }

    /// Opens the log in a directory that holds the files `names`, the clock
    /// showing the stamp `clock`.
    pub fn open(segment_size: u64, names: &Vec<String>, clock: Option<u64>) -> (res: Result<
        (WALWriter, Vec<WalAction>),
        WalError,
    >)
        ensures
            opening(res) == opened(segment_size, texts(names@), clock),
    {
        match Segment::prepare(names, segment_size, clock) {
            Some((segment, actions)) => Ok(
                (WALWriter { segment_size, bytes_written: 0, current_segment: segment }, actions),
            ),
            None => Err(WalError::Clock),
        }
    }

    /// Opens the log in a directory that holds the files `names`, by the
    /// local clock.
    pub fn new(segment_size: u64, names: &Vec<String>) -> (res: Result<
        (WALWriter, Vec<WalAction>),
        WalError,
    >)
        ensures
            exists|clock: Option<u64>| #[trigger]
                opened(segment_size, texts(names@), clock) == opening(res),
    {
        let clock = Segment::stamp_now();
        let res = WALWriter::open(segment_size, names, clock);
        assert(opened(segment_size, texts(names@), clock) == opening(res));
        res
    }

    /// The largest number of bytes a segment is to hold.
    pub fn segment_size(&self) -> (size: u64)
        ensures
            size == self@.segment_size,
    {
        self.segment_size
    }

    /// How many bytes the segment in use holds.
    pub fn bytes_written(&self) -> (count: u64)
        ensures
            count == self@.bytes_written,
    {
        self.bytes_written
    }

    /// The segment in use.
    pub fn current_segment(&self) -> (segment: Segment)
        ensures
            segment.stamp() == self@.current,
            !segment.is_closed(),
    {
        proof {
            use_type_invariant(self);
        }
        self.current_segment
    }

    /// Whether a record of `payload_len` bytes makes the writer roll.
    pub fn must_roll(&self, payload_len: usize) -> (roll: bool)
        ensures
            roll == rolls(self@, payload_len as nat + 1),
    {
        self.bytes_written as u128 + payload_len as u128 + 1 > self.segment_size as u128
    }

    /// The new segment for a roll, the clock showing the stamp `clock`.
    fn create_segment(&self, clock: Option<u64>) -> (segment: Option<Segment>)
        ensures
            match segment {
                Some(s) => next_stamp(Some(self@.current), clock) == Some(s.stamp())
                    && !s.is_closed(),
                None => next_stamp(Some(self@.current), clock) is None,
            },
    {
        match Segment::next_stamp(Some(self.current_segment.get_stamp()), clock) {
            Some(stamp) => Some(Segment::with_stamp(stamp)),
            None => None,
        }
    }

    fn append(&mut self, line: Vec<u8>, segment: Option<Segment>) -> (actions: Vec<WalAction>)
        requires
            match segment {
                Some(s) => !s.is_closed(),
                None => old(self)@.bytes_written + line@.len() <= old(self)@.segment_size,
            },
        ensures
            final(self)@.segment_size == old(self)@.segment_size,
            match segment {
                Some(s) => {
                    &&& final(self)@.current == s.stamp()
                    &&& final(self)@.bytes_written == line@.len()
                    &&& steps(actions@) == seq![
                        Step::Create {
                            name: active_name(s.stamp()),
                            size: preallocated(old(self)@.segment_size),
                        },
                        seal(active_name(old(self)@.current)),
                        Step::Append { name: active_name(s.stamp()), bytes: line@ },
                    ]
                },
                None => {
                    &&& final(self)@.current == old(self)@.current
                    &&& final(self)@.bytes_written == old(self)@.bytes_written + line@.len()
                    &&& steps(actions@) == seq![
                        Step::Append { name: active_name(old(self)@.current), bytes: line@ },
                    ]
                },
            },
    {
        proof {
            use_type_invariant(&*self);
            crate::wal::segment::lemma_segment_names(self.current_segment.stamp());
        }
        let mut actions: Vec<WalAction> = Vec::new();
        assert(steps(actions@) =~= Seq::<Step>::empty());
        let length: u64 = line.len() as u64;
        match segment {
            Some(fresh) => {
                let sealed = self.current_segment;
                let size = Segment::preallocation(self.segment_size);
                push_step(&mut actions, WalAction::Create { name: fresh.file_name(), size });
                push_step(
                    &mut actions,
                    WalAction::Rename { from: sealed.file_name(), to: sealed.close().file_name() },
                );
                push_step(&mut actions, WalAction::Append { name: fresh.file_name(), bytes: line });
                self.current_segment = fresh;
                self.bytes_written = length;
                assert(steps(actions@) =~= seq![
                    Step::Create {
                        name: active_name(fresh.stamp()),
                        size: preallocated(old(self)@.segment_size),
                    },
                    seal(active_name(old(self)@.current)),
                    Step::Append { name: active_name(fresh.stamp()), bytes: line@ },
                ]);
            },
            None => {
                push_step(
                    &mut actions,
                    WalAction::Append { name: self.current_segment.file_name(), bytes: line },
                );
                self.bytes_written = self.bytes_written + length;
                assert(steps(actions@) =~= seq![
                    Step::Append { name: active_name(old(self)@.current), bytes: line@ },
                ]);
            },
        }
        actions
    }

    /// Writes one record, the clock showing the stamp `clock` should a new
    /// segment be due.
    pub fn write_record_with(&mut self, payload: &[u8], clock: Option<u64>) -> (res: Result<
        Vec<WalAction>,
        WalError,
    >)
        ensures
            outcome(final(self)@, res) == written(old(self)@, payload@, clock),
            res is Err ==> final(self)@ == old(self)@,
    {
        let line = match frame(payload) {
            Some(line) => line,
            None => {
                return Err(WalError::Newline);
            },
        };
        if self.must_roll(payload.len()) {
            match self.create_segment(clock) {
                Some(segment) => Ok(self.append(line, Some(segment))),
                None => Err(WalError::Clock),
            }
        } else {
            Ok(self.append(line, None))
        }
    }

    /// Writes one record, the clock showing `now` should a new segment be
    /// due.
    pub fn write_record_at(&mut self, payload: &[u8], now: &LocalTime) -> (res: Result<
        Vec<WalAction>,
        WalError,
    >)
        ensures
            outcome(final(self)@, res) == written(old(self)@, payload@, stamp_of(*now)),
            res is Err ==> final(self)@ == old(self)@,
    {
        self.write_record_with(payload, Segment::stamp_at(now))
    }

    /// Writes one record. The local clock is read only where a new segment
    /// is due.
    pub fn write_record(&mut self, payload: &[u8]) -> (res: Result<Vec<WalAction>, WalError>)
        ensures
            exists|clock: Option<u64>| #[trigger]
                written(old(self)@, payload@, clock) == outcome(final(self)@, res),
            res is Err ==> final(self)@ == old(self)@,
    {
        let clock = if self.must_roll(payload.len()) {
            Segment::stamp_now()
        } else {
            None
        };
        let res = self.write_record_with(payload, clock);
        assert(written(old(self)@, payload@, clock) == outcome(self@, res));
        res
    }

    /// Shuts the log down: the segment in use is sealed, and no active
    /// segment is left.
    pub fn close(self) -> (actions: Vec<WalAction>)
        ensures
            steps(actions@) == seq![seal(active_name(self@.current))],
    {
        proof {
            use_type_invariant(&self);
            crate::wal::segment::lemma_segment_names(self.current_segment.stamp());
        }
        let mut actions: Vec<WalAction> = Vec::new();
        assert(steps(actions@) =~= Seq::<Step>::empty());
        let sealed = self.current_segment;
        push_step(
            &mut actions,
            WalAction::Rename { from: sealed.file_name(), to: sealed.close().file_name() },
        );
        assert(steps(actions@) =~= seq![seal(active_name(self@.current))]);
        actions
    }
}

} // verus!
