//! The reader: it finds the sealed segments, oldest first, reads their
//! records back, and says when a segment can go.

use vstd::prelude::*;
use vstd::seq_lib::{lemma_multiset_commutative, to_multiset_build};
use crate::wal::frame::{lines_of, lines_view};
use crate::wal::record::{Record, RecordStatus};
use crate::wal::segment::{Segment, parsed_name};
use crate::wal::writer::{Step, WalAction, closed_name};

verus! {

/// The stamps of the sealed segments among the names of a directory, in the
/// order of the names.
pub open spec fn sealed_stamps(names: Seq<Seq<char>>) -> Seq<u64>
    decreases names.len(),
{
    if names.len() == 0 {
        Seq::empty()
    } else {
        match parsed_name(names.last()) {
            Some((stamp, true)) => sealed_stamps(names.drop_last()).push(stamp),
            _ => sealed_stamps(names.drop_last()),
        }
    }
}

/// The stamps never go down.
pub open spec fn ascending(stamps: Seq<u64>) -> bool {
    forall|i: int, j: int| 0 <= i <= j < stamps.len() ==> stamps[i] <= stamps[j]
}

/// The stamps of a list of segments.
pub open spec fn stamps_of(segments: Seq<Segment>) -> Seq<u64> {
    segments.map_values(|s: Segment| s.stamp())
}

/// Every segment of the list is sealed.
pub open spec fn all_sealed(segments: Seq<Segment>) -> bool {
    forall|i: int| 0 <= i < segments.len() ==> (#[trigger] segments[i]).is_closed()
}

/// Every record has been delivered.
pub open spec fn drained(records: Seq<Record>) -> bool {
    forall|i: int| 0 <= i < records.len() ==> (#[trigger] records[i]).status == RecordStatus::Completed
}

/// The records with every one under the id `uuid` marked as delivered.
pub open spec fn marked(records: Seq<Record>, uuid: u128) -> Seq<Record> {
    records.map_values(
        |r: Record|
            if r.uuid == uuid {
                Record { status: RecordStatus::Completed, ..r }
            } else {
                r
            },
    )
}

proof fn lemma_insert_multiset(s: Seq<u64>, i: int, a: u64)
    requires
        0 <= i <= s.len(),
    ensures
        s.insert(i, a).to_multiset() =~= s.to_multiset().insert(a),
{
    let front = s.take(i);
    let back = s.skip(i);
    assert(s.insert(i, a) =~= front.push(a) + back);
    assert(s =~= front + back);
    lemma_multiset_commutative(front.push(a), back);
    lemma_multiset_commutative(front, back);
    to_multiset_build(front, a);
}

/// Puts `segment` into the list at its place by stamp.
fn place(segments: &mut Vec<Segment>, segment: Segment)
    requires
        ascending(stamps_of(old(segments)@)),
    ensures
        ascending(stamps_of(final(segments)@)),
        stamps_of(final(segments)@).to_multiset() =~= stamps_of(old(segments)@).to_multiset().insert(
            segment.stamp(),
        ),
        all_sealed(old(segments)@) && segment.is_closed() ==> all_sealed(final(segments)@),
{
    let stamp = segment.get_stamp();
    let mut i: usize = 0;
    while i < segments.len() && segments[i].get_stamp() <= stamp
        invariant
            i <= segments@.len(),
            segments@ == old(segments)@,
            forall|k: int| 0 <= k < i ==> stamps_of(segments@)[k] <= stamp,
        decreases segments@.len() - i,
    {
        i = i + 1;
    }
    let ghost before = stamps_of(segments@);
    segments.insert(i, segment);
    proof {
        assert(stamps_of(segments@) =~= before.insert(i as int, stamp));
        lemma_insert_multiset(before, i as int, stamp);
        assert forall|a: int, b: int| 0 <= a <= b < segments@.len() implies stamps_of(
            segments@,
        )[a] <= stamps_of(segments@)[b] by {
            let after = before.insert(i as int, stamp);
            if a < i && b > i {
                assert(after[a] == before[a]);
                assert(after[b] == before[b - 1]);
            } else if a > i {
                assert(after[a] == before[a - 1]);
                assert(after[b] == before[b - 1]);
            } else if b < i {
                assert(after[a] == before[a]);
                assert(after[b] == before[b]);
            } else if a == i && b > i {
                assert(after[b] == before[b - 1]);
                assert(before[i as int] > stamp);
                assert(before[i as int] <= before[b - 1]);
            }
        }
        if all_sealed(old(segments)@) && segment.is_closed() {
            assert forall|k: int| 0 <= k < segments@.len() implies (#[trigger] segments@[k]).is_closed() by {
                if k < i {
                    assert(segments@[k] == old(segments)@[k]);
                } else if k > i {
                    assert(segments@[k] == old(segments)@[k - 1]);
                }
            }
        }
    }
}

/// The reader of the log.
pub struct WALReader {}

impl WALReader {
    pub fn new() -> (reader: WALReader) {
        WALReader {  }
    }

    /// The records that the bytes of a segment file hold, in order. What
    /// follows the last newline, such as the padding, is no record.
    pub fn read_records(&self, content: &[u8]) -> (records: Vec<Vec<u8>>)
        ensures
            lines_view(records@) == lines_of(content@),
    {
        crate::wal::frame::read_records(content)
    }

    /// The sealed segments among the files `names`, oldest first.
    pub fn list_closed_segments(names: &Vec<String>) -> (segments: Vec<Segment>)
        ensures
            all_sealed(segments@),
            ascending(stamps_of(segments@)),
            stamps_of(segments@).to_multiset() =~= sealed_stamps(
                crate::text::texts(names@),
            ).to_multiset(),
    {
        let mut segments: Vec<Segment> = Vec::new();
        let mut i: usize = 0;
        let ghost all = crate::text::texts(names@);
        proof {
            assert(all.take(0) =~= Seq::<Seq<char>>::empty());
            assert(stamps_of(segments@) =~= sealed_stamps(all.take(0)));
        }
        while i < names.len()
            invariant
                i <= names@.len(),
                all == crate::text::texts(names@),
                all_sealed(segments@),
                ascending(stamps_of(segments@)),
                stamps_of(segments@).to_multiset() =~= sealed_stamps(all.take(i as int)).to_multiset(),
            decreases names@.len() - i,
        {
            proof {
                assert(all.take(i + 1).drop_last() =~= all.take(i as int));
                assert(all.take(i + 1).last() == names@[i as int]@);
            }
            match Segment::load(names[i].as_str()) {
                Some(segment) => {
                    if segment.closed() {
                        place(&mut segments, segment);
                        proof {
                            to_multiset_build(sealed_stamps(all.take(i as int)), segment.stamp());
                        }
                    }
                },
                None => {},
            }
            i = i + 1;
        }
        proof {
            assert(all.take(i as int) =~= all);
        }
        segments
    }

    /// The segment to replay next: the oldest sealed one among the files
    /// `names`. None where there is no sealed segment, and the drain loop is
    /// to wait.
    pub fn next_segment(names: &Vec<String>) -> (next: Option<Segment>)
        ensures
            match next {
                Some(segment) => {
                    &&& segment.is_closed()
                    &&& sealed_stamps(crate::text::texts(names@)).contains(segment.stamp())
                    &&& forall|i: int|
                        0 <= i < sealed_stamps(crate::text::texts(names@)).len()
                            ==> segment.stamp() <= #[trigger] sealed_stamps(
                            crate::text::texts(names@),
                        )[i]
                },
                None => sealed_stamps(crate::text::texts(names@)).len() == 0,
            },
    {
        let segments = WALReader::list_closed_segments(names);
        let ghost sealed = sealed_stamps(crate::text::texts(names@));
        let ghost listed = stamps_of(segments@);
        proof {
            listed.to_multiset_ensures();
            sealed.to_multiset_ensures();
            assert(listed.to_multiset() == sealed.to_multiset());
            assert(listed.len() == sealed.len());
        }
        if segments.len() == 0 {
            None
        } else {
            let first = segments[0];
            proof {
                assert(listed[0] == first.stamp());
                assert(listed.contains(first.stamp()));
                assert(listed.to_multiset().count(first.stamp()) > 0);
                assert(sealed.to_multiset().count(first.stamp()) > 0);
                assert(sealed.contains(first.stamp()));
                assert forall|i: int| 0 <= i < sealed.len() implies first.stamp()
                    <= #[trigger] sealed[i] by {
                    assert(sealed.contains(sealed[i]));
                    assert(sealed.to_multiset().count(sealed[i]) > 0);
                    assert(listed.to_multiset().count(sealed[i]) > 0);
                    assert(listed.contains(sealed[i]));
                    let k = choose|k: int| 0 <= k < listed.len() && listed[k] == sealed[i];
                    assert(listed[0] <= listed[k]);
                }
            }
            Some(first)
        }
    }

    /// Marks every record under the id `uuid` as delivered, and says whether
    /// there was one.
    pub fn mark_completed(records: &mut Vec<Record>, uuid: u128) -> (found: bool)
        ensures
            final(records)@ == marked(old(records)@, uuid),
            found == exists|i: int| 0 <= i < old(records)@.len() && old(records)@[i].uuid == uuid,
    {
        let mut found = false;
        let mut i: usize = 0;
        while i < records.len()
            invariant
                i <= records@.len(),
                records@.len() == old(records)@.len(),
                forall|k: int| 0 <= k < i ==> records@[k] == marked(old(records)@, uuid)[k],
                forall|k: int| i <= k < records@.len() ==> records@[k] == old(records)@[k],
                found == exists|k: int| 0 <= k < i && old(records)@[k].uuid == uuid,
            decreases records@.len() - i,
        {
            if records[i].uuid == uuid {
                records[i].complete();
                found = true;
            }
            i = i + 1;
        }
        assert(records@ =~= marked(old(records)@, uuid));
        found
    }

    /// Whether every record has been delivered.
    pub fn is_drained(records: &Vec<Record>) -> (done: bool)
        ensures
            done == drained(records@),
    {
        let mut i: usize = 0;
        while i < records.len()
            invariant
                i <= records@.len(),
                forall|k: int| 0 <= k < i ==> (#[trigger] records@[k]).status == RecordStatus::Completed,
            decreases records@.len() - i,
        {
            if !records[i].is_completed() {
                return false;
            }
            i = i + 1;
        }
        true
    }

    /// The step that deletes the file of `segment`, where it is sealed and
    /// every one of its records has been delivered; otherwise the segment
    /// stays.
    pub fn remove_if_drained(segment: Segment, records: &Vec<Record>) -> (action: Option<WalAction>)
        ensures
            match action {
                Some(a) => segment.is_closed() && drained(records@) && a@ == (Step::Remove {
                    name: closed_name(segment.stamp()),
                }),
                None => !(segment.is_closed() && drained(records@)),
            },
    {
        if WALReader::is_drained(records) {
            segment.remove()
        } else {
            None
        }
    }
}

} // verus!
