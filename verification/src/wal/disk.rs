//! The directory of the log as the steps see it.

use vstd::prelude::*;
use crate::wal::frame::lines_of;
use crate::wal::segment::STAMP_LIMIT;
use crate::wal::writer::{Step, closed_name};

verus! {

/// A file: what has been written to it, and the room it was given.
pub ghost struct File {
    pub data: Seq<u8>,
    pub room: nat,
}

/// The directory: its files by name.
pub ghost struct Disk {
    pub files: Map<Seq<char>, File>,
}

/// `count` zero bytes.
pub open spec fn zero_bytes(count: int) -> Seq<u8> {
    Seq::new(if count > 0 { count as nat } else { 0 }, |i: int| 0u8)
}

/// The bytes of a file on disk: what was written, then zeros up to the room
/// the file was given.
pub open spec fn bytes_of(file: File) -> Seq<u8> {
    file.data + zero_bytes(file.room - file.data.len())
}

/// A directory without files.
pub open spec fn empty_disk() -> Disk {
    Disk { files: Map::empty() }
}

/// The directory after one step. Creating gives the file its room, and
/// cuts what a file of that name already held down to it. Appending and
/// renaming need the file to be there; a rename puts the file in the place
/// of any file of the new name. Deleting needs nothing.
pub open spec fn stepped(disk: Disk, step: Step) -> Disk {
    match step {
        Step::Create { name, size } => Disk {
            files: disk.files.insert(
                name,
                File {
                    data: if disk.files.dom().contains(name) && disk.files[name].data.len()
                        <= size {
                        disk.files[name].data
                    } else if disk.files.dom().contains(name) {
                        disk.files[name].data.take(size as int)
                    } else {
                        Seq::empty()
                    },
                    room: size as nat,
                },
            ),
        },
        Step::Append { name, bytes } => if disk.files.dom().contains(name) {
            Disk {
                files: disk.files.insert(
                    name,
                    File { data: disk.files[name].data + bytes, ..disk.files[name] },
                ),
            }
        } else {
            disk
        },
        Step::Rename { from, to } => if disk.files.dom().contains(from) {
            Disk { files: disk.files.remove(from).insert(to, disk.files[from]) }
        } else {
            disk
        },
        Step::Remove { name } => Disk { files: disk.files.remove(name) },
    }
}

/// The directory after a run of steps, in order.
pub open spec fn ran(disk: Disk, steps: Seq<Step>) -> Disk
    decreases steps.len(),
{
    if steps.len() == 0 {
        disk
    } else {
        stepped(ran(disk, steps.drop_last()), steps.last())
    }
}

/// A run of one step is that step.
pub proof fn lemma_ran_one(disk: Disk, a: Step)
    ensures
        ran(disk, seq![a]) == stepped(disk, a),
{
    assert(seq![a].drop_last() =~= Seq::<Step>::empty());
    assert(ran(disk, Seq::<Step>::empty()) == disk);
}

/// A run with one more step is the run, then that step.
pub proof fn lemma_ran_push(disk: Disk, steps: Seq<Step>, last: Step)
    ensures
        ran(disk, steps.push(last)) == stepped(ran(disk, steps), last),
{
    assert(steps.push(last).drop_last() =~= steps);
}

/// The records that a reader gets from the sealed segments with the stamps
/// `order`, taken one after the other.
pub open spec fn replayed(files: Map<Seq<char>, File>, order: Seq<u64>) -> Seq<Seq<u8>>
    decreases order.len(),
{
    if order.len() == 0 {
        Seq::empty()
    } else {
        replayed(files, order.drop_last()) + lines_of(bytes_of(files[closed_name(order.last())]))
    }
}

/// Each stamp is later than the one before.
pub open spec fn increasing(stamps: Seq<u64>) -> bool {
    forall|i: int, j: int| 0 <= i < j < stamps.len() ==> stamps[i] < stamps[j]
}

/// `order` lists exactly the sealed segments of the directory, oldest first.
pub open spec fn lists_sealed(disk: Disk, order: Seq<u64>) -> bool {
    &&& increasing(order)
    &&& forall|stamp: u64|
        order.contains(stamp) <==> stamp < STAMP_LIMIT && disk.files.dom().contains(
            closed_name(stamp),
        )
}

} // verus!
