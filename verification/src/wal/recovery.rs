//! What the opening of the log does to a directory after a crash.

use vstd::prelude::*;
use vstd::seq_lib::lemma_seq_contains_after_push;
use crate::wal::disk::{Disk, File, lemma_ran_push, ran, stepped};
use crate::wal::segment::{is_active_name, lemma_segment_names, preallocated, sealed_name};
use crate::wal::writer::{Step, active_name, orphans, prepared, seal, seals};

verus! {

/// The active name that is sealed under `name`: `A` in place of its last
/// letter.
pub open spec fn active_form(name: Seq<char>) -> Seq<char> {
    name.drop_last().push('A')
}

/// Whether `name` is the sealed name of an active file of the directory
/// `disk` that is among `done`.
pub open spec fn sealed_from(disk: Disk, done: Seq<Seq<char>>, name: Seq<char>) -> bool {
    &&& is_active_name(active_form(name))
    &&& sealed_name(active_form(name)) == name
    &&& done.contains(active_form(name))
    &&& disk.files.dom().contains(active_form(name))
}

/// What the file `name` has become once the active files `done` of the
/// directory `disk` are sealed and the directory stands as `now`: an active
/// file among `done` is gone, a file that one of them was sealed under holds
/// what that one held, and every other file is as it was.
pub open spec fn recovered(disk: Disk, done: Seq<Seq<char>>, now: Disk, name: Seq<char>) -> bool {
    if is_active_name(name) {
        &&& now.files.dom().contains(name) <==> disk.files.dom().contains(name) && !done.contains(
            name,
        )
        &&& now.files.dom().contains(name) ==> now.files[name] == disk.files[name]
    } else if sealed_from(disk, done, name) {
        &&& now.files.dom().contains(name)
        &&& now.files[name] == disk.files[active_form(name)]
    } else {
        &&& now.files.dom().contains(name) <==> disk.files.dom().contains(name)
        &&& now.files.dom().contains(name) ==> now.files[name] == disk.files[name]
    }
}

proof fn lemma_forms(name: Seq<char>)
    requires
        is_active_name(name),
    ensures
        !is_active_name(sealed_name(name)),
        active_form(sealed_name(name)) == name,
        sealed_name(name) != name,
{
    assert(active_form(sealed_name(name)) =~= name);
    assert(sealed_name(name)[name.len() - 1] == 'C');
}

proof fn lemma_seals_push(done: Seq<Seq<char>>, name: Seq<char>)
    ensures
        seals(done.push(name)) == seals(done).push(seal(name)),
{
    assert(seals(done.push(name)) =~= seals(done).push(seal(name)));
}

/// Sealing the active files `done` one after the other leaves every file of
/// the directory as `recovered` says.
proof fn lemma_sealing(disk: Disk, done: Seq<Seq<char>>)
    requires
        forall|j: int| 0 <= j < done.len() ==> is_active_name(#[trigger] done[j]),
    ensures
        forall|name: Seq<char>| #[trigger]
            recovered(disk, done, ran(disk, seals(done)), name),
    decreases done.len(),
{
    if done.len() == 0 {
        assert(seals(done) =~= Seq::<Step>::empty());
        assert forall|name: Seq<char>| #[trigger]
            recovered(disk, done, ran(disk, seals(done)), name) by {}
    } else {
        let prev = done.drop_last();
        let o = done.last();
        assert(done =~= prev.push(o));
        assert forall|j: int| 0 <= j < prev.len() implies is_active_name(#[trigger] prev[j]) by {
            assert(prev[j] == done[j]);
        }
        lemma_sealing(disk, prev);
        lemma_seals_push(prev, o);
        lemma_ran_push(disk, seals(prev), seal(o));
        let before = ran(disk, seals(prev));
        let now = ran(disk, seals(done));
        assert(now == stepped(before, seal(o)));
        assert(is_active_name(o));
        lemma_forms(o);
        assert(recovered(disk, prev, before, o));
        assert forall|name: Seq<char>| #[trigger] recovered(disk, done, now, name) by {
            assert(recovered(disk, prev, before, name));
            lemma_seq_contains_after_push(prev, o, name);
            lemma_seq_contains_after_push(prev, o, active_form(name));
            if is_active_name(name) {
                lemma_forms(name);
            } else if name != sealed_name(o) {
                if active_form(name) == o {
                    assert(sealed_name(active_form(name)) != name);
                }
            }
        }
    }
}

proof fn lemma_orphans(names: Seq<Seq<char>>, name: Seq<char>)
    ensures
        orphans(names).contains(name) <==> names.contains(name) && is_active_name(name),
        forall|j: int| 0 <= j < orphans(names).len() ==> is_active_name(#[trigger] orphans(names)[j]),
    decreases names.len(),
{
    if names.len() > 0 {
        let prev = names.drop_last();
        lemma_orphans(prev, name);
        assert(names =~= prev.push(names.last()));
        lemma_seq_contains_after_push(prev, names.last(), name);
        if is_active_name(names.last()) {
            lemma_seq_contains_after_push(orphans(prev), names.last(), name);
            assert forall|j: int| 0 <= j < orphans(names).len() implies is_active_name(
                #[trigger] orphans(names)[j],
            ) by {
                if j < orphans(prev).len() {
                    assert(orphans(names)[j] == orphans(prev)[j]);
                }
            }
        }
    }
}

/// Opening the log leaves one active file. Let the directory `disk` hold
/// exactly the files `names`, and let it be prepared, the clock showing the
/// stamp `clock`. Then every file whose name ended in `.A` is sealed: it
/// stands under the same name with `C` for `A`, holding what it held. The
/// one active file is that of the fresh segment, empty and with its room.
/// A file that is neither active nor stands where one was sealed is as it
/// was.
pub proof fn lemma_recovery(capacity: u64, names: Seq<Seq<char>>, clock: Option<u64>, disk: Disk)
    requires
        prepared(capacity, names, clock) is Some,
        forall|name: Seq<char>| disk.files.dom().contains(name) <==> names.contains(name),
    ensures
        ({
            let (stamp, steps) = prepared(capacity, names, clock).unwrap();
            let now = ran(disk, steps);
            &&& forall|name: Seq<char>|
                (#[trigger] now.files.dom().contains(name) && is_active_name(name)) <==> name
                    == active_name(stamp)
            &&& now.files[active_name(stamp)] == File {
                data: Seq::empty(),
                room: preallocated(capacity) as nat,
            }
            &&& forall|name: Seq<char>|
                #[trigger] disk.files.dom().contains(name) && is_active_name(name)
                    ==> now.files.dom().contains(sealed_name(name)) && now.files[sealed_name(name)]
                    == disk.files[name]
            &&& forall|name: Seq<char>|
                #[trigger] disk.files.dom().contains(name) && !is_active_name(name) && !sealed_from(
                    disk,
                    names,
                    name,
                ) ==> now.files.dom().contains(name) && now.files[name] == disk.files[name]
        }),
{
    let (stamp, steps) = prepared(capacity, names, clock).unwrap();
    let done = orphans(names);
    let create = Step::Create { name: active_name(stamp), size: preallocated(capacity) };
    let sealed = ran(disk, seals(done));
    let now = ran(disk, steps);
    lemma_orphans(names, active_name(stamp));
    lemma_sealing(disk, done);
    lemma_ran_push(disk, seals(done), create);
    lemma_segment_names(stamp);
    assert(now == stepped(sealed, create));
    assert(!sealed.files.dom().contains(active_name(stamp))) by {
        assert(recovered(disk, done, sealed, active_name(stamp)));
    }
    assert forall|name: Seq<char>|
        (#[trigger] now.files.dom().contains(name) && is_active_name(name)) <==> name
            == active_name(stamp) by {
        assert(recovered(disk, done, sealed, name));
        lemma_orphans(names, name);
    }
    assert forall|name: Seq<char>|
        #[trigger] disk.files.dom().contains(name) && is_active_name(name)
            implies now.files.dom().contains(sealed_name(name)) && now.files[sealed_name(name)]
        == disk.files[name] by {
        lemma_forms(name);
        lemma_orphans(names, name);
        assert(recovered(disk, done, sealed, sealed_name(name)));
        assert(sealed_from(disk, done, sealed_name(name)));
    }
    assert forall|name: Seq<char>|
        #[trigger] disk.files.dom().contains(name) && !is_active_name(name) && !sealed_from(
            disk,
            names,
            name,
        ) implies now.files.dom().contains(name) && now.files[name] == disk.files[name] by {
        assert(recovered(disk, done, sealed, name));
        lemma_orphans(names, active_form(name));
    }
}

} // verus!
