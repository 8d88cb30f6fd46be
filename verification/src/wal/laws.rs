//! What the log guarantees from its opening to a clean shutdown.

use vstd::prelude::*;
use crate::wal::disk::{
    Disk, File, bytes_of, empty_disk, increasing, lemma_ran_one, lemma_ran_push, lists_sealed, ran,
    replayed, stepped, zero_bytes,
};
use crate::wal::frame::{all_plain, framed, has_newline, lemma_lines_roundtrip, line_of, lines_of};
use crate::wal::reader::ascending;
use crate::wal::segment::{STAMP_LIMIT, is_active_name, lemma_names_differ, lemma_segment_names, preallocated};
use crate::wal::writer::{Step, WriterView, active_name, closed_name, line_len, next_stamp, opened, orphans, rolls, seal, seals, written};

verus! {

/// The writer and the directory after the first `n` of `payloads` have been
/// written to a log that was opened in an empty directory, the clock showing
/// the stamp `first` at the opening and `clocks[i]` at write `i`, and every
/// step carried out. None where the log was not opened or a write was
/// refused.
pub open spec fn after(
    segment_size: u64,
    first: u64,
    payloads: Seq<Seq<u8>>,
    clocks: Seq<Option<u64>>,
    n: nat,
) -> Option<(WriterView, Disk)>
    decreases n,
{
    if n == 0 {
        match opened(segment_size, Seq::empty(), Some(first)) {
            Ok((writer, steps)) => Some((writer, ran(empty_disk(), steps))),
            Err(_) => None,
        }
    } else {
        match after(segment_size, first, payloads, clocks, (n - 1) as nat) {
            None => None,
            Some((writer, disk)) => match written(writer, payloads[n - 1], clocks[n - 1]) {
                Err(_) => None,
                Ok((next, steps)) => Some((next, ran(disk, steps))),
            },
        }
    }
}

/// The directory after a clean shutdown of `writer`.
pub open spec fn shut(writer: WriterView, disk: Disk) -> Disk {
    ran(disk, seq![seal(active_name(writer.current))])
}

/// The size on disk of the file `name`.
pub open spec fn size_on_disk(disk: Disk, name: Seq<char>) -> nat {
    bytes_of(disk.files[name]).len()
}

proof fn lemma_ran_three(disk: Disk, a: Step, b: Step, c: Step)
    ensures
        ran(disk, seq![a, b, c]) == stepped(stepped(stepped(disk, a), b), c),
{
    lemma_ran_one(disk, a);
    lemma_ran_push(disk, seq![a], b);
    lemma_ran_push(disk, seq![a].push(b), c);
    assert(seq![a].push(b).push(c) =~= seq![a, b, c]);
}

proof fn lemma_zero_bytes_plain(count: int)
    ensures
        !has_newline(zero_bytes(count)),
{
}

proof fn lemma_framed_push(lines: Seq<Seq<u8>>, payload: Seq<u8>)
    ensures
        framed(lines.push(payload)) == framed(lines) + line_of(payload),
        framed(lines.push(payload)).len() == framed(lines).len() + line_len(payload),
{
    assert(lines.push(payload).drop_last() =~= lines);
}

/// A sealed file that holds framed records reads back as those records.
proof fn lemma_file_lines(file: File, lines: Seq<Seq<u8>>)
    requires
        all_plain(lines),
        file.data == framed(lines),
    ensures
        lines_of(bytes_of(file)) == lines,
{
    lemma_zero_bytes_plain(file.room - file.data.len());
    lemma_lines_roundtrip(lines, zero_bytes(file.room - file.data.len()));
}

/// What is replayed depends on the sealed files of the order alone.
proof fn lemma_replayed_same(one: Map<Seq<char>, File>, other: Map<Seq<char>, File>, order: Seq<u64>)
    requires
        forall|i: int|
            0 <= i < order.len() ==> one[closed_name(#[trigger] order[i])] == other[closed_name(
                order[i],
            )],
    ensures
        replayed(one, order) == replayed(other, order),
    decreases order.len(),
{
    if order.len() > 0 {
        assert forall|i: int| 0 <= i < order.drop_last().len() implies one[closed_name(
            #[trigger] order.drop_last()[i],
        )] == other[closed_name(order.drop_last()[i])] by {
            assert(order.drop_last()[i] == order[i]);
        }
        lemma_replayed_same(one, other, order.drop_last());
        assert(order.last() == order[order.len() - 1]);
    }
}

proof fn lemma_replayed_push(files: Map<Seq<char>, File>, order: Seq<u64>, stamp: u64)
    ensures
        replayed(files, order.push(stamp)) == replayed(files, order) + lines_of(
            bytes_of(files[closed_name(stamp)]),
        ),
{
    assert(order.push(stamp).drop_last() =~= order);
}

/// Two lists that each go up strictly and hold the same stamps are one list.
proof fn lemma_increasing_unique(x: Seq<u64>, y: Seq<u64>)
    requires
        increasing(x),
        increasing(y),
        forall|v: u64| x.contains(v) <==> y.contains(v),
    ensures
        x == y,
    decreases x.len(),
{
    if x.len() == 0 {
        if y.len() > 0 {
            assert(y.contains(y[0]));
        }
        assert(x =~= y);
    } else {
        assert(x.contains(x.last()));
        assert(y.contains(x.last()));
        assert(y.len() > 0);
        assert(y.contains(y.last()));
        assert(x.contains(y.last()));
        let i = choose|i: int| 0 <= i < y.len() && y[i] == x.last();
        let j = choose|j: int| 0 <= j < x.len() && x[j] == y.last();
        assert(x.last() == y.last());
        let xs = x.drop_last();
        let ys = y.drop_last();
        assert forall|v: u64| xs.contains(v) <==> ys.contains(v) by {
            if xs.contains(v) {
                let k = choose|k: int| 0 <= k < xs.len() && xs[k] == v;
                assert(x[k] == v);
                assert(x.contains(v));
                let m = choose|m: int| 0 <= m < y.len() && y[m] == v;
                assert(v < x.last());
                assert(m < y.len() - 1);
                assert(ys[m] == v);
            }
            if ys.contains(v) {
                let k = choose|k: int| 0 <= k < ys.len() && ys[k] == v;
                assert(y[k] == v);
                assert(y.contains(v));
                let m = choose|m: int| 0 <= m < x.len() && x[m] == v;
                assert(v < y.last());
                assert(m < x.len() - 1);
                assert(xs[m] == v);
            }
        }
        lemma_increasing_unique(xs, ys);
        assert(x =~= xs.push(x.last()));
        assert(y =~= ys.push(y.last()));
    }
}

/// Whether `name` is the sealed file of one of the segments `sealed`.
spec fn sealed_as(sealed: Seq<u64>, name: Seq<char>) -> bool {
    exists|i: int| 0 <= i < sealed.len() && closed_name(#[trigger] sealed[i]) == name
}

/// What holds between any two writes: the sealed segments, oldest first,
/// and the records of the segment in use.
spec fn session_holds(
    segment_size: u64,
    writer: WriterView,
    disk: Disk,
    done: Seq<Seq<u8>>,
    sealed: Seq<u64>,
    tail: Seq<Seq<u8>>,
) -> bool {
    &&& writer.segment_size == segment_size
    &&& writer.current < STAMP_LIMIT
    &&& writer.bytes_written == framed(tail).len()
    &&& disk.files.dom().contains(active_name(writer.current))
    &&& disk.files[active_name(writer.current)] == File {
        data: framed(tail),
        room: preallocated(segment_size) as nat,
    }
    &&& forall|i: int|
        0 <= i < sealed.len() ==> disk.files.dom().contains(closed_name(#[trigger] sealed[i]))
    &&& forall|name: Seq<char>| #[trigger]
        disk.files.dom().contains(name) ==> name == active_name(writer.current) || sealed_as(
            sealed,
            name,
        )
    &&& all_plain(tail)
    &&& increasing(sealed)
    &&& forall|i: int| 0 <= i < sealed.len() ==> #[trigger] sealed[i] < writer.current
    &&& replayed(disk.files, sealed) + tail == done
}

/// The sealed segments stay what they are when the next is sealed.
proof fn lemma_sealed_grows(sealed: Seq<u64>, stamp: u64, name: Seq<char>)
    requires
        sealed_as(sealed, name) || name == closed_name(stamp),
    ensures
        sealed_as(sealed.push(stamp), name),
{
    let longer = sealed.push(stamp);
    if sealed_as(sealed, name) {
        let i = choose|i: int| 0 <= i < sealed.len() && closed_name(#[trigger] sealed[i]) == name;
        assert(longer[i] == sealed[i]);
        assert(closed_name(longer[i]) == name);
    } else {
        assert(closed_name(longer[sealed.len() as int]) == name);
    }
}

/// The name of a sealed segment of the session is no active name, and not
/// the sealed name of a later segment.
proof fn lemma_sealed_apart(sealed: Seq<u64>, current: u64, other: u64, name: Seq<char>)
    requires
        current < STAMP_LIMIT,
        other < STAMP_LIMIT,
        forall|i: int| 0 <= i < sealed.len() ==> #[trigger] sealed[i] < current,
        sealed_as(sealed, name),
    ensures
        name != active_name(other),
        name != closed_name(current),
{
    let i = choose|i: int| 0 <= i < sealed.len() && closed_name(#[trigger] sealed[i]) == name;
    assert(sealed[i] < current);
    lemma_names_differ(sealed[i], true, other, false);
    lemma_names_differ(sealed[i], true, current, true);
}

proof fn lemma_session(
    segment_size: u64,
    first: u64,
    payloads: Seq<Seq<u8>>,
    clocks: Seq<Option<u64>>,
    n: nat,
) -> (found: (Seq<u64>, Seq<Seq<u8>>))
    requires
        n <= payloads.len(),
        payloads.len() == clocks.len(),
        after(segment_size, first, payloads, clocks, n) is Some,
    ensures
        session_holds(
            segment_size,
            after(segment_size, first, payloads, clocks, n).unwrap().0,
            after(segment_size, first, payloads, clocks, n).unwrap().1,
            payloads.take(n as int),
            found.0,
            found.1,
        ),
    decreases n,
{
    if n == 0 {
        let create = Step::Create { name: active_name(first), size: preallocated(segment_size) };
        let names = Seq::<Seq<char>>::empty();
        assert(orphans(names) =~= Seq::<Seq<char>>::empty());
        assert(seals(Seq::<Seq<char>>::empty()).push(create) =~= seq![create]);
        lemma_ran_one(empty_disk(), create);
        let (writer, disk) = after(segment_size, first, payloads, clocks, n).unwrap();
        let sealed = Seq::<u64>::empty();
        let tail = Seq::<Seq<u8>>::empty();
        assert(payloads.take(0) =~= replayed(disk.files, sealed) + tail);
        assert(framed(tail) =~= Seq::<u8>::empty());
        assert(disk.files[active_name(writer.current)].data =~= framed(tail));
        (sealed, tail)
    } else {
        let (sealed0, tail0) = lemma_session(segment_size, first, payloads, clocks, (n - 1) as nat);
        let (w0, d0) = after(segment_size, first, payloads, clocks, (n - 1) as nat).unwrap();
        let (w, d) = after(segment_size, first, payloads, clocks, n).unwrap();
        let p = payloads[n - 1];
        let cur = w0.current;
        let f0 = d0.files[active_name(cur)];
        assert(payloads.take(n as int) =~= payloads.take(n - 1).push(p));
        lemma_framed_push(tail0, p);
        if !rolls(w0, line_len(p)) {
            let step = Step::Append { name: active_name(cur), bytes: line_of(p) };
            lemma_ran_one(d0, step);
            let tail = tail0.push(p);
            assert(all_plain(tail)) by {
                assert forall|i: int| 0 <= i < tail.len() implies !has_newline(#[trigger] tail[i]) by {
                    if i < tail0.len() {
                        assert(tail[i] == tail0[i]);
                    }
                }
            }
            assert forall|i: int| 0 <= i < sealed0.len() implies d.files[closed_name(
                #[trigger] sealed0[i],
            )] == d0.files[closed_name(sealed0[i])] by {
                lemma_names_differ(sealed0[i], true, cur, false);
            }
            lemma_replayed_same(d.files, d0.files, sealed0);
            assert(replayed(d.files, sealed0) + tail =~= (replayed(d0.files, sealed0) + tail0).push(
                p,
            ));
            (sealed0, tail)
        } else {
            let s = next_stamp(Some(cur), clocks[n - 1]).unwrap();
            let a = Step::Create { name: active_name(s), size: preallocated(w0.segment_size) };
            let b = seal(active_name(cur));
            let c = Step::Append { name: active_name(s), bytes: line_of(p) };
            lemma_ran_three(d0, a, b, c);
            lemma_segment_names(cur);
            lemma_names_differ(s, false, cur, false);
            lemma_names_differ(s, false, cur, true);
            lemma_names_differ(cur, false, cur, true);
            assert(!d0.files.dom().contains(active_name(s))) by {
                if d0.files.dom().contains(active_name(s)) {
                    assert(sealed_as(sealed0, active_name(s)));
                    lemma_sealed_apart(sealed0, cur, s, active_name(s));
                }
            }
            let d1 = stepped(d0, a);
            let d2 = stepped(d1, b);
            assert(d1.files.dom().contains(active_name(cur)));
            assert(d1.files[active_name(cur)] == f0);
            assert(d2.files.dom().contains(active_name(s)));
            let sealed = sealed0.push(cur);
            let tail = seq![p];
            assert(framed(tail) =~= line_of(p)) by {
                lemma_framed_push(Seq::<Seq<u8>>::empty(), p);
                assert(Seq::<Seq<u8>>::empty().push(p) =~= tail);
                assert(framed(Seq::<Seq<u8>>::empty()) =~= Seq::<u8>::empty());
            }
            assert(d.files[active_name(s)].data =~= framed(tail));
            assert(d.files[closed_name(cur)] == f0);
            assert forall|i: int| 0 <= i < sealed.len() implies d.files.dom().contains(
                closed_name(#[trigger] sealed[i]),
            ) by {
                if i < sealed0.len() {
                    assert(sealed[i] == sealed0[i]);
                    assert(d0.files.dom().contains(closed_name(sealed0[i])));
                    lemma_names_differ(sealed0[i], true, cur, false);
                }
            }
            assert forall|name: Seq<char>| #[trigger] d.files.dom().contains(name) implies name
                == active_name(s) || sealed_as(sealed, name) by {
                if name != active_name(s) {
                    if name == closed_name(cur) {
                        lemma_sealed_grows(sealed0, cur, name);
                    } else {
                        assert(d0.files.dom().contains(name));
                        assert(sealed_as(sealed0, name));
                        lemma_sealed_grows(sealed0, cur, name);
                    }
                }
            }
            assert forall|i: int| 0 <= i < sealed0.len() implies d.files[closed_name(
                #[trigger] sealed0[i],
            )] == d0.files[closed_name(sealed0[i])] by {
                lemma_names_differ(sealed0[i], true, cur, false);
                lemma_names_differ(sealed0[i], true, cur, true);
                lemma_names_differ(sealed0[i], true, s, false);
            }
            lemma_replayed_same(d.files, d0.files, sealed0);
            lemma_replayed_push(d.files, sealed0, cur);
            lemma_file_lines(f0, tail0);
            assert(increasing(sealed));
            assert(replayed(d.files, sealed) + tail =~= (replayed(d0.files, sealed0) + tail0).push(
                p,
            ));
            (sealed, tail)
        }
    }
}

/// Between any two writes the directory holds one active file: that of the
/// segment the writer has in use.
pub proof fn lemma_one_active(
    segment_size: u64,
    first: u64,
    payloads: Seq<Seq<u8>>,
    clocks: Seq<Option<u64>>,
    n: nat,
)
    requires
        n <= payloads.len(),
        payloads.len() == clocks.len(),
        after(segment_size, first, payloads, clocks, n) is Some,
    ensures
        ({
            let (writer, disk) = after(segment_size, first, payloads, clocks, n).unwrap();
            forall|name: Seq<char>|
                (#[trigger] disk.files.dom().contains(name) && is_active_name(name)) <==> name
                    == active_name(writer.current)
        }),
{
    let (sealed, tail) = lemma_session(segment_size, first, payloads, clocks, n);
    let (writer, disk) = after(segment_size, first, payloads, clocks, n).unwrap();
    lemma_segment_names(writer.current);
    assert forall|name: Seq<char>|
        (#[trigger] disk.files.dom().contains(name) && is_active_name(name)) implies name
        == active_name(writer.current) by {
        if name != active_name(writer.current) {
            assert(sealed_as(sealed, name));
            let i = choose|i: int| 0 <= i < sealed.len() && closed_name(#[trigger] sealed[i]) == name;
            lemma_segment_names(sealed[i]);
        }
    }
}

/// What is written is replayed. Let a log be opened in an empty directory
/// and `payloads` be written to it, none refused, and let the log then be
/// shut down. Then no active file is left, and a reader that takes the
/// sealed segments oldest first gets exactly `payloads`, in the order they
/// were written.
pub proof fn lemma_wal_roundtrip(
    segment_size: u64,
    first: u64,
    payloads: Seq<Seq<u8>>,
    clocks: Seq<Option<u64>>,
    order: Seq<u64>,
)
    requires
        payloads.len() == clocks.len(),
        after(segment_size, first, payloads, clocks, payloads.len()) is Some,
        lists_sealed(
            shut(
                after(segment_size, first, payloads, clocks, payloads.len()).unwrap().0,
                after(segment_size, first, payloads, clocks, payloads.len()).unwrap().1,
            ),
            order,
        ),
    ensures
        ({
            let (writer, disk) = after(segment_size, first, payloads, clocks, payloads.len()).unwrap();
            &&& forall|name: Seq<char>| #[trigger]
                shut(writer, disk).files.dom().contains(name) ==> !is_active_name(name)
            &&& replayed(shut(writer, disk).files, order) == payloads
        }),
{
    let (sealed0, tail0) = lemma_session(segment_size, first, payloads, clocks, payloads.len());
    let (w, d) = after(segment_size, first, payloads, clocks, payloads.len()).unwrap();
    let cur = w.current;
    let end = shut(w, d);
    let f = d.files[active_name(cur)];
    lemma_ran_one(d, seal(active_name(cur)));
    lemma_segment_names(cur);
    lemma_names_differ(cur, false, cur, true);
    assert(end.files == d.files.remove(active_name(cur)).insert(closed_name(cur), f));
    let sealed = sealed0.push(cur);
    assert(increasing(sealed));
    assert forall|name: Seq<char>| #[trigger] end.files.dom().contains(name) implies sealed_as(
        sealed,
        name,
    ) by {
        if name == closed_name(cur) {
            lemma_sealed_grows(sealed0, cur, name);
        } else {
            assert(d.files.dom().contains(name));
            assert(sealed_as(sealed0, name));
            lemma_sealed_grows(sealed0, cur, name);
        }
    }
    assert forall|name: Seq<char>| #[trigger] end.files.dom().contains(name) implies !is_active_name(
        name,
    ) by {
        assert(sealed_as(sealed, name));
        let i = choose|i: int| 0 <= i < sealed.len() && closed_name(#[trigger] sealed[i]) == name;
        lemma_segment_names(sealed[i]);
    }
    assert forall|v: u64| sealed.contains(v) <==> order.contains(v) by {
        if sealed.contains(v) {
            let k = choose|k: int| 0 <= k < sealed.len() && sealed[k] == v;
            if k < sealed0.len() {
                assert(sealed0[k] == v);
                assert(d.files.dom().contains(closed_name(sealed0[k])));
                lemma_names_differ(v, true, cur, false);
            }
            assert(v < STAMP_LIMIT);
            assert(end.files.dom().contains(closed_name(v)));
        }
        if order.contains(v) {
            assert(v < STAMP_LIMIT && end.files.dom().contains(closed_name(v)));
            assert(sealed_as(sealed, closed_name(v)));
            let i = choose|i: int|
                0 <= i < sealed.len() && closed_name(#[trigger] sealed[i]) == closed_name(v);
            if sealed[i] != v {
                if i < sealed0.len() {
                    assert(sealed[i] == sealed0[i]);
                }
                lemma_names_differ(sealed[i], true, v, true);
            }
            assert(sealed[i] == v);
        }
    }
    lemma_increasing_unique(sealed, order);
    assert forall|i: int| 0 <= i < sealed0.len() implies end.files[closed_name(
        #[trigger] sealed0[i],
    )] == d.files[closed_name(sealed0[i])] by {
        lemma_names_differ(sealed0[i], true, cur, false);
        lemma_names_differ(sealed0[i], true, cur, true);
    }
    lemma_replayed_same(end.files, d.files, sealed0);
    lemma_replayed_push(end.files, sealed0, cur);
    lemma_file_lines(f, tail0);
    assert(payloads.take(payloads.len() as int) =~= payloads);
}

/// A sealed segment is as large as its room or its records, whichever is
/// more, and so no smaller than the record that sealed it where that record
/// is no longer than the one or the other. Let write number `n` of a
/// session as above make the writer roll. Then the file that this write
/// seals takes up on disk the larger of the room a segment file is given and
/// the bytes the writer had written to it; and where the line of the record
/// is no longer than that, the sealed file is no smaller than the line.
pub proof fn lemma_sealed_size(
    segment_size: u64,
    first: u64,
    payloads: Seq<Seq<u8>>,
    clocks: Seq<Option<u64>>,
    n: nat,
)
    requires
        n < payloads.len(),
        payloads.len() == clocks.len(),
        after(segment_size, first, payloads, clocks, n + 1) is Some,
        rolls(after(segment_size, first, payloads, clocks, n).unwrap().0, line_len(payloads[n as int])),
    ensures
        ({
            let (before, _) = after(segment_size, first, payloads, clocks, n).unwrap();
            let (_, disk) = after(segment_size, first, payloads, clocks, n + 1).unwrap();
            let room = preallocated(segment_size) as nat;
            let size = if before.bytes_written > room {
                before.bytes_written
            } else {
                room
            };
            &&& disk.files.dom().contains(closed_name(before.current))
            &&& size_on_disk(disk, closed_name(before.current)) == size
            &&& line_len(payloads[n as int]) <= size ==> size_on_disk(
                disk,
                closed_name(before.current),
            ) >= line_len(payloads[n as int])
        }),
{
    let (sealed0, tail0) = lemma_session(segment_size, first, payloads, clocks, n);
    let (w0, d0) = after(segment_size, first, payloads, clocks, n).unwrap();
    let p = payloads[n as int];
    let cur = w0.current;
    let s = next_stamp(Some(cur), clocks[n as int]).unwrap();
    let a = Step::Create { name: active_name(s), size: preallocated(w0.segment_size) };
    let b = seal(active_name(cur));
    let c = Step::Append { name: active_name(s), bytes: line_of(p) };
    lemma_ran_three(d0, a, b, c);
    lemma_segment_names(cur);
    lemma_names_differ(s, false, cur, false);
    lemma_names_differ(s, false, cur, true);
    let d1 = stepped(d0, a);
    assert(d1.files.dom().contains(active_name(cur)));
    assert(d1.files[active_name(cur)] == d0.files[active_name(cur)]);
}

/// The reader's list is the order of replay. Let `sealed` be the stamps of
/// the sealed segments as a directory gives them, each segment once, and let
/// `listed` hold the same stamps in ascending order, as the reader lists
/// them. Then `listed` lists exactly the sealed segments, oldest first.
pub proof fn lemma_listing_lists_sealed(disk: Disk, sealed: Seq<u64>, listed: Seq<u64>)
    requires
        sealed.no_duplicates(),
        forall|stamp: u64|
            sealed.contains(stamp) <==> stamp < STAMP_LIMIT && disk.files.dom().contains(
                closed_name(stamp),
            ),
        ascending(listed),
        listed.to_multiset() =~= sealed.to_multiset(),
    ensures
        lists_sealed(disk, listed),
{
    sealed.to_multiset_ensures();
    listed.to_multiset_ensures();
    sealed.lemma_multiset_has_no_duplicates();
    listed.lemma_multiset_has_no_duplicates_conv();
    assert forall|stamp: u64|
        listed.contains(stamp) <==> stamp < STAMP_LIMIT && disk.files.dom().contains(
            closed_name(stamp),
        ) by {
        assert(listed.contains(stamp) <==> listed.to_multiset().count(stamp) > 0);
        assert(sealed.contains(stamp) <==> sealed.to_multiset().count(stamp) > 0);
    }
    assert forall|i: int, j: int| 0 <= i < j < listed.len() implies listed[i] < listed[j] by {
        assert(listed[i] <= listed[j]);
        assert(listed[i] != listed[j]);
    }
}

} // verus!
