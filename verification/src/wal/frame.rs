//! Records as lines: each record is its bytes and a newline, and whatever
//! follows the last newline of a file is no record.

use vstd::prelude::*;
use crate::wal::segment::NEWLINE;

verus! {

/// Whether a newline occurs in `bytes`.
pub open spec fn has_newline(bytes: Seq<u8>) -> bool {
    exists|i: int| 0 <= i < bytes.len() && bytes[i] == NEWLINE
}

/// None of `lines` holds a newline.
pub open spec fn all_plain(lines: Seq<Seq<u8>>) -> bool {
    forall|i: int| 0 <= i < lines.len() ==> !has_newline(#[trigger] lines[i])
}

/// A record as it stands in a file: its bytes, then a newline.
pub open spec fn line_of(payload: Seq<u8>) -> Seq<u8> {
    payload.push(NEWLINE)
}

/// The bytes of a run of records: each as its line, one after the other.
pub open spec fn framed(lines: Seq<Seq<u8>>) -> Seq<u8>
    decreases lines.len(),
{
    if lines.len() == 0 {
        Seq::empty()
    } else {
        framed(lines.drop_last()) + line_of(lines.last())
    }
}

/// The first `n` bytes of `bytes` read as lines: the lines that a newline has
/// ended, and the bytes since the last newline.
pub open spec fn split(bytes: Seq<u8>, n: nat) -> (Seq<Seq<u8>>, Seq<u8>)
    decreases n,
{
    if n == 0 {
        (Seq::empty(), Seq::empty())
    } else {
        let (lines, pending) = split(bytes, (n - 1) as nat);
        if bytes[n - 1] == NEWLINE {
            (lines.push(pending), Seq::empty())
        } else {
            (lines, pending.push(bytes[n - 1]))
        }
    }
}

/// The records that a file holds: the lines that a newline ends, in order.
/// What follows the last newline, such as the zeros a file is padded with,
/// counts for nothing.
pub open spec fn lines_of(bytes: Seq<u8>) -> Seq<Seq<u8>> {
    split(bytes, bytes.len()).0
}

/// A list of byte strings as plain values.
pub open spec fn lines_view(lines: Seq<Vec<u8>>) -> Seq<Seq<u8>> {
    lines.map_values(|l: Vec<u8>| l@)
}

proof fn lemma_split_prefix(x: Seq<u8>, y: Seq<u8>, n: nat)
    requires
        n <= x.len(),
        n <= y.len(),
        forall|i: int| 0 <= i < n ==> x[i] == y[i],
    ensures
        split(x, n) == split(y, n),
    decreases n,
{
    if n > 0 {
        lemma_split_prefix(x, y, (n - 1) as nat);
    }
}

proof fn lemma_split_plain(s: Seq<u8>, n: nat)
    requires
        n <= s.len(),
        !has_newline(s),
    ensures
        split(s, n) == (Seq::<Seq<u8>>::empty(), s.take(n as int)),
    decreases n,
{
    if n > 0 {
        lemma_split_plain(s, (n - 1) as nat);
        assert(s[n - 1] != NEWLINE);
        assert(s.take(n - 1).push(s[n - 1]) =~= s.take(n as int));
    } else {
        assert(s.take(0) =~= Seq::<u8>::empty());
    }
}

proof fn lemma_split_append(a: Seq<u8>, b: Seq<u8>, k: nat)
    requires
        k <= b.len(),
        split(a, a.len()).1 == Seq::<u8>::empty(),
    ensures
        split(a + b, a.len() + k) == (split(a, a.len()).0 + split(b, k).0, split(b, k).1),
    decreases k,
{
    if k == 0 {
        lemma_split_prefix(a + b, a, a.len());
        assert(split(a, a.len()).0 + Seq::<Seq<u8>>::empty() =~= split(a, a.len()).0);
    } else {
        lemma_split_append(a, b, (k - 1) as nat);
        assert((a + b)[a.len() + k - 1] == b[k - 1]);
        let (lines, pending) = split(b, (k - 1) as nat);
        if b[k - 1] == NEWLINE {
            assert((split(a, a.len()).0 + lines).push(pending) =~= split(a, a.len()).0
                + lines.push(pending));
        }
    }
}

/// A plain record and its newline read back as that one record.
proof fn lemma_split_line(payload: Seq<u8>)
    requires
        !has_newline(payload),
    ensures
        split(line_of(payload), line_of(payload).len()) == (seq![payload], Seq::<u8>::empty()),
{
    let line = line_of(payload);
    lemma_split_plain(payload, payload.len());
    lemma_split_prefix(line, payload, payload.len());
    assert(payload.take(payload.len() as int) =~= payload);
    assert(Seq::<Seq<u8>>::empty().push(payload) =~= seq![payload]);
}

proof fn lemma_split_framed(lines: Seq<Seq<u8>>)
    requires
        all_plain(lines),
    ensures
        split(framed(lines), framed(lines).len()) == (lines, Seq::<u8>::empty()),
    decreases lines.len(),
{
    if lines.len() > 0 {
        let init = lines.drop_last();
        assert(all_plain(init)) by {
            assert forall|i: int| 0 <= i < init.len() implies !has_newline(#[trigger] init[i]) by {
                assert(init[i] == lines[i]);
            }
        }
        lemma_split_framed(init);
        let line = line_of(lines.last());
        lemma_split_line(lines.last());
        lemma_split_append(framed(init), line, line.len());
        assert(init + seq![lines.last()] =~= lines);
    }
}

/// What is written is what is read. For records without a newline in them,
/// framed one after the other and followed by anything without a newline,
/// such as padding, the lines of the whole are exactly those records, in
/// order.
pub proof fn lemma_lines_roundtrip(lines: Seq<Seq<u8>>, tail: Seq<u8>)
    requires
        all_plain(lines),
        !has_newline(tail),
    ensures
        lines_of(framed(lines) + tail) == lines,
{
    lemma_split_framed(lines);
    lemma_split_append(framed(lines), tail, tail.len());
    lemma_split_plain(tail, tail.len());
    assert(lines + Seq::<Seq<u8>>::empty() =~= lines);
}

/// Whether a newline occurs in `payload`.
pub fn contains_newline(payload: &[u8]) -> (found: bool)
    ensures
        found == has_newline(payload@),
{
    let mut i: usize = 0;
    while i < payload.len()
        invariant
            i <= payload@.len(),
            forall|k: int| 0 <= k < i ==> payload@[k] != NEWLINE,
        decreases payload@.len() - i,
    {
        if payload[i] == NEWLINE {
            return true;
        }
        i = i + 1;
    }
    false
}

/// The line of a record: its bytes and a newline. A record with a newline
/// in it cannot be framed.
pub fn frame(payload: &[u8]) -> (line: Option<Vec<u8>>)
    ensures
        match line {
            Some(l) => !has_newline(payload@) && l@ == line_of(payload@),
            None => has_newline(payload@),
        },
{
    if contains_newline(payload) {
        return None;
    }
    let mut line: Vec<u8> = Vec::new();
    let mut i: usize = 0;
    while i < payload.len()
        invariant
            i <= payload@.len(),
            line@ == payload@.take(i as int),
        decreases payload@.len() - i,
    {
        line.push(payload[i]);
        assert(line@ =~= payload@.take(i + 1));
        i = i + 1;
    }
    assert(payload@.take(i as int) =~= payload@);
    line.push(NEWLINE);
    Some(line)
}

/// The records that the bytes of a file hold.
pub fn read_records(content: &[u8]) -> (records: Vec<Vec<u8>>)
    ensures
        lines_view(records@) == lines_of(content@),
{
    let mut records: Vec<Vec<u8>> = Vec::new();
    let mut pending: Vec<u8> = Vec::new();
    let mut i: usize = 0;
    assert(lines_view(records@) =~= Seq::<Seq<u8>>::empty());
    while i < content.len()
        invariant
            i <= content@.len(),
            (lines_view(records@), pending@) == split(content@, i as nat),
        decreases content@.len() - i,
    {
        if content[i] == NEWLINE {
            let ghost before = lines_view(records@);
            records.push(pending);
            assert(lines_view(records@) =~= before.push(pending@));
            pending = Vec::new();
        } else {
            pending.push(content[i]);
        }
        i = i + 1;
    }
    records
}

} // verus!
