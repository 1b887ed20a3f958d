//! Session files: every event is stored as a record `[u32 LE length][payload]`,
//! records follow one another, and a file cut mid-write keeps its complete records.

use vstd::prelude::*;
use vstd::slice::{slice_subrange, slice_to_vec};

verus! {

/// The unsigned little-endian value of the four bytes of `b` starting at `at`.
pub open spec fn le32_at(b: Seq<u8>, at: int) -> nat {
    (b[at] + 256 * b[at + 1] + 65536 * b[at + 2] + 16777216 * b[at + 3]) as nat
}

/// The four little-endian bytes of `n` (taken modulo 2^32).
pub open spec fn le32_bytes(n: nat) -> Seq<u8> {
    seq![
        (n % 256) as u8,
        (n / 256 % 256) as u8,
        (n / 65536 % 256) as u8,
        (n / 16777216 % 256) as u8,
    ]
}

/// One record: the payload's length as a `u32` in little-endian order, then the payload.
pub open spec fn record(payload: Seq<u8>) -> Seq<u8> {
    le32_bytes(payload.len()) + payload
}

/// A whole session: the records of `payloads`, in order.
pub open spec fn session_bytes(payloads: Seq<Seq<u8>>) -> Seq<u8>
    decreases payloads.len(),
{
    if payloads.len() == 0 {
        Seq::empty()
    } else {
        record(payloads[0]) + session_bytes(payloads.drop_first())
    }
}

/// What reading `b` from offset `pos` gives: the payloads of the complete records, in order,
/// and, when a record's header announces more bytes than remain, the offset just after that
/// header. Fewer than four bytes at the end are not a record and are ignored.
pub open spec fn records_from(b: Seq<u8>, pos: int) -> (Seq<Seq<u8>>, Option<int>)
    decreases b.len() - pos,
{
    if pos < 0 || pos + 4 > b.len() {
        (Seq::empty(), None)
    } else {
        let start = pos + 4;
        let end = start + le32_at(b, pos);
        if end > b.len() {
            (Seq::empty(), Some(start))
        } else {
            let rest = records_from(b, end);
            (seq![b.subrange(start, end)] + rest.0, rest.1)
        }
    }
}

/// The byte views of a sequence of vectors.
pub open spec fn byte_views(v: Seq<Vec<u8>>) -> Seq<Seq<u8>> {
    v.map_values(|x: Vec<u8>| x@)
}

/// A session file split into the payloads of its records.
pub struct Records {
    /// Payloads of the complete records, in file order.
    pub payloads: Vec<Vec<u8>>,
    /// Where the file was cut: the offset just past the header of a record whose payload
    /// runs beyond the end.
    pub truncated_at: Option<usize>,
}

/// Why a record could not be framed.
#[derive(Debug, Clone, Copy, PartialEq, Eq)]
pub enum RecordError {
    /// The payload is longer than a `u32` length can announce.
    TooLong,
}

proof fn lemma_le32_roundtrip(n: nat)
    requires
        n < 4294967296,
    ensures
        le32_at(le32_bytes(n), 0) == n,
{
    let b = le32_bytes(n);
    assert(b[0] == n % 256);
    assert(b[1] == n / 256 % 256);
    assert(b[2] == n / 65536 % 256);
    assert(b[3] == n / 16777216 % 256);
    assert(n == n % 256 + 256 * (n / 256 % 256) + 65536 * (n / 65536 % 256) + 16777216 * (n
        / 16777216 % 256)) by (nonlinear_arith)
        requires
            n < 4294967296,
    ;
}

/// Splits a session file into its records' payloads.
pub fn split_records(bytes: &[u8]) -> (r: Records)
    ensures
        byte_views(r.payloads@) == records_from(bytes@, 0).0,
        r.truncated_at matches Some(t) ==> records_from(bytes@, 0).1 == Some(t as int),
        r.truncated_at is None ==> records_from(bytes@, 0).1 is None,
{
    let mut payloads: Vec<Vec<u8>> = Vec::new();
    let mut pos: usize = 0;
    let len = bytes.len();
    while len - pos >= 4
        invariant
            len == bytes@.len(),
            pos <= len,
            records_from(bytes@, 0) == (
                byte_views(payloads@) + records_from(bytes@, pos as int).0,
                records_from(bytes@, pos as int).1,
            ),
        decreases len - pos,
    {
        let n: u32 = bytes[pos] as u32 + 256 * (bytes[pos + 1] as u32) + 65536 * (bytes[pos
            + 2] as u32) + 16777216 * (bytes[pos + 3] as u32);
        assert(n == le32_at(bytes@, pos as int));
        let start = pos + 4;
        let n = n as usize;
        match start.checked_add(n) {
            Some(end) if end <= len => {
                let piece = slice_to_vec(slice_subrange(bytes, start, end));
                let ghost before = byte_views(payloads@);
                payloads.push(piece);
                assert(byte_views(payloads@) =~= before.push(bytes@.subrange(
                    start as int,
                    end as int,
                )));
                assert(records_from(bytes@, pos as int).0 =~= seq![
                    bytes@.subrange(start as int, end as int),
                ] + records_from(bytes@, end as int).0);
                assert(before + records_from(bytes@, pos as int).0 =~= byte_views(payloads@)
                    + records_from(bytes@, end as int).0);
                pos = end;
            },
            _ => {
                assert(records_from(bytes@, pos as int).0 =~= Seq::<Seq<u8>>::empty());
                assert(byte_views(payloads@) + Seq::<Seq<u8>>::empty() =~= byte_views(
                    payloads@,
                ));
                return Records { payloads, truncated_at: Some(start) };
            },
        }
    }
    assert(byte_views(payloads@) + Seq::<Seq<u8>>::empty() =~= byte_views(payloads@));
    Records { payloads, truncated_at: None }
}

/// Frames one payload as a record.
pub fn frame_record(payload: &[u8]) -> (r: Result<Vec<u8>, RecordError>)
    ensures
        payload@.len() <= u32::MAX ==> (r matches Ok(v) && v@ == record(payload@)),
        payload@.len() > u32::MAX ==> r == Err::<Vec<u8>, RecordError>(RecordError::TooLong),
{
    let len = payload.len();
    if len > 4294967295usize {
        return Err(RecordError::TooLong);
    }
    let n = len as u32;
    let mut out: Vec<u8> = Vec::new();
    out.push((n % 256) as u8);
    out.push((n / 256 % 256) as u8);
    out.push((n / 65536 % 256) as u8);
    out.push((n / 16777216 % 256) as u8);
    let mut i: usize = 0;
    while i < len
        invariant
            len == payload@.len(),
            i <= len,
            out@ == le32_bytes(len as nat) + payload@.subrange(0, i as int),
        decreases len - i,
    {
        out.push(payload[i]);
        i = i + 1;
        assert(payload@.subrange(0, i as int) =~= payload@.subrange(0, i - 1).push(payload@[i - 1]));
    }
    assert(payload@.subrange(0, len as int) =~= payload@);
    Ok(out)
}


/// The counting half of a session writer: how many records have gone out, and when the
/// buffered file should be flushed (after every hundredth record).
pub struct Recorder {
    records: u64,
}

impl View for Recorder {
    type V = nat;

    /// Records written so far.
    closed spec fn view(&self) -> nat {
        self.records as nat
    }
}

impl Recorder {
    /// A recorder that has written nothing yet.
    pub fn new() -> (r: Self)
        ensures
            r@ == 0,
    {
        Recorder { records: 0 }
    }

    /// Records written so far.
    pub fn records(&self) -> (n: u64)
        ensures
            n == self@,
    {
        self.records
    }

    /// The bytes to append for one event's payload.
    pub fn frame(&self, payload: &[u8]) -> (r: Result<Vec<u8>, RecordError>)
        ensures
            payload@.len() <= u32::MAX ==> (r matches Ok(v) && v@ == record(payload@)),
            payload@.len() > u32::MAX ==> r == Err::<Vec<u8>, RecordError>(RecordError::TooLong),
    {
        frame_record(payload)
    }

    /// Counts a record that reached the file; says whether the file should be flushed now.
    pub fn written(&mut self) -> (flush: bool)
        requires
            old(self)@ < u64::MAX,
        ensures
            final(self)@ == old(self)@ + 1,
            flush == (final(self)@ % 100 == 0),
    {
        self.records = self.records + 1;
        self.records % 100 == 0
    }
}

proof fn lemma_records_after(pre: Seq<u8>, payloads: Seq<Seq<u8>>)
    requires
        forall|i: int| 0 <= i < payloads.len() ==> #[trigger] payloads[i].len() <= u32::MAX,
    ensures
        records_from(pre + session_bytes(payloads), pre.len() as int) == (payloads, None::<int>),
    decreases payloads.len(),
{
    let b = pre + session_bytes(payloads);
    let pos = pre.len() as int;
    if payloads.len() == 0 {
        assert(b =~= pre);
        assert(payloads =~= Seq::<Seq<u8>>::empty());
    } else {
        let p = payloads[0];
        let rest = payloads.drop_first();
        assert(payloads[0].len() <= u32::MAX);
        let pre2 = pre + record(p);
        assert(b =~= pre2 + session_bytes(rest));
        lemma_le32_roundtrip(p.len());
        assert(b.subrange(pos, pos + 4) =~= le32_bytes(p.len()));
        assert(le32_at(b, pos) == le32_at(le32_bytes(p.len()), 0));
        assert(b.subrange(pos + 4, pos + 4 + p.len()) =~= p);
        assert forall|i: int| 0 <= i < rest.len() implies #[trigger] rest[i].len() <= u32::MAX by {
            assert(rest[i] == payloads[i + 1]);
        }
        lemma_records_after(pre2, rest);
        assert(pre2.len() == pos + 4 + p.len());
        assert(seq![p] + rest =~= payloads);
    }
}

/// Reading back a session gives exactly the payloads that were framed into it, in order,
/// with no truncation.
pub proof fn lemma_session_roundtrip(payloads: Seq<Seq<u8>>)
    requires
        forall|i: int| 0 <= i < payloads.len() ==> #[trigger] payloads[i].len() <= u32::MAX,
    ensures
        records_from(session_bytes(payloads), 0) == (payloads, None::<int>),
{
    lemma_records_after(Seq::empty(), payloads);
    assert(Seq::<u8>::empty() + session_bytes(payloads) =~= session_bytes(payloads));
}

/// `t` is no complete record: fewer than four bytes, or a header announcing more bytes than
/// follow it (what a write cut short leaves at the end of a file).
pub open spec fn unfinished_record(t: Seq<u8>) -> bool {
    t.len() < 4 || le32_at(t, 0) > t.len() - 4
}

proof fn lemma_tail_after(pre: Seq<u8>, payloads: Seq<Seq<u8>>, t: Seq<u8>)
    requires
        forall|i: int| 0 <= i < payloads.len() ==> #[trigger] payloads[i].len() <= u32::MAX,
        unfinished_record(t),
    ensures
        records_from(pre + session_bytes(payloads) + t, pre.len() as int).0 == payloads,
    decreases payloads.len(),
{
    let b = pre + session_bytes(payloads) + t;
    let pos = pre.len() as int;
    if payloads.len() == 0 {
        assert(b =~= pre + t);
        assert(payloads =~= Seq::<Seq<u8>>::empty());
        if t.len() >= 4 {
            assert(b[pos] == t[0] && b[pos + 1] == t[1] && b[pos + 2] == t[2] && b[pos + 3] == t[3]);
            assert(le32_at(b, pos) == le32_at(t, 0));
        }
    } else {
        let p = payloads[0];
        let rest = payloads.drop_first();
        assert(payloads[0].len() <= u32::MAX);
        let pre2 = pre + record(p);
        assert(b =~= pre2 + session_bytes(rest) + t);
        lemma_le32_roundtrip(p.len());
        assert(b.subrange(pos, pos + 4) =~= le32_bytes(p.len()));
        assert(le32_at(b, pos) == le32_at(le32_bytes(p.len()), 0));
        assert(b.subrange(pos + 4, pos + 4 + p.len()) =~= p);
        assert forall|i: int| 0 <= i < rest.len() implies #[trigger] rest[i].len() <= u32::MAX by {
            assert(rest[i] == payloads[i + 1]);
        }
        lemma_tail_after(pre2, rest, t);
        assert(pre2.len() == pos + 4 + p.len());
        assert(seq![p] + rest =~= payloads);
    }
}

/// A session followed by bytes that are no complete record (a hub killed mid-write) still
/// reads back every complete record, and drops the unfinished one.
pub proof fn lemma_unfinished_tail_is_dropped(payloads: Seq<Seq<u8>>, tail: Seq<u8>)
    requires
        forall|i: int| 0 <= i < payloads.len() ==> #[trigger] payloads[i].len() <= u32::MAX,
        unfinished_record(tail),
    ensures
        records_from(session_bytes(payloads) + tail, 0).0 == payloads,
{
    lemma_tail_after(Seq::empty(), payloads, tail);
    assert(Seq::<u8>::empty() + session_bytes(payloads) =~= session_bytes(payloads));
}

/// A session cut anywhere inside its last record still reads back every complete record
/// before the cut: any such cut leaves an unfinished record.
pub proof fn lemma_cut_session_keeps_complete_records(
    payloads: Seq<Seq<u8>>,
    last: Seq<u8>,
    cut: nat,
)
    requires
        forall|i: int| 0 <= i < payloads.len() ==> #[trigger] payloads[i].len() <= u32::MAX,
        last.len() <= u32::MAX,
        cut < record(last).len(),
    ensures
        records_from(session_bytes(payloads) + record(last).take(cut as int), 0).0 == payloads,
{
    let t = record(last).take(cut as int);
    if cut >= 4 {
        lemma_le32_roundtrip(last.len());
        let h = le32_bytes(last.len());
        assert(t[0] == h[0] && t[1] == h[1] && t[2] == h[2] && t[3] == h[3]);
        assert(le32_at(t, 0) == le32_at(h, 0));
    }
    lemma_unfinished_tail_is_dropped(payloads, t);
}

} // verus!
