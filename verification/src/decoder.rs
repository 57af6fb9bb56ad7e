//! The framing of a record stream: one record after the other, each behind
//! the length of its payload as two bytes, low byte first.

use vstd::prelude::*;

verus! {

/// Why a stream cannot be framed.
#[derive(Clone, Copy, Debug, PartialEq, Eq, Structural)]
pub enum DecodeError {
    /// The stream ends inside the last record or inside its length.
    Truncated,
}

/// The payload of one record: the bytes of the stream from `start` up to,
/// and without, `end`.
#[derive(Clone, Copy, Debug, PartialEq, Eq)]
pub struct RawRecord {
    pub start: usize,
    pub end: usize,
}

/// The length that the two bytes at `pos` stand for.
pub open spec fn length_at(stream: Seq<u8>, pos: int) -> int {
    stream[pos] as int + 256 * (stream[pos + 1] as int)
}

/// The records of the stream from `pos` on, in order. A stream that ends at
/// `pos` holds none; one that ends inside a length or a payload is truncated.
pub open spec fn framed(stream: Seq<u8>, pos: int) -> Result<Seq<RawRecord>, DecodeError>
    decreases stream.len() - pos,
{
    if pos < 0 || pos >= stream.len() {
        Ok(Seq::empty())
    } else if pos + 2 > stream.len() || pos + 2 + length_at(stream, pos) > stream.len() {
        Err(DecodeError::Truncated)
    } else {
        let end = pos + 2 + length_at(stream, pos);
        match framed(stream, end) {
            Ok(rest) => Ok(seq![RawRecord { start: (pos + 2) as usize, end: end as usize }] + rest),
            Err(error) => Err(error),
        }
    }
}

/// The records found so far in front of what the rest of the stream gives.
pub open spec fn joined(found: Seq<RawRecord>, rest: Result<Seq<RawRecord>, DecodeError>)
    -> Result<Seq<RawRecord>, DecodeError> {
    match rest {
        Ok(records) => Ok(found + records),
        Err(error) => Err(error),
    }
}

/// The records of a framed stream lie one behind the other with two bytes of
/// length between them, each payload is as long as the length in front of it
/// says, and the last one ends where the stream ends.
pub proof fn lemma_frames_tile(stream: Seq<u8>, pos: int)
    requires
        0 <= pos <= stream.len() <= usize::MAX,
        framed(stream, pos) is Ok,
    ensures
        ({
            let records = framed(stream, pos)->Ok_0;
            &&& records.len() == 0 <==> pos == stream.len()
            &&& records.len() > 0 ==> records[0].start == pos + 2 && records.last().end
                == stream.len()
            &&& forall|i: int|
                0 <= i < records.len() ==> {
                    let record = #[trigger] records[i];
                    &&& 2 <= record.start <= record.end <= stream.len()
                    &&& record.end - record.start == length_at(stream, record.start - 2)
                }
            &&& forall|i: int|
                0 <= i < records.len() - 1 ==> (#[trigger] records[i + 1]).start == records[i].end
                    + 2
        }),
    decreases stream.len() - pos,
{
    if pos < stream.len() {
        let end = pos + 2 + length_at(stream, pos);
        lemma_frames_tile(stream, end);
        let rest = framed(stream, end)->Ok_0;
        let records = framed(stream, pos)->Ok_0;
        let first = RawRecord { start: (pos + 2) as usize, end: end as usize };
        assert(records =~= seq![first] + rest);
        assert forall|i: int| 0 <= i < records.len() implies {
            let record = #[trigger] records[i];
            &&& 2 <= record.start <= record.end <= stream.len()
            &&& record.end - record.start == length_at(stream, record.start - 2)
        } by {
            if i > 0 {
                assert(records[i] == rest[i - 1]);
            }
        }
        assert forall|i: int| 0 <= i < records.len() - 1 implies (#[trigger] records[i
            + 1]).start == records[i].end + 2 by {
            assert(records[i + 1] == rest[i]);
            if i > 0 {
                assert(records[i] == rest[i - 1]);
                assert(rest[(i - 1) + 1].start == rest[i - 1].end + 2);
            }
        }
        if rest.len() > 0 {
            assert(records.last() == rest.last());
        }
    }
}

/// Frames a stream in one pass from its first byte to its last. Fails with
/// `Truncated` where the stream ends inside a length or a payload.
pub fn frame_records(stream: &[u8]) -> (result: Result<Vec<RawRecord>, DecodeError>)
    ensures
        match result {
            Ok(records) => framed(stream@, 0) == Ok::<Seq<RawRecord>, DecodeError>(records@),
            Err(error) => framed(stream@, 0) == Err::<Seq<RawRecord>, DecodeError>(error),
        },
{
    let mut records: Vec<RawRecord> = Vec::new();
    let mut pos: usize = 0;
    assert(Seq::<RawRecord>::empty() + framed(stream@, 0)->Ok_0 =~= framed(stream@, 0)->Ok_0);
    while pos < stream.len()
        invariant
            pos <= stream.len(),
            framed(stream@, 0) == joined(records@, framed(stream@, pos as int)),
        decreases stream.len() - pos,
    {
        if stream.len() - pos < 2 {
            return Err(DecodeError::Truncated);
        }
        let length: usize = stream[pos] as usize + 256 * (stream[pos + 1] as usize);
        if stream.len() - pos - 2 < length {
            return Err(DecodeError::Truncated);
        }
        let start: usize = pos + 2;
        let end: usize = start + length;
        let ghost found = records@;
        records.push(RawRecord { start, end });
        proof {
            let rest = framed(stream@, end as int);
            if rest is Ok {
                assert(found + (seq![RawRecord { start, end }] + rest->Ok_0) =~= records@
                    + rest->Ok_0);
            }
        }
        pos = end;
    }
    assert(records@ + Seq::<RawRecord>::empty() =~= records@);
    Ok(records)
}

} // verus!
