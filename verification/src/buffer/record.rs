use vstd::bytes::*;
use vstd::prelude::*;
use vstd::slice::slice_subrange;

verus! {

/// Number of bytes a frame adds around the payload: length (4), id (8) and CRC (4).
pub const FRAME_OVERHEAD: usize = 16;

/// One entry of the write-ahead log.
pub struct Record {
    pub id: u64,
    pub data: Vec<u8>,
}

/// Why a frame could not be read back.
#[derive(Debug, Clone, Copy, PartialEq, Eq, Structural)]
pub enum DecodeError {
    /// The bytes end before the frame does.
    Truncated,
    /// The stored checksum does not match the payload.
    CrcMismatch,
}

impl View for Record {
    type V = (u64, Seq<u8>);

    open spec fn view(&self) -> (u64, Seq<u8>) {
        (self.id, self.data@)
    }
}

/// The CRC-32 (IEEE) checksum of a byte sequence, as crc32fast computes it.
pub uninterp spec fn crc32_of(data: Seq<u8>) -> u32;

/// Calls `crc32fast::hash`, which returns the CRC-32 checksum of its input;
/// the checksum itself is left to the name `crc32_of`.
#[verifier::external_body]
fn crc32(data: &[u8]) -> (r: u32)
    ensures
        r == crc32_of(data@),
{
    crc32fast::hash(data)
}

/// The bytes of one frame: payload length (u32, little endian), id (u64,
/// little endian), payload, CRC-32 of the payload (u32, little endian).
pub open spec fn frame_bytes(id: u64, data: Seq<u8>) -> Seq<u8> {
    spec_u32_to_le_bytes(data.len() as u32) + spec_u64_to_le_bytes(id) + data
        + spec_u32_to_le_bytes(crc32_of(data))
}

/// What reading one frame at `pos` of `bytes` gives: the id, the payload and
/// the position just past the frame, or why it failed.
pub open spec fn decode_frame_at(bytes: Seq<u8>, pos: int) -> Result<(u64, Seq<u8>, int), DecodeError> {
    if pos + 4 > bytes.len() {
        Err(DecodeError::Truncated)
    } else {
        let len = spec_u32_from_le_bytes(bytes.subrange(pos, pos + 4)) as int;
        if pos + 16 + len > bytes.len() {
            Err(DecodeError::Truncated)
        } else {
            let id = spec_u64_from_le_bytes(bytes.subrange(pos + 4, pos + 12));
            let data = bytes.subrange(pos + 12, pos + 12 + len);
            let stored = spec_u32_from_le_bytes(bytes.subrange(pos + 12 + len, pos + 16 + len));
            if stored != crc32_of(data) {
                Err(DecodeError::CrcMismatch)
            } else {
                Ok((id, data, pos + 16 + len))
            }
        }
    }
}

/// Reading frames one after another from `pos`: stops cleanly where the bytes
/// run out (a torn last frame is dropped) and fails on a checksum mismatch.
pub open spec fn decode_frames_from(bytes: Seq<u8>, pos: int) -> Result<Seq<(u64, Seq<u8>)>, DecodeError>
    decreases bytes.len() - pos,
{
    if pos < 0 || pos > bytes.len() {
        Ok(Seq::empty())
    } else {
        match decode_frame_at(bytes, pos) {
            Err(DecodeError::Truncated) => Ok(Seq::empty()),
            Err(DecodeError::CrcMismatch) => Err(DecodeError::CrcMismatch),
            Ok((id, data, next)) => {
                if next <= pos {
                    Ok(Seq::empty())
                } else {
                    match decode_frames_from(bytes, next) {
                        Ok(rest) => Ok(seq![(id, data)] + rest),
                        Err(e) => Err(e),
                    }
                }
            },
        }
    }
}

/// The concatenated frames of a sequence of records, in order.
pub open spec fn frames_of(records: Seq<(u64, Seq<u8>)>) -> Seq<u8>
    decreases records.len(),
{
    if records.len() == 0 {
        Seq::empty()
    } else {
        frame_bytes(records[0].0, records[0].1) + frames_of(records.drop_first())
    }
}

/// Every payload is short enough for its length to fit the 32-bit length field.
pub open spec fn payloads_fit(records: Seq<(u64, Seq<u8>)>) -> bool {
    forall|i: int| 0 <= i < records.len() ==> #[trigger] records[i].1.len() <= u32::MAX
}

proof fn lemma_frame_len(id: u64, data: Seq<u8>)
    ensures
        frame_bytes(id, data).len() == data.len() + 16,
{
    lemma_auto_spec_u32_to_from_le_bytes();
    lemma_auto_spec_u64_to_from_le_bytes();
}

/// A whole frame decodes to what was framed, whatever bytes stand before and after it.
proof fn lemma_frame_decodes_in_context(prefix: Seq<u8>, id: u64, data: Seq<u8>, suffix: Seq<u8>)
    requires
        data.len() <= u32::MAX,
    ensures
        decode_frame_at(prefix + frame_bytes(id, data) + suffix, prefix.len() as int) == Ok::<
            (u64, Seq<u8>, int),
            DecodeError,
        >((id, data, (prefix.len() + data.len() + 16) as int)),
{
    lemma_auto_spec_u32_to_from_le_bytes();
    lemma_auto_spec_u64_to_from_le_bytes();
    let f = frame_bytes(id, data);
    let b = prefix + f + suffix;
    let p = prefix.len() as int;
    let len_bytes = spec_u32_to_le_bytes(data.len() as u32);
    let id_bytes = spec_u64_to_le_bytes(id);
    let crc_bytes = spec_u32_to_le_bytes(crc32_of(data));
    let n = data.len() as int;
    assert(f.len() == n + 16);
    assert(b.subrange(p, p + 4) =~= len_bytes);
    assert((data.len() as u32) as int == n);
    assert(b.subrange(p + 4, p + 12) =~= id_bytes);
    assert(b.subrange(p + 12, p + 12 + n) =~= data);
    assert(b.subrange(p + 12 + n, p + 16 + n) =~= crc_bytes);
}

/// A frame cut short anywhere reads as truncated.
proof fn lemma_torn_frame_is_truncated(prefix: Seq<u8>, id: u64, data: Seq<u8>, k: int)
    requires
        data.len() <= u32::MAX,
        0 <= k < data.len() + 16,
    ensures
        decode_frame_at(prefix + frame_bytes(id, data).subrange(0, k), prefix.len() as int)
            == Err::<(u64, Seq<u8>, int), DecodeError>(DecodeError::Truncated),
{
    lemma_auto_spec_u32_to_from_le_bytes();
    lemma_auto_spec_u64_to_from_le_bytes();
    let f = frame_bytes(id, data);
    let b = prefix + f.subrange(0, k);
    let p = prefix.len() as int;
    if k >= 4 {
        assert(b.subrange(p, p + 4) =~= spec_u32_to_le_bytes(data.len() as u32));
    }
}

proof fn lemma_frames_decode_from(
    prefix: Seq<u8>,
    records: Seq<(u64, Seq<u8>)>,
    tail_id: u64,
    tail_data: Seq<u8>,
    k: int,
)
    requires
        payloads_fit(records),
        tail_data.len() <= u32::MAX,
        0 <= k < tail_data.len() + 16,
    ensures
        decode_frames_from(
            prefix + frames_of(records) + frame_bytes(tail_id, tail_data).subrange(0, k),
            prefix.len() as int,
        ) == Ok::<Seq<(u64, Seq<u8>)>, DecodeError>(records),
    decreases records.len(),
{
    let tail = frame_bytes(tail_id, tail_data).subrange(0, k);
    let b = prefix + frames_of(records) + tail;
    let p = prefix.len() as int;
    if records.len() == 0 {
        assert(b =~= prefix + tail);
        lemma_torn_frame_is_truncated(prefix, tail_id, tail_data, k);
        assert(records =~= Seq::empty());
    } else {
        let (id, data) = records[0];
        assert(data.len() <= u32::MAX) by {
            assert(records[0].1.len() <= u32::MAX);
        }
        let rest = records.drop_first();
        assert(payloads_fit(rest)) by {
            assert forall|i: int| 0 <= i < rest.len() implies #[trigger] rest[i].1.len() <= u32::MAX by {
                assert(rest[i] == records[i + 1]);
            }
        }
        let f = frame_bytes(id, data);
        assert(b =~= prefix + f + (frames_of(rest) + tail));
        lemma_frame_decodes_in_context(prefix, id, data, frames_of(rest) + tail);
        lemma_frames_decode_from(prefix + f, rest, tail_id, tail_data, k);
        assert(b =~= (prefix + f) + frames_of(rest) + tail);
        lemma_frame_len(id, data);
        assert(records =~= seq![(id, data)] + rest);
    }
}

/// Law: reading back the frame of a record gives the record and the frame's length.
pub proof fn lemma_record_roundtrip(id: u64, data: Seq<u8>)
    requires
        data.len() <= u32::MAX,
    ensures
        decode_frame_at(frame_bytes(id, data), 0) == Ok::<(u64, Seq<u8>, int), DecodeError>(
            (id, data, (data.len() + 16) as int),
        ),
{
    lemma_frame_decodes_in_context(Seq::empty(), id, data, Seq::empty());
    assert(Seq::<u8>::empty() + frame_bytes(id, data) + Seq::<u8>::empty() =~= frame_bytes(id, data));
}

/// Law: a segment written as consecutive frames reads back as the same records
/// in the same order, also when the last frame was torn off anywhere by a crash
/// (`k` bytes of a further frame were written, fewer than the whole frame).
pub proof fn lemma_segment_roundtrip(
    records: Seq<(u64, Seq<u8>)>,
    tail_id: u64,
    tail_data: Seq<u8>,
    k: int,
)
    requires
        payloads_fit(records),
        tail_data.len() <= u32::MAX,
        0 <= k < tail_data.len() + 16,
    ensures
        decode_frames_from(frames_of(records) + frame_bytes(tail_id, tail_data).subrange(0, k), 0)
            == Ok::<Seq<(u64, Seq<u8>)>, DecodeError>(records),
{
    lemma_frames_decode_from(Seq::empty(), records, tail_id, tail_data, k);
    assert(Seq::<u8>::empty() + frames_of(records) + frame_bytes(tail_id, tail_data).subrange(0, k)
        =~= frames_of(records) + frame_bytes(tail_id, tail_data).subrange(0, k));
}

fn push_all(out: &mut Vec<u8>, src: &[u8])
    ensures
        final(out)@ == old(out)@ + src@,
{
    let ghost start = out@;
    let mut i: usize = 0;
    while i < src.len()
        invariant
            i <= src.len(),
            out@ == start + src@.subrange(0, i as int),
        decreases src.len() - i,
    {
        out.push(src[i]);
        i = i + 1;
        assert(out@ == start + src@.subrange(0, i as int));
    }
    assert(src@.subrange(0, src@.len() as int) == src@);
}

impl Record {
    /// The frame that stores this record in a segment file.
    pub fn encode(&self) -> (out: Vec<u8>)
        ensures
            out@ == frame_bytes(self.id, self.data@),
    {
        let len = self.data.len() as u32;
        let crc = crc32(self.data.as_slice());
        let mut buf: Vec<u8> = Vec::new();
        let len_bytes = u32_to_le_bytes(len);
        push_all(&mut buf, len_bytes.as_slice());
        let id_bytes = u64_to_le_bytes(self.id);
        push_all(&mut buf, id_bytes.as_slice());
        push_all(&mut buf, self.data.as_slice());
        let crc_bytes = u32_to_le_bytes(crc);
        push_all(&mut buf, crc_bytes.as_slice());
        buf
    }

    /// Number of bytes `encode` produces.
    pub fn encoded_size(&self) -> (n: usize)
        requires
            self.data@.len() + 16 <= usize::MAX,
        ensures
            n == self.data@.len() + 16,
    {
        4 + 8 + self.data.len() + 4
    }

    /// Reads the frame that starts at `pos`; on success also returns the
    /// position just past it.
    pub fn decode_at(bytes: &[u8], pos: usize) -> (r: Result<(Record, usize), DecodeError>)
        requires
            pos <= bytes@.len(),
        ensures
            match (r, decode_frame_at(bytes@, pos as int)) {
                (Ok((rec, next)), Ok((id, data, n))) => rec@ == (id, data) && next == n,
                (Err(e1), Err(e2)) => e1 == e2,
                _ => false,
            },
    {
        let remaining = bytes.len() - pos;
        if remaining < 4 {
            return Err(DecodeError::Truncated);
        }
        let len32 = u32_from_le_bytes(slice_subrange(bytes, pos, pos + 4));
        if (len32 as u64) + 16 > (remaining as u64) {
            return Err(DecodeError::Truncated);
        }
        let len = len32 as usize;
        let id = u64_from_le_bytes(slice_subrange(bytes, pos + 4, pos + 12));
        let data_slice = slice_subrange(bytes, pos + 12, pos + 12 + len);
        let mut data: Vec<u8> = Vec::new();
        push_all(&mut data, data_slice);
        let stored = u32_from_le_bytes(slice_subrange(bytes, pos + 12 + len, pos + 16 + len));
        let actual = crc32(data.as_slice());
        if stored != actual {
            return Err(DecodeError::CrcMismatch);
        }
        assert(data@ == bytes@.subrange(pos + 12, pos + 12 + len));
        Ok((Record { id, data }, pos + 16 + len))
    }

    /// Reads the frame at the start of `bytes`.
    pub fn decode(bytes: &[u8]) -> (r: Result<(Record, usize), DecodeError>)
        ensures
            match (r, decode_frame_at(bytes@, 0)) {
                (Ok((rec, next)), Ok((id, data, n))) => rec@ == (id, data) && next == n,
                (Err(e1), Err(e2)) => e1 == e2,
                _ => false,
            },
    {
        Record::decode_at(bytes, 0)
    }
}


/// The (id, payload) pairs of a list of records.
pub open spec fn record_views(records: Seq<Record>) -> Seq<(u64, Seq<u8>)> {
    records.map_values(|r: Record| r@)
}

/// Reads every record of a segment's bytes in order. Reading stops cleanly
/// where the bytes end, so a frame torn by a crash is dropped; a checksum
/// mismatch fails the whole read.
pub fn decode_segment(bytes: &[u8]) -> (r: Result<Vec<Record>, DecodeError>)
    ensures
        match (r, decode_frames_from(bytes@, 0)) {
            (Ok(v), Ok(s)) => record_views(v@) == s,
            (Err(e1), Err(e2)) => e1 == e2,
            _ => false,
        },
{
    let mut out: Vec<Record> = Vec::new();
    let mut pos: usize = 0;
    while pos <= bytes.len()
        invariant
            pos <= bytes@.len(),
            match decode_frames_from(bytes@, pos as int) {
                Ok(rest) => decode_frames_from(bytes@, 0) == Ok::<Seq<(u64, Seq<u8>)>, DecodeError>(
                    record_views(out@) + rest,
                ),
                Err(e) => decode_frames_from(bytes@, 0) == Err::<Seq<(u64, Seq<u8>)>, DecodeError>(e),
            },
        decreases bytes@.len() + 1 - pos,
    {
        match Record::decode_at(bytes, pos) {
            Ok((rec, next)) => {
                let ghost before = record_views(out@);
                let ghost rv = rec@;
                out.push(rec);
                proof {
                    assert(record_views(out@) =~= before.push(rv));
                    match decode_frames_from(bytes@, next as int) {
                        Ok(rest) => {
                            assert(before + (seq![rv] + rest) =~= before.push(rv) + rest);
                        },
                        Err(e) => {},
                    }
                }
                pos = next;
            },
            Err(DecodeError::Truncated) => {
                proof {
                    assert(record_views(out@) + Seq::<(u64, Seq<u8>)>::empty() =~= record_views(out@));
                }
                return Ok(out);
            },
            Err(DecodeError::CrcMismatch) => {
                return Err(DecodeError::CrcMismatch);
            },
        }
    }
    proof {
        assert(record_views(out@) + Seq::<(u64, Seq<u8>)>::empty() =~= record_views(out@));
    }
    Ok(out)
}

} // verus!
