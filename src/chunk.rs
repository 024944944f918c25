//! The chunk stream transcoder: signature check, chunk injection and relay
//! of the input's chunks up to and including the terminal chunk.
use vstd::prelude::*;
use vstd::slice::slice_subrange;
use core::cmp::Ordering;
use crate::bytes::{be_bytes, be_value, convert_u32_2_u8, convert_u8_2_u32, lemma_be_round_trip};
use crate::crc::{checksum, crc32};

verus! {

/// The fixed eight bytes that open every container.
pub const PNG_SIG: [u8; 8] = [137, 80, 78, 71, 13, 10, 26, 10];

/// The signature as a sequence.
pub open spec fn signature() -> Seq<u8> {
    seq![137u8, 80u8, 78u8, 71u8, 13u8, 10u8, 26u8, 10u8]
}

/// The type tag of the terminal chunk, `IEND`.
pub open spec fn terminal_type() -> Seq<u8> {
    seq![73u8, 69u8, 78u8, 68u8]
}

/// Every byte is in the ASCII range.
pub open spec fn is_text(t: Seq<u8>) -> bool {
    forall|i: int| 0 <= i < t.len() ==> #[trigger] t[i] < 128
}

/// `a` sorts strictly before `b` in lexicographic byte order.
pub open spec fn lex_less(a: Seq<u8>, b: Seq<u8>) -> bool {
    exists|i: int|
        0 <= i <= a.len() && i <= b.len() && #[trigger] a.take(i) == b.take(i) && ((i < a.len()
            && i < b.len() && a[i] < b[i]) || (i == a.len() && i < b.len()))
}

/// Relies on memx::memcmp, which orders two byte slices as `a.cmp(&b)` does.
pub assume_specification[ memx::memcmp ](a: &[u8], b: &[u8]) -> (r: Ordering)
    ensures
        (r == Ordering::Equal) == (a@ == b@),
        (r == Ordering::Less) == lex_less(a@, b@),
        (r == Ordering::Greater) == lex_less(b@, a@),
;

/// Why a transcoding run fails.
#[derive(Clone, Copy, Debug, PartialEq, Eq, Structural)]
pub enum TranscodeError {
    /// The input ends inside the signature or inside a chunk.
    TruncatedInput,
    /// The first eight bytes are not the signature.
    BadSignature,
    /// A relayed chunk's type tag holds a byte outside the ASCII range.
    InvalidChunkType,
    /// The injected payload does not fit the 32-bit length field.
    PayloadTooLarge,
}

/// What is reported of one relayed chunk.
#[derive(Clone, Copy, Debug, PartialEq, Eq)]
pub struct ChunkReport {
    pub length: u32,
    pub chunk_type: [u8; 4],
    /// The checksum field read big-endian.
    pub checksum: u32,
}

/// A report as plain values: length, type tag, checksum.
pub type ReportView = (nat, Seq<u8>, nat);

impl ChunkReport {
    pub open spec fn view(self) -> ReportView {
        (self.length as nat, self.chunk_type@, self.checksum as nat)
    }
}

pub open spec fn reports_view(s: Seq<ChunkReport>) -> Seq<ReportView> {
    s.map_values(|r: ChunkReport| r.view())
}

/// The result of a successful run.
#[derive(Clone, Debug, PartialEq, Eq)]
pub struct Transcoded {
    /// The complete output container.
    pub output: Vec<u8>,
    /// One report per relayed chunk, in stream order.
    pub reports: Vec<ChunkReport>,
}

/// The bytes of a well-formed chunk with type `t` and payload `d`.
pub open spec fn chunk_bytes(t: Seq<u8>, d: Seq<u8>) -> Seq<u8> {
    be_bytes(d.len() as u32) + t + d + be_bytes(crc32(t + d))
}

/// Walks the chunks from `pos`, adding one report per chunk to `acc`, until
/// the terminal chunk; gives the reports and the end of the terminal chunk.
pub open spec fn relay(s: Seq<u8>, pos: int, acc: Seq<ReportView>) -> Result<
    (Seq<ReportView>, int),
    TranscodeError,
>
    decreases s.len() - pos,
{
    if pos < 0 || s.len() - pos < 8 {
        Err(TranscodeError::TruncatedInput)
    } else {
        let len = be_value(s.subrange(pos, pos + 4));
        let ty = s.subrange(pos + 4, pos + 8);
        let end = pos + 12 + len;
        if !is_text(ty) {
            Err(TranscodeError::InvalidChunkType)
        } else if end > s.len() {
            Err(TranscodeError::TruncatedInput)
        } else {
            let rep = (len, ty, be_value(s.subrange(end - 4, end)));
            if ty == terminal_type() {
                Ok((acc.push(rep), end))
            } else {
                relay(s, end, acc.push(rep))
            }
        }
    }
}

/// The whole run on input `s`, injected type `t` and injected payload `d`:
/// the output container and the reports, or the error.
pub open spec fn transcode_spec(s: Seq<u8>, t: Seq<u8>, d: Seq<u8>) -> Result<
    (Seq<u8>, Seq<ReportView>),
    TranscodeError,
> {
    if s.len() < 8 {
        Err(TranscodeError::TruncatedInput)
    } else if s.take(8) != signature() {
        Err(TranscodeError::BadSignature)
    } else if d.len() > u32::MAX {
        Err(TranscodeError::PayloadTooLarge)
    } else {
        match relay(s, 8, seq![]) {
            Err(e) => Err(e),
            Ok((reps, end)) => Ok((signature() + chunk_bytes(t, d) + s.subrange(8, end), reps)),
        }
    }
}

pub open spec fn transcoded_view(r: Result<Transcoded, TranscodeError>) -> Result<
    (Seq<u8>, Seq<ReportView>),
    TranscodeError,
> {
    match r {
        Ok(x) => Ok((x.output@, reports_view(x.reports@))),
        Err(e) => Err(e),
    }
}

/// Appends `src[from..to]` to `out`.
fn append_range(out: &mut Vec<u8>, src: &[u8], from: usize, to: usize)
    requires
        from <= to <= src@.len(),
    ensures
        final(out)@ == old(out)@ + src@.subrange(from as int, to as int),
{
    let mut i: usize = from;
    while i < to
        invariant
            from <= i <= to <= src@.len(),
            out@ == old(out)@ + src@.subrange(from as int, i as int),
        decreases to - i,
    {
        out.push(src[i]);
        assert(src@.subrange(from as int, i + 1) =~= src@.subrange(from as int, i as int).push(
            src@[i as int],
        ));
        i = i + 1;
    }
}

/// Builds the chunk with type `chunk_type` and payload `data`, with its
/// length field and its checksum over type and payload.
pub fn build_chunk(chunk_type: [u8; 4], data: &[u8]) -> (r: Result<Vec<u8>, TranscodeError>)
    ensures
        match r {
            Ok(v) => data@.len() <= u32::MAX && v@ == chunk_bytes(chunk_type@, data@),
            Err(e) => data@.len() > u32::MAX && e == TranscodeError::PayloadTooLarge,
        },
{
    if data.len() as u64 > 0xFFFF_FFFFu64 {
        return Err(TranscodeError::PayloadTooLarge);
    }
    let mut body: Vec<u8> = Vec::new();
    append_range(&mut body, chunk_type.as_slice(), 0, 4);
    append_range(&mut body, data, 0, data.len());
    assert(body@ =~= chunk_type@ + data@);
    let crc: u32 = checksum(body.as_slice());
    let mut out: Vec<u8> = convert_u32_2_u8(data.len() as u32);
    append_range(&mut out, body.as_slice(), 0, body.len());
    let crc_bytes: Vec<u8> = convert_u32_2_u8(crc);
    append_range(&mut out, crc_bytes.as_slice(), 0, 4);
    assert(out@ =~= chunk_bytes(chunk_type@, data@));
    Ok(out)
}

/// Reads the four bytes at `at` as a big-endian integer.
fn read_be_u32(s: &[u8], at: usize) -> (r: u32)
    requires
        at + 4 <= s@.len(),
    ensures
        r as nat == be_value(s@.subrange(at as int, at + 4)),
{
    let n: usize = s.len();
    let mut field: Vec<u8> = Vec::new();
    append_range(&mut field, s, at, at + 4);
    assert(field@ =~= s@.subrange(at as int, at + 4));
    convert_u8_2_u32(field)
}

/// Checks the signature of `input`, writes it and the chunk built from
/// `chunk_type` and `data` to a new container, then relays the input's chunks
/// unchanged up to and including the first `IEND` chunk, reporting each.
pub fn transcode(input: &[u8], chunk_type: [u8; 4], data: &[u8]) -> (r: Result<
    Transcoded,
    TranscodeError,
>)
    ensures
        transcoded_view(r) == transcode_spec(input@, chunk_type@, data@),
{
    if input.len() < 8 {
        return Err(TranscodeError::TruncatedInput);
    }
    let sig: [u8; 8] = PNG_SIG;
    assert(sig@ =~= signature());
    let head: &[u8] = slice_subrange(input, 0, 8);
    assert(head@ =~= input@.take(8));
    match memx::memcmp(sig.as_slice(), head) {
        Ordering::Equal => {},
        _ => {
            return Err(TranscodeError::BadSignature);
        },
    }
    let injected: Vec<u8> = match build_chunk(chunk_type, data) {
        Ok(v) => v,
        Err(e) => {
            return Err(e);
        },
    };
    let mut out: Vec<u8> = Vec::new();
    append_range(&mut out, sig.as_slice(), 0, 8);
    append_range(&mut out, injected.as_slice(), 0, injected.len());
    let mut reports: Vec<ChunkReport> = Vec::new();
    let mut pos: usize = 8;
    assert(out@ =~= signature() + chunk_bytes(chunk_type@, data@) + input@.subrange(8, 8));
    assert(reports_view(reports@) =~= Seq::<ReportView>::empty());
    loop
        invariant
            8 <= pos <= input@.len(),
            input@.take(8) == signature(),
            data@.len() <= u32::MAX,
            relay(input@, 8, seq![]) == relay(input@, pos as int, reports_view(reports@)),
            out@ == signature() + chunk_bytes(chunk_type@, data@) + input@.subrange(
                8,
                pos as int,
            ),
        decreases input@.len() - pos,
    {
        if input.len() - pos < 8 {
            return Err(TranscodeError::TruncatedInput);
        }
        let length: u32 = read_be_u32(input, pos);
        let ty: [u8; 4] = [input[pos + 4], input[pos + 5], input[pos + 6], input[pos + 7]];
        assert(ty@ =~= input@.subrange(pos + 4, pos + 8));
        if !(ty[0] < 128 && ty[1] < 128 && ty[2] < 128 && ty[3] < 128) {
            assert(!is_text(ty@));
            return Err(TranscodeError::InvalidChunkType);
        }
        let rest: usize = input.len() - pos - 8;
        if length as usize > rest || rest - (length as usize) < 4 {
            return Err(TranscodeError::TruncatedInput);
        }
        let end: usize = pos + 12 + length as usize;
        let crc: u32 = read_be_u32(input, end - 4);
        append_range(&mut out, input, pos, end);
        let report = ChunkReport { length, chunk_type: ty, checksum: crc };
        proof {
            assert(reports_view(reports@.push(report)) =~= reports_view(reports@).push(
                report.view(),
            ));
        }
        reports.push(report);
        assert(out@ =~= signature() + chunk_bytes(chunk_type@, data@) + input@.subrange(
            8,
            end as int,
        ));
        if ty[0] == 73 && ty[1] == 69 && ty[2] == 78 && ty[3] == 68 {
            assert(ty@ =~= terminal_type());
            return Ok(Transcoded { output: out, reports });
        }
        assert(ty@ != terminal_type()) by {
            if ty@ == terminal_type() {
                assert(ty@[0] == 73 && ty@[1] == 69 && ty@[2] == 78 && ty@[3] == 68);
            }
        }
        pos = end;
    }
}

} // verus!
