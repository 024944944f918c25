//! Facts about whole transcoding runs.
use vstd::prelude::*;
use crate::bytes::{be_bytes, be_value, lemma_be_round_trip};
use crate::chunk::{
    chunk_bytes, is_text, relay, signature, terminal_type, transcode_spec, ReportView,
    TranscodeError,
};
use crate::crc::crc32;

verus! {

/// The relay walk never reports a signature error.
proof fn lemma_relay_not_bad_signature(s: Seq<u8>, pos: int, acc: Seq<ReportView>)
    ensures
        relay(s, pos, acc) != Err::<(Seq<ReportView>, int), TranscodeError>(
            TranscodeError::BadSignature,
        ),
    decreases s.len() - pos,
{
    if pos >= 0 && s.len() - pos >= 8 {
        let len = be_value(s.subrange(pos, pos + 4));
        let ty = s.subrange(pos + 4, pos + 8);
        let end = pos + 12 + len;
        if is_text(ty) && end <= s.len() && ty != terminal_type() {
            let rep = (len, ty, be_value(s.subrange(end - 4, end)));
            lemma_relay_not_bad_signature(s, end, acc.push(rep));
        }
    }
}

/// An input that opens with the signature never fails with `BadSignature`,
/// and the output of a successful run opens with the signature; an input of
/// eight bytes or more that differs from the signature in any of its first
/// eight bytes fails with `BadSignature`.
pub proof fn lemma_signature_gate(s: Seq<u8>, t: Seq<u8>, d: Seq<u8>)
    ensures
        s.len() >= 8 && s.take(8) == signature() ==> {
            &&& transcode_spec(s, t, d) != Err::<(Seq<u8>, Seq<ReportView>), TranscodeError>(
                TranscodeError::BadSignature,
            )
            &&& transcode_spec(s, t, d) is Ok ==> transcode_spec(s, t, d)->Ok_0.0.take(8)
                == signature()
        },
        s.len() >= 8 && (exists|i: int| 0 <= i < 8 && s[i] != #[trigger] signature()[i])
            ==> transcode_spec(s, t, d) == Err::<(Seq<u8>, Seq<ReportView>), TranscodeError>(
            TranscodeError::BadSignature,
        ),
{
    lemma_relay_not_bad_signature(s, 8, seq![]);
    if s.len() >= 8 && s.take(8) == signature() && d.len() <= u32::MAX {
        if let Ok((reps, end)) = relay(s, 8, seq![]) {
            let out = signature() + chunk_bytes(t, d) + s.subrange(8, end);
            assert(out.take(8) =~= signature());
        }
    }
    if s.len() >= 8 && (exists|i: int| 0 <= i < 8 && s[i] != #[trigger] signature()[i]) {
        let i = choose|i: int| 0 <= i < 8 && s[i] != #[trigger] signature()[i];
        assert(s.take(8)[i] != signature()[i]);
    }
}

/// A stream whose only chunk is a terminal chunk is relayed as it is: the
/// output is the signature, the injected chunk, then that chunk byte for
/// byte, and the one report describes it.
pub proof fn lemma_terminal_only_stream(
    t: Seq<u8>,
    d: Seq<u8>,
    payload: Seq<u8>,
    crc_field: Seq<u8>,
)
    requires
        d.len() <= u32::MAX,
        payload.len() <= u32::MAX,
        crc_field.len() == 4,
    ensures
        ({
            let iend = be_bytes(payload.len() as u32) + terminal_type() + payload + crc_field;
            transcode_spec(signature() + iend, t, d) == Ok::<
                (Seq<u8>, Seq<ReportView>),
                TranscodeError,
            >(
                (
                    signature() + chunk_bytes(t, d) + iend,
                    seq![(payload.len(), terminal_type(), be_value(crc_field))],
                ),
            )
        }),
{
    let l = payload.len() as u32;
    let iend = be_bytes(l) + terminal_type() + payload + crc_field;
    let s = signature() + iend;
    lemma_be_round_trip(l);
    assert(s.take(8) =~= signature());
    assert(s.subrange(8, 12) =~= be_bytes(l));
    assert(s.subrange(12, 16) =~= terminal_type());
    let end: int = 20 + payload.len() as int;
    assert(end == s.len());
    assert(s.subrange(end - 4, end) =~= crc_field);
    assert(s.subrange(8, end) =~= iend);
    assert(is_text(terminal_type()));
    let rep = (payload.len(), terminal_type(), be_value(crc_field));
    assert(relay(s, 8, seq![]) == Ok::<(Seq<ReportView>, int), TranscodeError>(
        (seq![].push(rep), end),
    ));
    assert(seq![].push(rep) =~= seq![rep]);
}

/// The synthesised chunk is well formed: its length field is the payload's
/// length, then come the type and the payload, and its checksum field is
/// the CRC-32 of type and payload.
pub proof fn lemma_injected_chunk_well_formed(t: Seq<u8>, d: Seq<u8>)
    requires
        t.len() == 4,
        d.len() <= u32::MAX,
    ensures
        ({
            let c = chunk_bytes(t, d);
            &&& c.len() == 12 + d.len()
            &&& be_value(c.take(4)) == d.len()
            &&& c.subrange(4, 8) == t
            &&& c.subrange(8, 8 + d.len() as int) == d
            &&& be_value(c.subrange(c.len() - 4, c.len() as int)) == crc32(t + d)
        }),
{
    let c = chunk_bytes(t, d);
    lemma_be_round_trip(d.len() as u32);
    lemma_be_round_trip(crc32(t + d));
    assert(c.take(4) =~= be_bytes(d.len() as u32));
    assert(c.subrange(4, 8) =~= t);
    assert(c.subrange(8, 8 + d.len() as int) =~= d);
    assert(c.subrange(c.len() - 4, c.len() as int) =~= be_bytes(crc32(t + d)));
}

/// A chunk with an empty payload is twelve bytes long, with a zero length
/// field and the checksum of its type alone.
pub proof fn lemma_empty_payload_chunk(t: Seq<u8>)
    requires
        t.len() == 4,
    ensures
        ({
            let c = chunk_bytes(t, Seq::<u8>::empty());
            &&& c.len() == 12
            &&& c.take(4) == seq![0u8, 0u8, 0u8, 0u8]
            &&& c.subrange(4, 8) == t
            &&& c.subrange(8, 12) == be_bytes(crc32(t))
        }),
{
    let e = Seq::<u8>::empty();
    let c = chunk_bytes(t, e);
    assert(t + e =~= t);
    assert(c.take(4) =~= seq![0u8, 0u8, 0u8, 0u8]);
    assert(c.subrange(4, 8) =~= t);
    assert(c.subrange(8, 12) =~= be_bytes(crc32(t)));
}

/// An input whose first chunk stops one byte short of its declared payload
/// fails with `TruncatedInput`.
pub proof fn lemma_short_payload_truncated(
    t: Seq<u8>,
    d: Seq<u8>,
    length: u32,
    ty: Seq<u8>,
    payload: Seq<u8>,
)
    requires
        d.len() <= u32::MAX,
        length >= 1,
        ty.len() == 4,
        is_text(ty),
        payload.len() == length - 1,
    ensures
        transcode_spec(signature() + be_bytes(length) + ty + payload, t, d) == Err::<
            (Seq<u8>, Seq<ReportView>),
            TranscodeError,
        >(TranscodeError::TruncatedInput),
{
    let s = signature() + be_bytes(length) + ty + payload;
    lemma_be_round_trip(length);
    assert(s.take(8) =~= signature());
    assert(s.subrange(8, 12) =~= be_bytes(length));
    assert(s.subrange(12, 16) =~= ty);
}

} // verus!
