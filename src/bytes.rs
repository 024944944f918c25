//! Big-endian integer encoding and byte-order helpers.
use vstd::prelude::*;

verus! {

/// The value of a big-endian byte string.
pub open spec fn be_value(s: Seq<u8>) -> nat
    decreases s.len(),
{
    if s.len() == 0 {
        0
    } else {
        be_value(s.drop_last()) * 256 + s.last() as nat
    }
}

/// The four big-endian bytes of `v`.
pub open spec fn be_bytes(v: u32) -> Seq<u8> {
    seq![
        (v / 0x100_0000) as u8,
        (v / 0x1_0000 % 0x100) as u8,
        (v / 0x100 % 0x100) as u8,
        (v % 0x100) as u8,
    ]
}

/// Decoding the big-endian bytes of `v` gives `v` back.
pub proof fn lemma_be_round_trip(v: u32)
    ensures
        be_value(be_bytes(v)) == v,
        be_bytes(v).len() == 4,
{
    let s = be_bytes(v);
    let a = v / 0x100_0000;
    let b = v / 0x1_0000 % 0x100;
    let c = v / 0x100 % 0x100;
    let d = v % 0x100;
    assert(s.drop_last().drop_last().drop_last().drop_last() =~= Seq::<u8>::empty());
    assert(s.drop_last().drop_last().drop_last() =~= seq![a as u8]);
    assert(s.drop_last().drop_last() =~= seq![a as u8, b as u8]);
    assert(s.drop_last() =~= seq![a as u8, b as u8, c as u8]);
    assert(be_value(s) == ((a * 256 + b) * 256 + c) * 256 + d) by {
        reveal_with_fuel(be_value, 5);
    }
    assert(((a * 256 + b) * 256 + c) * 256 + d == v) by (nonlinear_arith)
        requires
            a == v / 0x100_0000,
            b == v / 0x1_0000 % 0x100,
            c == v / 0x100 % 0x100,
            d == v % 0x100,
            v <= 0xffff_ffff,
    ;
}

/// A big-endian string of at most four bytes has a value below `256^len`.
proof fn lemma_be_value_bound(s: Seq<u8>)
    requires
        s.len() <= 4,
    ensures
        s.len() <= 1 ==> be_value(s) < 0x100,
        s.len() <= 2 ==> be_value(s) < 0x1_0000,
        s.len() <= 3 ==> be_value(s) < 0x100_0000,
        be_value(s) < 0x1_0000_0000,
    decreases s.len(),
{
    if s.len() > 0 {
        lemma_be_value_bound(s.drop_last());
    }
}

/// Reads a big-endian unsigned integer of up to four bytes.
pub fn convert_u8_2_u32(bytes: Vec<u8>) -> (r: u32)
    requires
        bytes@.len() <= 4,
    ensures
        r as nat == be_value(bytes@),
{
    let mut ret: u32 = 0;
    let len: usize = bytes.len();
    let mut i: usize = 0;
    while i < len
        invariant
            len == bytes@.len(),
            len <= 4,
            i <= len,
            ret as nat == be_value(bytes@.take(i as int)),
        decreases len - i,
    {
        proof {
            lemma_be_value_bound(bytes@.take(i as int));
            assert(bytes@.take(i as int + 1).drop_last() =~= bytes@.take(i as int));
        }
        ret = ret * 256 + bytes[i] as u32;
        i = i + 1;
    }
    assert(bytes@.take(len as int) =~= bytes@);
    ret
}

/// Writes `size` as four big-endian bytes.
pub fn convert_u32_2_u8(size: u32) -> (r: Vec<u8>)
    ensures
        r@ == be_bytes(size),
        be_value(r@) == size,
{
    let mut ret: Vec<u8> = Vec::new();
    ret.push((size / 0x100_0000) as u8);
    ret.push((size / 0x1_0000 % 0x100) as u8);
    ret.push((size / 0x100 % 0x100) as u8);
    ret.push((size % 0x100) as u8);
    proof {
        assert(ret@ =~= be_bytes(size));
        lemma_be_round_trip(size);
    }
    ret
}

/// Reverses the order of `bytes` in place.
pub fn reverse_bytes(bytes: &mut Vec<u8>)
    ensures
        final(bytes)@ == old(bytes)@.reverse(),
{
    let len: usize = bytes.len();
    let mut i: usize = 0;
    while i < len / 2
        invariant
            len == old(bytes)@.len(),
            len == bytes@.len(),
            i <= len / 2,
            forall|k: int| 0 <= k < i ==> #[trigger] bytes@[k] == old(bytes)@[len - 1 - k],
            forall|k: int| 0 <= k < i ==> #[trigger] bytes@[len - 1 - k] == old(bytes)@[k],
            forall|k: int| i <= k < len - i ==> bytes@[k] == old(bytes)@[k],
        decreases len / 2 - i,
    {
        let t = bytes[i];
        let u = bytes[len - i - 1];
        bytes.set(i, u);
        bytes.set(len - i - 1, t);
        i = i + 1;
    }
    assert forall|k: int| 0 <= k < len implies bytes@[k] == old(bytes)@[len - 1 - k] by {
        if k >= len - i {
            let j = len - 1 - k;
            assert(bytes@[len - 1 - j] == old(bytes)@[j]);
        }
    }
    assert(bytes@ =~= old(bytes)@.reverse());
}

} // verus!
