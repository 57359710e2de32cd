use vstd::prelude::*;
use crate::mesh::IndexFormat;

verus! {

/// The two bytes of `x`, least significant first.
pub open spec fn u16_le(x: u16) -> Seq<u8> {
    seq![(x & 0xff) as u8, ((x >> 8) & 0xff) as u8]
}

/// The four bytes of `x`, least significant first.
pub open spec fn u32_le(x: u32) -> Seq<u8> {
    seq![(x & 0xff) as u8, ((x >> 8) & 0xff) as u8, ((x >> 16) & 0xff) as u8, ((x >> 24) & 0xff) as u8]
}

/// The value of two bytes, least significant first.
pub open spec fn u16_of_le(b: Seq<u8>) -> u16 {
    ((b[0] as u16) | ((b[1] as u16) << 8u16)) as u16
}

/// The value of four bytes, least significant first.
pub open spec fn u32_of_le(b: Seq<u8>) -> u32 {
    ((b[0] as u32) | ((b[1] as u32) << 8u32) | ((b[2] as u32) << 16u32) | ((b[3] as u32)
        << 24u32)) as u32
}

/// The bytes of a sequence of 16-bit values, one value after the other.
pub open spec fn u16_seq_bytes(v: Seq<u16>) -> Seq<u8>
    decreases v.len(),
{
    if v.len() == 0 {
        Seq::empty()
    } else {
        u16_seq_bytes(v.drop_last()) + u16_le(v.last())
    }
}

/// The bytes of a sequence of 32-bit values, one value after the other.
pub open spec fn u32_seq_bytes(v: Seq<u32>) -> Seq<u8>
    decreases v.len(),
{
    if v.len() == 0 {
        Seq::empty()
    } else {
        u32_seq_bytes(v.drop_last()) + u32_le(v.last())
    }
}

/// The 16-bit values that whole pairs of `b` hold.
pub open spec fn u16_seq_of_bytes(b: Seq<u8>) -> Seq<u16>
    decreases b.len(),
{
    if b.len() < 2 {
        Seq::empty()
    } else {
        u16_seq_of_bytes(b.subrange(0, b.len() - 2)).push(
            u16_of_le(b.subrange(b.len() - 2, b.len() as int)),
        )
    }
}

/// The 32-bit values that whole groups of four bytes of `b` hold.
pub open spec fn u32_seq_of_bytes(b: Seq<u8>) -> Seq<u32>
    decreases b.len(),
{
    if b.len() < 4 {
        Seq::empty()
    } else {
        u32_seq_of_bytes(b.subrange(0, b.len() - 4)).push(
            u32_of_le(b.subrange(b.len() - 4, b.len() as int)),
        )
    }
}

proof fn lemma_u16_le_round_trip(x: u16)
    ensures
        u16_of_le(u16_le(x)) == x,
{
    let b0 = (x & 0xff) as u8;
    let b1 = ((x >> 8) & 0xff) as u8;
    assert(((b0 as u16) | ((b1 as u16) << 8u16)) == x) by (bit_vector)
        requires
            b0 == (x & 0xff) as u8,
            b1 == ((x >> 8) & 0xff) as u8,
    ;
}

proof fn lemma_u32_le_round_trip(x: u32)
    ensures
        u32_of_le(u32_le(x)) == x,
{
    let b0 = (x & 0xff) as u8;
    let b1 = ((x >> 8) & 0xff) as u8;
    let b2 = ((x >> 16) & 0xff) as u8;
    let b3 = ((x >> 24) & 0xff) as u8;
    assert(((b0 as u32) | ((b1 as u32) << 8u32) | ((b2 as u32) << 16u32) | ((b3 as u32) << 24u32))
        == x) by (bit_vector)
        requires
            b0 == (x & 0xff) as u8,
            b1 == ((x >> 8) & 0xff) as u8,
            b2 == ((x >> 16) & 0xff) as u8,
            b3 == ((x >> 24) & 0xff) as u8,
    ;
}

/// Encoding 16-bit values and reading the bytes back gives the values again.
pub proof fn lemma_u16_round_trip(values: Seq<u16>)
    ensures
        u16_seq_bytes(values).len() == 2 * values.len(),
        u16_seq_of_bytes(u16_seq_bytes(values)) == values,
    decreases values.len(),
{
    if values.len() > 0 {
        let init = values.drop_last();
        lemma_u16_round_trip(init);
        lemma_u16_le_round_trip(values.last());
        let b = u16_seq_bytes(values);
        assert(b.subrange(0, b.len() - 2) =~= u16_seq_bytes(init));
        assert(b.subrange(b.len() - 2, b.len() as int) =~= u16_le(values.last()));
        assert(u16_seq_of_bytes(b) =~= values);
    } else {
        assert(u16_seq_of_bytes(u16_seq_bytes(values)) =~= values);
    }
}

/// Encoding 32-bit values and reading the bytes back gives the values again.
pub proof fn lemma_u32_round_trip(values: Seq<u32>)
    ensures
        u32_seq_bytes(values).len() == 4 * values.len(),
        u32_seq_of_bytes(u32_seq_bytes(values)) == values,
    decreases values.len(),
{
    if values.len() > 0 {
        let init = values.drop_last();
        lemma_u32_round_trip(init);
        lemma_u32_le_round_trip(values.last());
        let b = u32_seq_bytes(values);
        assert(b.subrange(0, b.len() - 4) =~= u32_seq_bytes(init));
        assert(b.subrange(b.len() - 4, b.len() as int) =~= u32_le(values.last()));
        assert(u32_seq_of_bytes(b) =~= values);
    } else {
        assert(u32_seq_of_bytes(u32_seq_bytes(values)) =~= values);
    }
}

impl IndexFormat {
    /// The bytes of 16-bit indices, each least significant byte first, with
    /// nothing between them.
    pub fn encode_u16(values: &[u16]) -> (r: Vec<u8>)
        ensures
            r@ == u16_seq_bytes(values@),
            r@.len() == 2 * values@.len(),
    {
        let mut out: Vec<u8> = Vec::new();
        let mut i: usize = 0;
        while i < values.len()
            invariant
                i <= values@.len(),
                out@ == u16_seq_bytes(values@.subrange(0, i as int)),
            decreases values.len() - i,
        {
            let x = values[i];
            out.push((x & 0xff) as u8);
            out.push(((x >> 8) & 0xff) as u8);
            proof {
                let s = values@.subrange(0, i + 1);
                assert(s.drop_last() =~= values@.subrange(0, i as int));
                assert(out@ =~= u16_seq_bytes(s));
            }
            i += 1;
        }
        proof {
            assert(values@.subrange(0, i as int) =~= values@);
            lemma_u16_round_trip(values@);
        }
        out
    }

    /// The bytes of 32-bit indices, each least significant byte first, with
    /// nothing between them.
    pub fn encode_u32(values: &[u32]) -> (r: Vec<u8>)
        ensures
            r@ == u32_seq_bytes(values@),
            r@.len() == 4 * values@.len(),
    {
        let mut out: Vec<u8> = Vec::new();
        let mut i: usize = 0;
        while i < values.len()
            invariant
                i <= values@.len(),
                out@ == u32_seq_bytes(values@.subrange(0, i as int)),
            decreases values.len() - i,
        {
            let x = values[i];
            out.push((x & 0xff) as u8);
            out.push(((x >> 8) & 0xff) as u8);
            out.push(((x >> 16) & 0xff) as u8);
            out.push(((x >> 24) & 0xff) as u8);
            proof {
                let s = values@.subrange(0, i + 1);
                assert(s.drop_last() =~= values@.subrange(0, i as int));
                assert(out@ =~= u32_seq_bytes(s));
            }
            i += 1;
        }
        proof {
            assert(values@.subrange(0, i as int) =~= values@);
            lemma_u32_round_trip(values@);
        }
        out
    }

    /// Reads 16-bit indices back from their bytes; `None` where the bytes do
    /// not divide into whole indices.
    pub fn decode_u16(bytes: &[u8]) -> (r: Option<Vec<u16>>)
        ensures
            r is Some <==> bytes@.len() % 2 == 0,
            r matches Some(v) ==> v@ == u16_seq_of_bytes(bytes@),
    {
        if bytes.len() % 2 != 0 {
            return None;
        }
        let mut out: Vec<u16> = Vec::new();
        let mut i: usize = 0;
        while i < bytes.len()
            invariant
                bytes@.len() % 2 == 0,
                i % 2 == 0,
                i <= bytes@.len(),
                out@ == u16_seq_of_bytes(bytes@.subrange(0, i as int)),
            decreases bytes.len() - i,
        {
            let b0 = bytes[i];
            let b1 = bytes[i + 1];
            let x: u16 = (b0 as u16) | ((b1 as u16) << 8u16);
            out.push(x);
            proof {
                let s = bytes@.subrange(0, i + 2);
                assert(s.subrange(0, s.len() - 2) =~= bytes@.subrange(0, i as int));
                assert(s.subrange(s.len() - 2, s.len() as int) =~= seq![b0, b1]);
                assert(out@ =~= u16_seq_of_bytes(s));
            }
            i += 2;
        }
        proof {
            assert(bytes@.subrange(0, i as int) =~= bytes@);
        }
        Some(out)
    }

    /// Reads 32-bit indices back from their bytes; `None` where the bytes do
    /// not divide into whole indices.
    pub fn decode_u32(bytes: &[u8]) -> (r: Option<Vec<u32>>)
        ensures
            r is Some <==> bytes@.len() % 4 == 0,
            r matches Some(v) ==> v@ == u32_seq_of_bytes(bytes@),
    {
        if bytes.len() % 4 != 0 {
            return None;
        }
        let mut out: Vec<u32> = Vec::new();
        let mut i: usize = 0;
        while i < bytes.len()
            invariant
                bytes@.len() % 4 == 0,
                i % 4 == 0,
                i <= bytes@.len(),
                out@ == u32_seq_of_bytes(bytes@.subrange(0, i as int)),
            decreases bytes.len() - i,
        {
            let b0 = bytes[i];
            let b1 = bytes[i + 1];
            let b2 = bytes[i + 2];
            let b3 = bytes[i + 3];
            let x: u32 = (b0 as u32) | ((b1 as u32) << 8u32) | ((b2 as u32) << 16u32) | ((
            b3 as u32) << 24u32);
            out.push(x);
            proof {
                let s = bytes@.subrange(0, i + 4);
                assert(s.subrange(0, s.len() - 4) =~= bytes@.subrange(0, i as int));
                assert(s.subrange(s.len() - 4, s.len() as int) =~= seq![b0, b1, b2, b3]);
                assert(out@ =~= u32_seq_of_bytes(s));
            }
            i += 4;
        }
        proof {
            assert(bytes@.subrange(0, i as int) =~= bytes@);
        }
        Some(out)
    }
}

} // verus!
