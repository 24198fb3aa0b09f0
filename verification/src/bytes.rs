use vstd::prelude::*;

verus! {

/// The four little-endian bytes of a 32-bit value.
pub open spec fn u32_le_bytes(x: u32) -> Seq<u8> {
    seq![
        (x as int % 256) as u8,
        (x as int / 256 % 256) as u8,
        (x as int / 65536 % 256) as u8,
        (x as int / 16777216 % 256) as u8,
    ]
}

/// The little-endian byte serialisation of a sequence of 32-bit values.
pub open spec fn le_bytes_of_u32s(elems: Seq<u32>) -> Seq<u8>
    decreases elems.len(),
{
    if elems.len() == 0 {
        Seq::empty()
    } else {
        le_bytes_of_u32s(elems.drop_last()) + u32_le_bytes(elems.last())
    }
}

/// Serialising `n` values yields `4 * n` bytes.
pub proof fn lemma_le_bytes_len(elems: Seq<u32>)
    ensures
        le_bytes_of_u32s(elems).len() == 4 * elems.len(),
    decreases elems.len(),
{
    if elems.len() > 0 {
        lemma_le_bytes_len(elems.drop_last());
    }
}

/// Serialisation distributes over appending one value.
pub proof fn lemma_le_bytes_push(elems: Seq<u32>, x: u32)
    ensures
        le_bytes_of_u32s(elems.push(x)) == le_bytes_of_u32s(elems) + u32_le_bytes(x),
{
    assert(elems.push(x).drop_last() =~= elems);
}

/// Appends the four little-endian bytes of `x` to `buf`.
pub fn push_u32_le(buf: &mut Vec<u8>, x: u32)
    ensures
        final(buf)@ == old(buf)@ + u32_le_bytes(x),
{
    buf.push((x % 256) as u8);
    buf.push((x / 256 % 256) as u8);
    buf.push((x / 65536 % 256) as u8);
    buf.push((x / 16777216 % 256) as u8);
    proof {
        assert(buf@ =~= old(buf)@ + u32_le_bytes(x));
    }
}

/// Appends the little-endian serialisation of every value in `data` to
/// `buf`, in order.
pub fn append_u32s_le(buf: &mut Vec<u8>, data: &Vec<u32>)
    ensures
        final(buf)@ == old(buf)@ + le_bytes_of_u32s(data@),
{
    let mut k: usize = 0;
    while k < data.len()
        invariant
            k <= data@.len(),
            buf@ == old(buf)@ + le_bytes_of_u32s(data@.take(k as int)),
        decreases data@.len() - k,
    {
        push_u32_le(buf, data[k]);
        proof {
            lemma_le_bytes_push(data@.take(k as int), data@[k as int]);
            assert(data@.take(k as int).push(data@[k as int]) =~= data@.take(k as int + 1));
            assert(buf@ =~= old(buf)@ + le_bytes_of_u32s(data@.take(k as int + 1)));
        }
        k = k + 1;
    }
    proof {
        assert(data@.take(data@.len() as int) =~= data@);
    }
}

/// The sequence of 16-bit values widened to 32 bits.
pub open spec fn widened_u16s(s: Seq<u16>) -> Seq<u32> {
    s.map(|i: int, v: u16| v as u32)
}

/// The sequence of 8-bit values widened to 32 bits.
pub open spec fn widened_u8s(s: Seq<u8>) -> Seq<u32> {
    s.map(|i: int, v: u8| v as u32)
}

/// Appends the little-endian serialisation of every 16-bit value in
/// `data`, widened to 32 bits, to `buf`, in order.
pub fn append_u16s_widened_le(buf: &mut Vec<u8>, data: &Vec<u16>)
    ensures
        final(buf)@ == old(buf)@ + le_bytes_of_u32s(widened_u16s(data@)),
{
    let mut k: usize = 0;
    while k < data.len()
        invariant
            k <= data@.len(),
            buf@ == old(buf)@ + le_bytes_of_u32s(widened_u16s(data@).take(k as int)),
        decreases data@.len() - k,
    {
        push_u32_le(buf, data[k] as u32);
        proof {
            let w = widened_u16s(data@);
            lemma_le_bytes_push(w.take(k as int), w[k as int]);
            assert(w.take(k as int).push(w[k as int]) =~= w.take(k as int + 1));
            assert(buf@ =~= old(buf)@ + le_bytes_of_u32s(w.take(k as int + 1)));
        }
        k = k + 1;
    }
    proof {
        assert(widened_u16s(data@).take(data@.len() as int) =~= widened_u16s(data@));
    }
}

} // verus!
