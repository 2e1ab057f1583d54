use vstd::prelude::*;

verus! {

/// The two bytes of `n` in big-endian order.
pub open spec fn u16_be(n: u16) -> Seq<u8> {
    seq![(n >> 8) as u8, n as u8]
}

/// The four bytes of `n` in big-endian order.
pub open spec fn u32_be(n: u32) -> Seq<u8> {
    seq![(n >> 24) as u8, (n >> 16) as u8, (n >> 8) as u8, n as u8]
}

/// The value of the first four bytes of `s` read as one big-endian word.
pub open spec fn be_word(s: Seq<u8>) -> nat
    recommends
        s.len() >= 4,
{
    (s[0] as nat) * 0x1000000 + (s[1] as nat) * 0x10000 + (s[2] as nat) * 0x100 + (s[3] as nat)
}

/// Appends the two big-endian bytes of `n` to `buf`.
pub fn push_u16_be(buf: &mut Vec<u8>, n: u16)
    ensures
        final(buf)@ == old(buf)@ + u16_be(n),
{
    buf.push((n >> 8) as u8);
    buf.push(n as u8);
    assert(buf@ =~= old(buf)@ + u16_be(n));
}

/// Appends the four big-endian bytes of `n` to `buf`.
pub fn push_u32_be(buf: &mut Vec<u8>, n: u32)
    ensures
        final(buf)@ == old(buf)@ + u32_be(n),
{
    buf.push((n >> 24) as u8);
    buf.push((n >> 16) as u8);
    buf.push((n >> 8) as u8);
    buf.push(n as u8);
    assert(buf@ =~= old(buf)@ + u32_be(n));
}

/// Appends all of `data` to `buf`.
pub fn push_bytes(buf: &mut Vec<u8>, data: &Vec<u8>)
    ensures
        final(buf)@ == old(buf)@ + data@,
{
    let mut i: usize = 0;
    while i < data.len()
        invariant
            i <= data@.len(),
            buf@ == old(buf)@ + data@.take(i as int),
        decreases data@.len() - i,
    {
        buf.push(data[i]);
        i = i + 1;
        assert(buf@ =~= old(buf)@ + data@.take(i as int));
    }
    assert(data@.take(data@.len() as int) =~= data@);
}

/// Reads the four bytes of `s` starting at `offset` as one big-endian word.
pub fn read_be_u32(s: &[u8], offset: usize) -> (r: u32)
    requires
        offset + 4 <= s@.len(),
    ensures
        r == be_word(s@.subrange(offset as int, offset as int + 4)),
{
    let b0 = s[offset];
    let b1 = s[offset + 1];
    let b2 = s[offset + 2];
    let b3 = s[offset + 3];
    let r = (b0 as u32) * 0x1000000 + (b1 as u32) * 0x10000 + (b2 as u32) * 0x100 + (b3 as u32);
    proof {
        let sub = s@.subrange(offset as int, offset as int + 4);
        assert(sub[0] == b0 && sub[1] == b1 && sub[2] == b2 && sub[3] == b3);
    }
    r
}

} // verus!
