use vstd::prelude::*;

use crate::token::binary_hex;
use crate::token::convert_to_token;
use crate::wire::be_word;
use crate::wire::read_be_u32;

verus! {

/// The big-endian timestamp of the feedback record that begins at byte
/// `38 * i` of the drained stream.
pub open spec fn record_timestamp(data: Seq<u8>, i: int) -> nat {
    be_word(data.subrange(38 * i, 38 * i + 4))
}

/// The hexadecimal device token of the feedback record that begins at byte
/// `38 * i`: its 32 token bytes, hex-encoded. The 2-byte token-length field
/// at offsets 4 and 5 is present on the wire but not validated.
pub open spec fn record_token(data: Seq<u8>, i: int) -> Seq<char> {
    binary_hex(data.subrange(38 * i + 6, 38 * i + 38))
}

/// Decodes a drained feedback stream: every complete 38-byte record becomes
/// one (timestamp, token) pair, in stream order. A trailing partial record is
/// normal stream end, not an error: it is dropped.
pub fn parse_feedback(data: &Vec<u8>) -> (r: Vec<(u32, String)>)
    ensures
        r@.len() == data@.len() / 38,
        forall|i: int|
            0 <= i < r@.len() ==> (#[trigger] r@[i]).0 as nat == record_timestamp(data@, i)
                && (r@[i]).1@ == record_token(data@, i),
{
    let mut records: Vec<(u32, String)> = Vec::new();
    let n = data.len() / 38;
    let mut i: usize = 0;
    while i < n
        invariant
            data@.len() <= usize::MAX,
            n == data@.len() / 38,
            i <= n,
            records@.len() == i,
            forall|j: int|
                0 <= j < i ==> (#[trigger] records@[j]).0 as nat == record_timestamp(data@, j)
                    && records@[j].1@ == record_token(data@, j),
        decreases n - i,
    {
        proof {
            vstd::arithmetic::div_mod::lemma_fundamental_div_mod(data@.len() as int, 38);
            vstd::arithmetic::div_mod::lemma_mod_bound(data@.len() as int, 38);
            assert(38 * (n as int) <= data@.len());
            assert(38 * (i as int) + 38 <= data@.len());
        }
        let base = 38 * i;
        let ts = read_be_u32(data.as_slice(), base);
        let mut token_buf: Vec<u8> = Vec::new();
        let mut k: usize = 0;
        while k < 32
            invariant
                data@.len() <= usize::MAX,
                n == data@.len() / 38,
                i < n,
                base == 38 * i,
                base + 38 <= data@.len(),
                k <= 32,
                token_buf@ == data@.subrange(base as int + 6, base as int + 6 + k as int),
            decreases 32 - k,
        {
            token_buf.push(data[base + 6 + k]);
            k = k + 1;
            proof {
                assert(token_buf@ =~= data@.subrange(base as int + 6, base as int + 6 + k as int));
            }
        }
        let token = convert_to_token(token_buf.as_slice());
        records.push((ts, token));
        i = i + 1;
    }
    records
}

} // verus!
