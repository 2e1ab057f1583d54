use vstd::prelude::*;
use vstd::arithmetic::power::pow;

use crate::errors::ApnsError;
use crate::wire::be_word;
use crate::wire::read_be_u32;

verus! {

/// True of the characters `0`-`9`, `a`-`f` and `A`-`F`.
pub open spec fn is_hex_char(c: char) -> bool {
    ('0' as u32 <= c as u32 && c as u32 <= '9' as u32) || ('a' as u32 <= c as u32 && c as u32
        <= 'f' as u32) || ('A' as u32 <= c as u32 && c as u32 <= 'F' as u32)
}

/// The value of one hexadecimal digit; 0 for any other character.
pub open spec fn hex_char_val(c: char) -> nat {
    if '0' as u32 <= c as u32 && c as u32 <= '9' as u32 {
        (c as u32 - '0' as u32) as nat
    } else if 'a' as u32 <= c as u32 && c as u32 <= 'f' as u32 {
        (c as u32 - 'a' as u32 + 10) as nat
    } else if 'A' as u32 <= c as u32 && c as u32 <= 'F' as u32 {
        (c as u32 - 'A' as u32 + 10) as nat
    } else {
        0
    }
}

/// The value of a string of hexadecimal digits, most significant first.
pub open spec fn hex_val(s: Seq<char>) -> nat
    decreases s.len(),
{
    if s.len() == 0 {
        0
    } else {
        hex_val(s.drop_last()) * 16 + hex_char_val(s.last())
    }
}

/// A device token in its human-readable form: exactly 32 hexadecimal characters.
pub open spec fn valid_device_token(s: Seq<char>) -> bool {
    s.len() == 32 && forall|i: int| 0 <= i < s.len() ==> is_hex_char(#[trigger] s[i])
}

/// The binary form of a hexadecimal string: each pair of digits, most
/// significant first, becomes one byte.
pub open spec fn token_bytes(s: Seq<char>) -> Seq<u8> {
    Seq::new(s.len() / 2, |i: int| (hex_char_val(s[2 * i]) * 16 + hex_char_val(s[2 * i + 1])) as u8)
}

proof fn lemma_hex_val_bound(s: Seq<char>)
    ensures
        hex_val(s) < pow(16, s.len()),
    decreases s.len(),
{
    reveal_with_fuel(pow, 2);
    if s.len() == 0 {
        assert(pow(16, 0) == 1);
    } else {
        lemma_hex_val_bound(s.drop_last());
        assert(hex_char_val(s.last()) < 16);
        assert(pow(16, s.len()) == 16 * pow(16, (s.len() - 1) as nat));
    }
}

/// True exactly of the hexadecimal digits.
pub fn is_hex_digit(c: char) -> (r: bool)
    ensures
        r == is_hex_char(c),
{
    let u = c as u32;
    (48 <= u && u <= 57) || (97 <= u && u <= 102) || (65 <= u && u <= 70)
}

/// The value of one hexadecimal digit.
pub fn hex_digit_value(c: char) -> (r: u8)
    requires
        is_hex_char(c),
    ensures
        r as nat == hex_char_val(c),
        r < 16,
{
    let u = c as u32;
    if 48 <= u && u <= 57 {
        (u - 48) as u8
    } else if 97 <= u {
        (u - 87) as u8
    } else {
        (u - 55) as u8
    }
}

/// The numeric value of a string of at most 8 hexadecimal digits.
pub fn hex_to_int(hex: &str) -> (r: u32)
    requires
        hex@.len() <= 8,
        forall|i: int| 0 <= i < hex@.len() ==> is_hex_char(#[trigger] hex@[i]),
    ensures
        r as nat == hex_val(hex@),
{
    let n = hex.unicode_len();
    let mut total: u32 = 0;
    let mut i: usize = 0;
    while i < n
        invariant
            n == hex@.len() <= 8,
            i <= n,
            forall|j: int| 0 <= j < hex@.len() ==> is_hex_char(#[trigger] hex@[j]),
            total as nat == hex_val(hex@.take(i as int)),
        decreases n - i,
    {
        let c = hex.get_char(i);
        let d = hex_digit_value(c);
        proof {
            lemma_hex_val_bound(hex@.take(i as int));
            reveal_with_fuel(pow, 8);
            assert(pow(16, 7) == 0x10000000);
            if (i as int) < 7 {
                vstd::arithmetic::power::lemma_pow_increases(16, i as nat, 7);
            }
            assert(hex_val(hex@.take(i as int)) < 0x10000000);
        }
        total = total * 16 + d as u32;
        proof {
            let t = hex@.take(i as int + 1);
            assert(t.drop_last() =~= hex@.take(i as int));
            assert(t.last() == hex@[i as int]);
        }
        i = i + 1;
    }
    proof {
        assert(hex@.take(n as int) =~= hex@);
    }
    total
}

/// Decodes a 32-character hexadecimal device token to its 16 binary bytes.
/// A string of any other length, or holding any non-hexadecimal character,
/// is rejected with `InvalidTokenFormat`.
pub fn convert_to_binary(device_token: &str) -> (r: Result<Vec<u8>, ApnsError>)
    ensures
        match r {
            Ok(b) => valid_device_token(device_token@) && b@ == token_bytes(device_token@)
                && b@.len() == 16,
            Err(e) => e == ApnsError::InvalidTokenFormat && !valid_device_token(device_token@),
        },
{
    let n = device_token.unicode_len();
    if n != 32 {
        return Err(ApnsError::InvalidTokenFormat);
    }
    let mut i: usize = 0;
    while i < 32
        invariant
            device_token@.len() == 32,
            i <= 32,
            forall|j: int| 0 <= j < i ==> is_hex_char(#[trigger] device_token@[j]),
        decreases 32 - i,
    {
        if !is_hex_digit(device_token.get_char(i)) {
            return Err(ApnsError::InvalidTokenFormat);
        }
        i = i + 1;
    }
    let mut bytes: Vec<u8> = Vec::new();
    let mut j: usize = 0;
    while j < 4
        invariant
            valid_device_token(device_token@),
            j <= 4,
            bytes@ == token_bytes(device_token@).take(4 * j as int),
        decreases 4 - j,
    {
        let group = device_token.substring_char(8 * j, 8 * j + 8);
        let v = hex_to_int(group);
        bytes.push((v >> 24) as u8);
        bytes.push((v >> 16) as u8);
        bytes.push((v >> 8) as u8);
        bytes.push(v as u8);
        proof {
            let g = device_token@.subrange(8 * j as int, 8 * j as int + 8);
            lemma_hex_val_unfold8(g);
            assert(forall|c: char| hex_char_val(c) < 16);
            let c0 = hex_char_val(g[0]) as u32;
            let c1 = hex_char_val(g[1]) as u32;
            let c2 = hex_char_val(g[2]) as u32;
            let c3 = hex_char_val(g[3]) as u32;
            let c4 = hex_char_val(g[4]) as u32;
            let c5 = hex_char_val(g[5]) as u32;
            let c6 = hex_char_val(g[6]) as u32;
            let c7 = hex_char_val(g[7]) as u32;
            assert(v == (((((((c0 * 16 + c1) * 16 + c2) * 16 + c3) * 16 + c4) * 16 + c5) * 16 + c6)
                * 16 + c7));
            assert((v >> 24) as u8 == (c0 * 16 + c1) as u8 && (v >> 16) as u8 == (c2 * 16 + c3) as u8
                && (v >> 8) as u8 == (c4 * 16 + c5) as u8 && v as u8 == (c6 * 16 + c7) as u8)
                by (bit_vector)
                requires
                    v == (((((((c0 * 16 + c1) * 16 + c2) * 16 + c3) * 16 + c4) * 16 + c5) * 16 + c6)
                        * 16 + c7),
                    c0 < 16,
                    c1 < 16,
                    c2 < 16,
                    c3 < 16,
                    c4 < 16,
                    c5 < 16,
                    c6 < 16,
                    c7 < 16,
            ;
            assert(bytes@ =~= token_bytes(device_token@).take(4 * (j as int + 1)));
        }
        j = j + 1;
    }
    proof {
        assert(bytes@ =~= token_bytes(device_token@));
    }
    Ok(bytes)
}

/// The lowercase hexadecimal digit for a value below 16.
pub open spec fn hex_digit_char(d: nat) -> char {
    if d < 10 {
        ((d + 48) as u8) as char
    } else {
        ((d + 87) as u8) as char
    }
}

/// The unpadded lowercase hexadecimal rendering of `n`: most significant
/// digit first, no leading zeros.
pub open spec fn hex_render(n: nat) -> Seq<char>
    decreases n,
{
    if n < 16 {
        seq![hex_digit_char(n)]
    } else {
        hex_render(n / 16).push(hex_digit_char(n % 16))
    }
}

/// The hexadecimal form of a byte string: each aligned 4-byte big-endian
/// word rendered unpadded, concatenated in order.
pub open spec fn binary_hex(s: Seq<u8>) -> Seq<char>
    decreases s.len(),
{
    if s.len() < 4 {
        Seq::empty()
    } else {
        hex_render(be_word(s)) + binary_hex(s.skip(4))
    }
}

/// The lowercase form of a hexadecimal character; others are unchanged.
pub open spec fn lower_hex_char(c: char) -> char {
    if 'A' as u32 <= c as u32 && c as u32 <= 'F' as u32 {
        ((c as u32 + 32) as u8) as char
    } else {
        c
    }
}

/// The string with every uppercase hexadecimal character lowercased.
pub open spec fn lower_hex(s: Seq<char>) -> Seq<char> {
    s.map_values(|c: char| lower_hex_char(c))
}

/// The one-character string for a hexadecimal digit value.
fn hex_digit_str(d: u8) -> (s: &'static str)
    requires
        d < 16,
    ensures
        s@ == seq![hex_digit_char(d as nat)],
{
    let s = match d {
        0 => "0",
        1 => "1",
        2 => "2",
        3 => "3",
        4 => "4",
        5 => "5",
        6 => "6",
        7 => "7",
        8 => "8",
        9 => "9",
        10 => "a",
        11 => "b",
        12 => "c",
        13 => "d",
        14 => "e",
        _ => "f",
    };
    proof {
        reveal_strlit("0");
        reveal_strlit("1");
        reveal_strlit("2");
        reveal_strlit("3");
        reveal_strlit("4");
        reveal_strlit("5");
        reveal_strlit("6");
        reveal_strlit("7");
        reveal_strlit("8");
        reveal_strlit("9");
        reveal_strlit("a");
        reveal_strlit("b");
        reveal_strlit("c");
        reveal_strlit("d");
        reveal_strlit("e");
        reveal_strlit("f");
        assert(s@ =~= seq![hex_digit_char(d as nat)]);
    }
    s
}

/// The unpadded lowercase hexadecimal string for `n`.
pub fn hex_str(n: u32) -> (s: String)
    ensures
        s@ == hex_render(n as nat),
    decreases n,
{
    if n < 16 {
        hex_digit_str(n as u8).to_owned()
    } else {
        let mut s = hex_str(n / 16);
        s.append(hex_digit_str((n % 16) as u8));
        proof {
            assert(s@ =~= hex_render((n / 16) as nat).push(hex_digit_char((n % 16) as nat)));
        }
        s
    }
}

/// Encodes 16 or 32 binary token bytes as hexadecimal: each aligned 4-byte
/// big-endian word is rendered unpadded and lowercase, with no separators.
pub fn convert_to_token(binary: &[u8]) -> (r: String)
    requires
        binary@.len() == 16 || binary@.len() == 32,
    ensures
        r@ == binary_hex(binary@),
{
    let mut token = String::new();
    proof {
        assert(binary@.skip(0) =~= binary@);
        assert(token@ + binary_hex(binary@) =~= binary_hex(binary@));
    }
    let words = binary.len() / 4;
    let mut i: usize = 0;
    while i < words
        invariant
            binary@.len() == 16 || binary@.len() == 32,
            words == binary@.len() / 4,
            i <= words,
            token@ + binary_hex(binary@.skip(4 * i as int)) == binary_hex(binary@),
        decreases words - i,
    {
        let w = read_be_u32(binary, 4 * i);
        let h = hex_str(w);
        proof {
            let s = binary@;
            let rest = s.skip(4 * i as int);
            assert(rest.len() >= 4);
            assert(be_word(rest) == be_word(s.subrange(4 * i as int, 4 * i as int + 4)));
            assert(rest.skip(4) =~= s.skip(4 * (i as int + 1)));
            assert(binary_hex(rest) == hex_render(be_word(rest)) + binary_hex(
                s.skip(4 * (i as int + 1))));
            assert((token@ + h@) + binary_hex(s.skip(4 * (i as int + 1))) =~= token@ + binary_hex(
                rest));
        }
        token.append(h.as_str());
        i = i + 1;
    }
    proof {
        let s = binary@;
        assert(s.skip(4 * words as int).len() == 0);
        assert(binary_hex(s.skip(4 * words as int)) =~= Seq::<char>::empty());
        assert(token@ + Seq::<char>::empty() =~= token@);
    }
    token
}

/// The lowercase digit for a hexadecimal character's value is that
/// character, lowercased.
proof fn lemma_digit_char_of_val(c: char)
    requires
        is_hex_char(c),
    ensures
        hex_digit_char(hex_char_val(c)) == lower_hex_char(c),
{
}

/// A hexadecimal string with a nonzero leading digit has a nonzero value.
proof fn lemma_hex_val_pos(s: Seq<char>)
    requires
        s.len() >= 1,
        hex_char_val(s[0]) >= 1,
    ensures
        hex_val(s) >= 1,
    decreases s.len(),
{
    if s.len() == 1 {
        assert(s.drop_last().len() == 0);
    } else {
        lemma_hex_val_pos(s.drop_last());
    }
}

/// Rendering the value of a hexadecimal string with a nonzero leading digit
/// gives back that string, lowercased.
proof fn lemma_hex_render_of_val(g: Seq<char>)
    requires
        g.len() >= 1,
        forall|i: int| 0 <= i < g.len() ==> is_hex_char(#[trigger] g[i]),
        hex_char_val(g[0]) >= 1,
    ensures
        hex_render(hex_val(g)) == lower_hex(g),
    decreases g.len(),
{
    if g.len() == 1 {
        assert(g.drop_last().len() == 0);
        assert(hex_val(g.drop_last()) == 0);
        assert(g.last() == g[0]);
        assert(hex_val(g) == hex_char_val(g[0]));
        lemma_digit_char_of_val(g[0]);
        assert(hex_render(hex_val(g)) =~= lower_hex(g));
    } else {
        let dl = g.drop_last();
        let n = hex_val(g);
        lemma_hex_val_pos(dl);
        assert(n == hex_val(dl) * 16 + hex_char_val(g.last()));
        assert(hex_char_val(g.last()) < 16);
        assert(n >= 16);
        assert(n / 16 == hex_val(dl) && n % 16 == hex_char_val(g.last()));
        lemma_hex_render_of_val(dl);
        lemma_digit_char_of_val(g.last());
        assert(hex_render(n) == lower_hex(dl).push(lower_hex_char(g.last())));
        assert(lower_hex(dl).push(lower_hex_char(g.last())) =~= lower_hex(g));
    }
}

/// The value of an 8-digit hexadecimal string, written out digit by digit.
proof fn lemma_hex_val_unfold8(g: Seq<char>)
    requires
        g.len() == 8,
    ensures
        hex_val(g) == ((((((hex_char_val(g[0]) * 16 + hex_char_val(g[1])) * 16 + hex_char_val(
            g[2],
        )) * 16 + hex_char_val(g[3])) * 16 + hex_char_val(g[4])) * 16 + hex_char_val(g[5])) * 16
            + hex_char_val(g[6])) * 16 + hex_char_val(g[7]),
{
    let s7 = g.drop_last();
    let s6 = s7.drop_last();
    let s5 = s6.drop_last();
    let s4 = s5.drop_last();
    let s3 = s4.drop_last();
    let s2 = s3.drop_last();
    let s1 = s2.drop_last();
    let s0 = s1.drop_last();
    assert(s0.len() == 0);
    assert(hex_val(s0) == 0);
    assert(s1.last() == g[0] && s2.last() == g[1] && s3.last() == g[2] && s4.last() == g[3]
        && s5.last() == g[4] && s6.last() == g[5] && s7.last() == g[6] && g.last() == g[7]);
    assert(hex_val(s1) == hex_val(s0) * 16 + hex_char_val(g[0]));
    assert(hex_val(s2) == hex_val(s1) * 16 + hex_char_val(g[1]));
    assert(hex_val(s3) == hex_val(s2) * 16 + hex_char_val(g[2]));
    assert(hex_val(s4) == hex_val(s3) * 16 + hex_char_val(g[3]));
    assert(hex_val(s5) == hex_val(s4) * 16 + hex_char_val(g[4]));
    assert(hex_val(s6) == hex_val(s5) * 16 + hex_char_val(g[5]));
    assert(hex_val(s7) == hex_val(s6) * 16 + hex_char_val(g[6]));
    assert(hex_val(g) == hex_val(s7) * 16 + hex_char_val(g[7]));
}

/// The big-endian value of four adjacent token bytes equals the value of the
/// eight hexadecimal characters they were decoded from.
proof fn lemma_word_of_token_bytes(t: Seq<char>, j: int)
    requires
        0 <= j,
        8 * j + 8 <= t.len(),
    ensures
        be_word(token_bytes(t).subrange(4 * j, 4 * j + 4)) == hex_val(t.subrange(8 * j, 8 * j + 8)),
{
    let g = t.subrange(8 * j, 8 * j + 8);
    lemma_hex_val_unfold8(g);
    let b = token_bytes(t).subrange(4 * j, 4 * j + 4);
    assert(forall|c: char| hex_char_val(c) < 16);
    assert(b[0] as nat == hex_char_val(g[0]) * 16 + hex_char_val(g[1]));
    assert(b[1] as nat == hex_char_val(g[2]) * 16 + hex_char_val(g[3]));
    assert(b[2] as nat == hex_char_val(g[4]) * 16 + hex_char_val(g[5]));
    assert(b[3] as nat == hex_char_val(g[6]) * 16 + hex_char_val(g[7]));
}

/// Round trip: decoding a valid 32-character hexadecimal token to its 16
/// binary bytes and re-encoding those bytes yields the token, lowercased —
/// provided each of its four 8-character groups has a nonzero leading digit,
/// since the encoding direction writes each 4-byte word unpadded.
pub proof fn lemma_token_round_trip(t: Seq<char>)
    requires
        valid_device_token(t),
        forall|k: int| (k == 0 || k == 8 || k == 16 || k == 24) ==> hex_char_val(#[trigger] t[k])
            >= 1,
    ensures
        binary_hex(token_bytes(t)) == lower_hex(t),
{
    let b = token_bytes(t);
    assert(b.len() == 16);
    let r1 = b.skip(4);
    let r2 = b.skip(8);
    let r3 = b.skip(12);
    let r4 = b.skip(16);
    assert(r1.skip(4) =~= r2);
    assert(r2.skip(4) =~= r3);
    assert(r3.skip(4) =~= r4);
    assert(r4.len() == 0);
    assert(binary_hex(r4) =~= Seq::<char>::empty());
    assert(be_word(b) == be_word(b.subrange(0, 4)));
    assert(be_word(r1) == be_word(b.subrange(4, 8)));
    assert(be_word(r2) == be_word(b.subrange(8, 12)));
    assert(be_word(r3) == be_word(b.subrange(12, 16)));
    lemma_word_of_token_bytes(t, 0);
    lemma_word_of_token_bytes(t, 1);
    lemma_word_of_token_bytes(t, 2);
    lemma_word_of_token_bytes(t, 3);
    let g0 = t.subrange(0, 8);
    let g1 = t.subrange(8, 16);
    let g2 = t.subrange(16, 24);
    let g3 = t.subrange(24, 32);
    lemma_hex_render_of_val(g0);
    lemma_hex_render_of_val(g1);
    lemma_hex_render_of_val(g2);
    lemma_hex_render_of_val(g3);
    assert(binary_hex(b) == hex_render(be_word(b)) + binary_hex(b.skip(4)));
    assert(binary_hex(r1) == hex_render(be_word(r1)) + binary_hex(r1.skip(4)));
    assert(binary_hex(r2) == hex_render(be_word(r2)) + binary_hex(r2.skip(4)));
    assert(binary_hex(r3) == hex_render(be_word(r3)) + binary_hex(r3.skip(4)));
    assert(binary_hex(b) == lower_hex(g0) + (lower_hex(g1) + (lower_hex(g2) + (lower_hex(g3)
        + Seq::<char>::empty()))));
    assert(lower_hex(g0) + (lower_hex(g1) + (lower_hex(g2) + (lower_hex(g3)
        + Seq::<char>::empty()))) =~= lower_hex(t));
}

/// Reads the leading four bytes of a feedback record as a big-endian
/// unix timestamp.
pub fn convert_to_timestamp(binary: &[u8]) -> (r: u32)
    requires
        binary@.len() >= 4,
    ensures
        r as nat == be_word(binary@.subrange(0, 4)),
{
    read_be_u32(binary, 0)
}

} // verus!
