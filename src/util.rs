use vstd::prelude::*;

use crate::error::NetworkError;

verus! {

/// The big-endian value of two bytes.
pub open spec fn be16(hi: u8, lo: u8) -> int {
    hi * 256 + lo
}

/// The two big-endian bytes of `x`.
pub open spec fn u16_bytes(x: u16) -> Seq<u8> {
    seq![(x / 256) as u8, (x % 256) as u8]
}

/// The big-endian value of the four bytes of `b` that start at `at`.
pub open spec fn be32(b: Seq<u8>, at: int) -> u32 {
    (b[at] * 0x100_0000 + b[at + 1] * 0x1_0000 + b[at + 2] * 0x100 + b[at + 3]) as u32
}

/// The four big-endian bytes of `x`.
pub open spec fn u32_bytes(x: u32) -> Seq<u8> {
    seq![
        (x / 0x100_0000) as u8,
        (x / 0x1_0000 % 256) as u8,
        (x / 0x100 % 256) as u8,
        (x % 256) as u8,
    ]
}

/// Reads a big-endian `u16` from the first two bytes.
pub fn bytes_to_u16_be(bytes: &[u8]) -> (r: Result<u16, NetworkError>)
    ensures
        bytes@.len() < 2 ==> r == Err::<u16, NetworkError>(
            NetworkError::ShortMsg { expected_length: 2, actual_length: bytes@.len() as usize },
        ),
        bytes@.len() >= 2 ==> r == Ok::<u16, NetworkError>(be16(bytes@[0], bytes@[1]) as u16),
{
    if bytes.len() < 2 {
        return Err(NetworkError::ShortMsg { expected_length: 2, actual_length: bytes.len() });
    }
    Ok((bytes[0] as u16) * 256 + bytes[1] as u16)
}

/// Writes `num` as two big-endian bytes.
pub fn u16_be_to_bytes(num: u16) -> (r: [u8; 2])
    ensures
        r@ == u16_bytes(num),
{
    [(num / 256) as u8, (num % 256) as u8]
}

/// Reads the big-endian `u32` that starts at `at`.
fn read_u32_be(bytes: &[u8], at: usize) -> (r: u32)
    requires
        at + 4 <= bytes@.len(),
    ensures
        r == be32(bytes@, at as int),
{
    (bytes[at] as u32) * 0x100_0000 + (bytes[at + 1] as u32) * 0x1_0000 + (bytes[at + 2] as u32)
        * 0x100 + bytes[at + 3] as u32
}

/// Appends the four big-endian bytes of `x`.
fn push_u32_be(out: &mut Vec<u8>, x: u32)
    ensures
        final(out)@ == old(out)@ + u32_bytes(x),
{
    out.push((x / 0x100_0000) as u8);
    out.push((x / 0x1_0000 % 256) as u8);
    out.push((x / 0x100 % 256) as u8);
    out.push((x % 256) as u8);
    assert(final(out)@ =~= old(out)@ + u32_bytes(x));
}

/// The color held by the first sixteen bytes: four big-endian `f32` bit patterns.
pub open spec fn color_of(b: Seq<u8>) -> (u32, u32, u32, u32) {
    (be32(b, 0), be32(b, 4), be32(b, 8), be32(b, 12))
}

/// The sixteen bytes of a color.
pub open spec fn color_bytes(c: (u32, u32, u32, u32)) -> Seq<u8> {
    u32_bytes(c.0) + u32_bytes(c.1) + u32_bytes(c.2) + u32_bytes(c.3)
}

/// The coordinate pairs held by consecutive eight-byte chunks of `b`.
pub open spec fn positions_of(b: Seq<u8>) -> Seq<(u32, u32)> {
    Seq::new(b.len() / 8, |i: int| (be32(b, 8 * i), be32(b, 8 * i + 4)))
}

/// The bytes of a sequence of coordinate pairs, eight for each pair, in order.
pub open spec fn positions_bytes(p: Seq<(u32, u32)>) -> Seq<u8>
    decreases p.len(),
{
    if p.len() == 0 {
        seq![]
    } else {
        positions_bytes(p.drop_last()) + u32_bytes(p.last().0) + u32_bytes(p.last().1)
    }
}

/// Reading back the bytes of a `u16` gives the `u16`.
pub proof fn lemma_be16_of_u16_bytes(x: u16)
    ensures
        u16_bytes(x).len() == 2,
        be16(u16_bytes(x)[0], u16_bytes(x)[1]) == x,
{
}

/// Reading back the bytes of a `u32` gives the `u32`.
pub proof fn lemma_be32_of_u32_bytes(x: u32, b: Seq<u8>, at: int)
    requires
        0 <= at,
        at + 4 <= b.len(),
        b.subrange(at, at + 4) == u32_bytes(x),
    ensures
        be32(b, at) == x,
{
    assert(b[at] == u32_bytes(x)[0]);
    assert(b[at + 1] == u32_bytes(x)[1]);
    assert(b[at + 2] == u32_bytes(x)[2]);
    assert(b[at + 3] == u32_bytes(x)[3]);
}

/// The bytes of `n` coordinate pairs are `8 * n` long.
pub proof fn lemma_positions_bytes_len(p: Seq<(u32, u32)>)
    ensures
        positions_bytes(p).len() == 8 * p.len(),
    decreases p.len(),
{
    if p.len() > 0 {
        lemma_positions_bytes_len(p.drop_last());
    }
}

/// The bytes of `n` coordinate pairs are `8 * n` long, and those of pair `i`
/// stand at `8 * i`.
pub proof fn lemma_positions_bytes_layout(p: Seq<(u32, u32)>)
    ensures
        positions_bytes(p).len() == 8 * p.len(),
        forall|i: int|
            0 <= i < p.len() ==> #[trigger] positions_bytes(p).subrange(8 * i, 8 * i + 4)
                == u32_bytes(p[i].0) && positions_bytes(p).subrange(8 * i + 4, 8 * i + 8)
                == u32_bytes(p[i].1),
    decreases p.len(),
{
    if p.len() > 0 {
        let q = p.drop_last();
        lemma_positions_bytes_layout(q);
        let b = positions_bytes(p);
        assert forall|i: int| 0 <= i < p.len() implies #[trigger] b.subrange(8 * i, 8 * i + 4)
            == u32_bytes(p[i].0) && b.subrange(8 * i + 4, 8 * i + 8) == u32_bytes(p[i].1) by {
            if i < q.len() {
                assert(b.subrange(8 * i, 8 * i + 4) =~= positions_bytes(q).subrange(8 * i, 8 * i + 4));
                assert(b.subrange(8 * i + 4, 8 * i + 8) =~= positions_bytes(q).subrange(
                    8 * i + 4,
                    8 * i + 8,
                ));
            } else {
                assert(b.subrange(8 * i, 8 * i + 4) =~= u32_bytes(p.last().0));
                assert(b.subrange(8 * i + 4, 8 * i + 8) =~= u32_bytes(p.last().1));
            }
        }
    }
}

/// Reading back the bytes of a color gives the color.
pub proof fn lemma_color_round_trip(c: (u32, u32, u32, u32), rest: Seq<u8>)
    ensures
        color_of(color_bytes(c) + rest) == c,
{
    let b = color_bytes(c) + rest;
    assert(b.subrange(0, 4) =~= u32_bytes(c.0));
    assert(b.subrange(4, 8) =~= u32_bytes(c.1));
    assert(b.subrange(8, 12) =~= u32_bytes(c.2));
    assert(b.subrange(12, 16) =~= u32_bytes(c.3));
    lemma_be32_of_u32_bytes(c.0, b, 0);
    lemma_be32_of_u32_bytes(c.1, b, 4);
    lemma_be32_of_u32_bytes(c.2, b, 8);
    lemma_be32_of_u32_bytes(c.3, b, 12);
}

/// Reading back the bytes of coordinate pairs gives the pairs.
pub proof fn lemma_positions_round_trip(p: Seq<(u32, u32)>)
    ensures
        positions_of(positions_bytes(p)) == p,
{
    lemma_positions_bytes_layout(p);
    let b = positions_bytes(p);
    assert forall|i: int| 0 <= i < p.len() implies #[trigger] positions_of(b)[i] == p[i] by {
        assert(b.subrange(8 * i, 8 * i + 4) == u32_bytes(p[i].0));
        lemma_be32_of_u32_bytes(p[i].0, b, 8 * i);
        lemma_be32_of_u32_bytes(p[i].1, b, 8 * i + 4);
    }
    assert(positions_of(b) =~= p);
}

/// Reads a color from the first sixteen bytes; each component is the bit
/// pattern of a big-endian `f32`, passed through unchanged.
pub fn bytes_to_color(bytes: &[u8]) -> (r: Result<(u32, u32, u32, u32), NetworkError>)
    ensures
        bytes@.len() < 16 ==> r == Err::<(u32, u32, u32, u32), NetworkError>(
            NetworkError::ShortMsg { expected_length: 16, actual_length: bytes@.len() as usize },
        ),
        bytes@.len() >= 16 ==> r == Ok::<(u32, u32, u32, u32), NetworkError>(color_of(bytes@)),
{
    if bytes.len() < 16 {
        return Err(NetworkError::ShortMsg { expected_length: 16, actual_length: bytes.len() });
    }
    let r = read_u32_be(bytes, 0);
    let g = read_u32_be(bytes, 4);
    let b = read_u32_be(bytes, 8);
    let a = read_u32_be(bytes, 12);
    Ok((r, g, b, a))
}

/// Writes a color as sixteen bytes.
pub fn color_to_bytes(color: &(u32, u32, u32, u32)) -> (r: Vec<u8>)
    ensures
        r@ == color_bytes(*color),
{
    let mut bytes: Vec<u8> = Vec::with_capacity(16);
    push_u32_be(&mut bytes, color.0);
    push_u32_be(&mut bytes, color.1);
    push_u32_be(&mut bytes, color.2);
    push_u32_be(&mut bytes, color.3);
    assert(bytes@ =~= color_bytes(*color));
    bytes
}

/// Reads every consecutive eight-byte chunk as a pair of big-endian `f32`
/// bit patterns; fails unless the length is a multiple of eight.
pub fn bytes_to_positions(bytes: &[u8]) -> (r: Result<Vec<(u32, u32)>, NetworkError>)
    ensures
        bytes@.len() % 8 != 0 ==> r == Err::<Vec<(u32, u32)>, NetworkError>(
            NetworkError::InvalidMsg { input_length: bytes@.len() as usize },
        ),
        bytes@.len() % 8 == 0 ==> (r matches Ok(v) && v@ == positions_of(bytes@)),
{
    if bytes.len() % 8 != 0 {
        return Err(NetworkError::InvalidMsg { input_length: bytes.len() });
    }
    let mut pairs: Vec<(u32, u32)> = Vec::with_capacity(bytes.len() / 8);
    let ghost all = positions_of(bytes@);
    let mut at: usize = 0;
    while at < bytes.len()
        invariant
            bytes@.len() % 8 == 0,
            at % 8 == 0,
            at <= bytes@.len(),
            all == positions_of(bytes@),
            all.len() == bytes@.len() / 8,
            pairs@.len() == at / 8,
            forall|k: int| 0 <= k < pairs@.len() ==> pairs@[k] == #[trigger] all[k],
        decreases bytes@.len() - at,
    {
        let a = read_u32_be(bytes, at);
        let b = read_u32_be(bytes, at + 4);
        assert(all[at as int / 8] == (a, b));
        pairs.push((a, b));
        at = at + 8;
    }
    assert(pairs@ =~= positions_of(bytes@));
    Ok(pairs)
}

/// Writes coordinate pairs as eight bytes each, in order.
pub fn positions_to_bytes(positions: &Vec<(u32, u32)>) -> (r: Vec<u8>)
    ensures
        r@ == positions_bytes(positions@),
{
    let mut bytes: Vec<u8> = Vec::new();
    let mut i: usize = 0;
    while i < positions.len()
        invariant
            i <= positions@.len(),
            bytes@ == positions_bytes(positions@.take(i as int)),
        decreases positions@.len() - i,
    {
        let (a, b) = positions[i];
        proof {
            assert(positions@.take(i + 1).drop_last() =~= positions@.take(i as int));
        }
        push_u32_be(&mut bytes, a);
        push_u32_be(&mut bytes, b);
        i = i + 1;
    }
    assert(positions@.take(i as int) =~= positions@);
    bytes
}

/// The lowercase hexadecimal digit of a value below sixteen.
pub open spec fn hex_digit(v: int) -> char {
    if v < 10 {
        ((v + 48) as u8) as char
    } else {
        ((v - 10 + 97) as u8) as char
    }
}

/// Two lowercase hexadecimal digits for each byte, the high nibble first.
pub open spec fn hex_text(b: Seq<u8>) -> Seq<char>
    decreases b.len(),
{
    if b.len() == 0 {
        seq![]
    } else {
        hex_text(b.drop_last()) + seq![hex_digit(b.last() as int / 16), hex_digit(b.last() as int % 16)]
    }
}

/// Relies on hex::encode: two lowercase digits for each byte, high nibble first.
#[verifier::external_body]
fn hex_encode(bytes: &[u8]) -> (r: String)
    ensures
        r@ == hex_text(bytes@),
{
    hex::encode(bytes)
}

/// Renders bytes for logs: `0x` followed by their hexadecimal digits, or the
/// empty string for no bytes.
pub fn bytes_to_hex(bytes: &[u8]) -> (r: String)
    ensures
        bytes@.len() == 0 ==> r@ == Seq::<char>::empty(),
        bytes@.len() > 0 ==> r@ == seq!['0', 'x'] + hex_text(bytes@),
{
    if bytes.len() == 0 {
        return String::new();
    }
    let mut text = String::from_str("0x");
    let digits = hex_encode(bytes);
    text.append(digits.as_str());
    proof {
        reveal_strlit("0x");
    }
    text
}

} // verus!
