//! Wire format: a message is a sequence of signed 32-bit integers, each
//! written as four big-endian bytes.

use vstd::prelude::*;

verus! {

/// The four big-endian bytes of `x` (two's complement).
pub open spec fn word_bytes(x: i32) -> Seq<u8> {
    let u = x as u32;
    seq![(u >> 24u32) as u8, ((u >> 16u32) & 0xffu32) as u8, ((u >> 8u32) & 0xffu32) as u8, (u & 0xffu32) as u8]
}

/// The signed integer whose big-endian bytes are `b0 b1 b2 b3`.
pub open spec fn word_of(b0: u8, b1: u8, b2: u8, b3: u8) -> i32 {
    (((b0 as u32) << 24u32) | ((b1 as u32) << 16u32) | ((b2 as u32) << 8u32) | (b3 as u32)) as i32
}

/// The encoding of a sequence: the concatenation of the words' bytes.
pub open spec fn encode_seq(xs: Seq<i32>) -> Seq<u8>
    decreases xs.len(),
{
    if xs.len() == 0 {
        seq![]
    } else {
        encode_seq(xs.drop_last()) + word_bytes(xs.last())
    }
}

/// The words read from a buffer whose length is a multiple of four.
pub open spec fn decode_seq(b: Seq<u8>) -> Seq<i32>
    recommends
        b.len() % 4 == 0,
    decreases b.len(),
{
    if b.len() < 4 {
        seq![]
    } else {
        let n = b.len() - 4;
        decode_seq(b.take(n)).push(word_of(b[n], b[n + 1], b[n + 2], b[n + 3]))
    }
}

proof fn lemma_word_round_trip(x: i32)
    ensures
        word_of(word_bytes(x)[0], word_bytes(x)[1], word_bytes(x)[2], word_bytes(x)[3]) == x,
{
    let u = x as u32;
    assert((((((u >> 24u32) as u8) as u32) << 24u32) | (((((u >> 16u32) & 0xffu32) as u8) as u32) << 16u32)
        | (((((u >> 8u32) & 0xffu32) as u8) as u32) << 8u32) | (((u & 0xffu32) as u8) as u32)) == u)
        by (bit_vector);
    assert((u as i32) == x) by (bit_vector)
        requires
            u == x as u32,
    ;
}

pub proof fn lemma_encode_len(xs: Seq<i32>)
    ensures
        encode_seq(xs).len() == 4 * xs.len(),
    decreases xs.len(),
{
    if xs.len() > 0 {
        lemma_encode_len(xs.drop_last());
    }
}

/// Decoding an encoded sequence gives the sequence back.
pub proof fn lemma_codec_round_trip(xs: Seq<i32>)
    ensures
        encode_seq(xs).len() == 4 * xs.len(),
        decode_seq(encode_seq(xs)) == xs,
    decreases xs.len(),
{
    lemma_encode_len(xs);
    if xs.len() > 0 {
        let init = xs.drop_last();
        let x = xs.last();
        let b = encode_seq(xs);
        lemma_codec_round_trip(init);
        let n = b.len() - 4;
        assert(b.take(n) =~= encode_seq(init));
        assert(b[n] == word_bytes(x)[0]);
        assert(b[n + 1] == word_bytes(x)[1]);
        assert(b[n + 2] == word_bytes(x)[2]);
        assert(b[n + 3] == word_bytes(x)[3]);
        lemma_word_round_trip(x);
        assert(decode_seq(b) =~= xs);
    }
}

/// Why a buffer could not be decoded.
#[derive(Debug, Clone, Copy, PartialEq, Eq)]
pub enum DecodeError {
    /// The buffer ends inside a word.
    TrailingBytes,
}

/// Encodes the integers as consecutive big-endian words.
pub fn paxos_encode(lon: &[i32]) -> (r: Vec<u8>)
    ensures
        r@ == encode_seq(lon@),
        r@.len() == 4 * lon@.len(),
{
    let mut out: Vec<u8> = Vec::new();
    let mut i: usize = 0;
    while i < lon.len()
        invariant
            i <= lon@.len(),
            out@ == encode_seq(lon@.take(i as int)),
        decreases lon@.len() - i,
    {
        let x = lon[i];
        let u = x as u32;
        out.push((u >> 24u32) as u8);
        out.push(((u >> 16u32) & 0xffu32) as u8);
        out.push(((u >> 8u32) & 0xffu32) as u8);
        out.push((u & 0xffu32) as u8);
        proof {
            assert(lon@.take(i + 1).drop_last() =~= lon@.take(i as int));
        }
        i = i + 1;
        assert(out@ =~= encode_seq(lon@.take(i as int)));
    }
    assert(lon@.take(i as int) =~= lon@);
    proof {
        lemma_encode_len(lon@);
    }
    out
}

/// Decodes the first `size` bytes of the buffer. A length that is not a
/// multiple of four is an error: the last word would be cut.
pub fn paxos_decode(byte_array: &[u8], size: usize) -> (r: Result<Vec<i32>, DecodeError>)
    requires
        size <= byte_array@.len(),
    ensures
        size % 4 != 0 <==> r is Err,
        r matches Ok(v) ==> v@ == decode_seq(byte_array@.take(size as int)),
        r matches Ok(v) ==> v@.len() == size / 4,
{
    if size % 4 != 0 {
        return Err(DecodeError::TrailingBytes);
    }
    let b = Ghost(byte_array@);
    let mut lon: Vec<i32> = Vec::new();
    let mut k: usize = 0;
    while k < size
        invariant
            size <= byte_array@.len(),
            size % 4 == 0,
            k % 4 == 0,
            k <= size,
            b@ == byte_array@,
            lon@ == decode_seq(b@.take(k as int)),
            lon@.len() == k / 4,
        decreases size - k,
    {
        let b0 = byte_array[k];
        let b1 = byte_array[k + 1];
        let b2 = byte_array[k + 2];
        let b3 = byte_array[k + 3];
        let w = (((b0 as u32) << 24u32) | ((b1 as u32) << 16u32) | ((b2 as u32) << 8u32) | (b3 as u32)) as i32;
        lon.push(w);
        proof {
            let t = b@.take(k + 4);
            assert(t.take(k as int) =~= b@.take(k as int));
            assert(t[k as int] == b0 && t[k + 1] == b1 && t[k + 2] == b2 && t[k + 3] == b3);
        }
        k = k + 4;
    }
    Ok(lon)
}

} // verus!
