//! The style table of a voice: a flat buffer of 32-bit floating-point values,
//! read as consecutive vectors of one dimension, the vector at index `n`
//! being the style for utterances of `n` tokens.
//!
//! The values are carried by their IEEE-754 bit patterns and never computed
//! with: selection only moves them. The pattern 0 is the value +0.0.

use vstd::prelude::*;
use vstd::arithmetic::div_mod::{lemma_fundamental_div_mod, lemma_mod_bound};

verus! {

/// The dimension of the style vectors of a voice file.
pub const STYLE_DIMENSION: usize = 256;

/// The first `size` values of `data`, followed by zeros where `data` is
/// shorter than `size`.
pub open spec fn padded_prefix(data: Seq<u32>, size: nat) -> Seq<u32> {
    Seq::new(
        size,
        |i: int|
            if i < data.len() {
                data[i]
            } else {
                0u32
            },
    )
}

/// Where the last complete vector of `stride` values begins in a buffer of
/// `len` values, if the buffer holds a complete vector.
pub open spec fn last_complete(len: nat, stride: nat) -> Option<nat> {
    if stride > 0 && len >= stride {
        Some(((len / stride) * stride - stride) as nat)
    } else {
        None
    }
}

/// The style vector of `dimension` values for an utterance of `token_count`
/// tokens, from a buffer of vectors `stride` values apart: the vector at
/// index `token_count` where the buffer reaches that far; else the last
/// complete vector of the buffer; else the start of the buffer, padded with
/// zeros.
pub open spec fn style_vector(data: Seq<u32>, stride: nat, token_count: nat, dimension: nat) -> Seq<
    u32,
> {
    let offset = token_count * stride;
    if offset + dimension <= data.len() {
        data.subrange(offset as int, (offset + dimension) as int)
    } else {
        match last_complete(data.len(), stride) {
            Some(start) if start + dimension <= data.len() => data.subrange(
                start as int,
                (start + dimension) as int,
            ),
            _ => padded_prefix(data, dimension),
        }
    }
}

/// The 32-bit value whose little-endian bytes are the four bytes of `bytes`
/// from `4 * index` on.
pub open spec fn le_word(bytes: Seq<u8>, index: int) -> u32 {
    (bytes[4 * index] + 256 * bytes[4 * index + 1] + 65536 * bytes[4 * index + 2] + 16777216
        * bytes[4 * index + 3]) as u32
}

/// The values that a blob of little-endian 32-bit values holds. Bytes after
/// the last complete group of four are ignored.
pub open spec fn le_words(bytes: Seq<u8>) -> Seq<u32> {
    Seq::new(bytes.len() / 4, |i: int| le_word(bytes, i))
}

/// A length beyond the table falls back on the last complete vector: where
/// vectors are as long as they are apart and the buffer holds at least one,
/// a token count whose own vector the buffer does not hold gets the last
/// vector that the buffer holds whole.
pub proof fn lemma_style_beyond_table(data: Seq<u32>, dimension: nat, token_count: nat)
    requires
        dimension > 0,
        data.len() >= dimension,
        token_count * dimension + dimension > data.len(),
    ensures
        last_complete(data.len(), dimension) is Some,
        last_complete(data.len(), dimension)->Some_0 + dimension <= data.len(),
        last_complete(data.len(), dimension)->Some_0 % dimension == 0,
        data.len() - last_complete(data.len(), dimension)->Some_0 < 2 * dimension,
        style_vector(data, dimension, token_count, dimension) == data.subrange(
            last_complete(data.len(), dimension)->Some_0 as int,
            (last_complete(data.len(), dimension)->Some_0 + dimension) as int,
        ),
{
    let len = data.len() as int;
    let d = dimension as int;
    let q = len / d;
    lemma_fundamental_div_mod(len, d);
    lemma_mod_bound(len, d);
    assert(q >= 1) by (nonlinear_arith)
        requires
            d > 0,
            len == d * q + len % d,
            len % d < d,
            len >= d,
    ;
    assert(q * d == d * q) by (nonlinear_arith);
    assert(d * q - d == d * (q - 1)) by (nonlinear_arith);
    assert(d * q >= d) by (nonlinear_arith)
        requires
            d > 0,
            q >= 1,
    ;
    vstd::arithmetic::div_mod::lemma_mod_multiples_basic(q - 1, d);
    assert((q - 1) * d == d * (q - 1)) by (nonlinear_arith);
}

/// The values of `data` from `from` up to `to`.
fn copy_range(data: &Vec<u32>, from: usize, to: usize) -> (out: Vec<u32>)
    requires
        from <= to <= data.len(),
    ensures
        out@ == data@.subrange(from as int, to as int),
{
    let mut out: Vec<u32> = Vec::new();
    let mut i: usize = from;
    while i < to
        invariant
            from <= i <= to <= data.len(),
            out@ == data@.subrange(from as int, i as int),
        decreases to - i,
    {
        out.push(data[i]);
        proof {
            assert(out@ =~= data@.subrange(from as int, i + 1));
        }
        i += 1;
    }
    out
}

/// The style table of one voice.
pub struct VoiceStyle {
    /// The values of all vectors, one vector after the other.
    pub data: Vec<u32>,
    /// The number of values from one vector to the next.
    pub vector_size: usize,
}

impl VoiceStyle {
    /// The table with the values `data`, read as vectors of `vector_size`
    /// values.
    pub fn new(data: Vec<u32>, vector_size: usize) -> (style: VoiceStyle)
        ensures
            style.data@ == data@,
            style.vector_size == vector_size,
    {
        VoiceStyle { data, vector_size }
    }

    /// The first `size` values of the table, padded with zeros to `size`.
    pub fn get_style_vector(&self, size: usize) -> (out: Vec<u32>)
        ensures
            out@ == padded_prefix(self.data@, size as nat),
            out@.len() == size,
    {
        let mut out: Vec<u32> = Vec::new();
        let mut i: usize = 0;
        while i < size
            invariant
                i <= size,
                out@ == padded_prefix(self.data@, i as nat),
            decreases size - i,
        {
            if i < self.data.len() {
                out.push(self.data[i]);
            } else {
                out.push(0);
            }
            proof {
                assert(out@ =~= padded_prefix(self.data@, (i + 1) as nat));
            }
            i += 1;
        }
        out
    }

    /// The style vector of `vector_size` values for an utterance of
    /// `token_length` tokens. The result always has `vector_size` values.
    pub fn get_style_vector_for_token_length(&self, token_length: usize, vector_size: usize) -> (out:
        Vec<u32>)
        ensures
            out@ == style_vector(
                self.data@,
                self.vector_size as nat,
                token_length as nat,
                vector_size as nat,
            ),
            out@.len() == vector_size,
    {
        let len = self.data.len();
        let stride = self.vector_size;
        let ghost offset = token_length as nat * stride as nat;
        if vector_size <= len {
            let room = len - vector_size;
            match token_length.checked_mul(stride) {
                Some(start) => {
                    if start <= room {
                        return copy_range(&self.data, start, start + vector_size);
                    }
                },
                None => {},
            }
        }
        assert(offset + vector_size > len);
        if stride > 0 && len >= stride {
            let whole = len - len % stride;
            proof {
                let q = len as int / stride as int;
                lemma_fundamental_div_mod(len as int, stride as int);
                lemma_mod_bound(len as int, stride as int);
                assert(whole == stride * q);
                assert(q >= 1) by (nonlinear_arith)
                    requires
                        stride > 0,
                        len < stride * q + stride,
                        len >= stride,
                ;
                assert(stride * q >= stride) by (nonlinear_arith)
                    requires
                        stride > 0,
                        q >= 1,
                ;
                assert(q * stride == stride * q) by (nonlinear_arith);
            }
            let start = whole - stride;
            assert(last_complete(len as nat, stride as nat) == Some(start as nat));
            if vector_size <= len && start <= len - vector_size {
                return copy_range(&self.data, start, start + vector_size);
            }
        }
        self.get_style_vector(vector_size)
    }
}

/// Reads the style table of a voice from the bytes of its file: little-endian
/// 32-bit values, as vectors of 256 values.
pub fn load_voice_style(bytes: &[u8]) -> (style: VoiceStyle)
    ensures
        style.data@ == le_words(bytes@),
        style.vector_size == STYLE_DIMENSION,
{
    let count = bytes.len() / 4;
    let mut data: Vec<u32> = Vec::new();
    let mut i: usize = 0;
    while i < count
        invariant
            count == bytes.len() / 4,
            i <= count,
            data@.len() == i,
            forall|j: int| 0 <= j < i ==> #[trigger] data@[j] == le_word(bytes@, j),
        decreases count - i,
    {
        let b0 = bytes[4 * i] as u32;
        let b1 = bytes[4 * i + 1] as u32;
        let b2 = bytes[4 * i + 2] as u32;
        let b3 = bytes[4 * i + 3] as u32;
        data.push(b0 + 256 * b1 + 65536 * b2 + 16777216 * b3);
        i += 1;
    }
    proof {
        assert(data@ =~= le_words(bytes@));
    }
    VoiceStyle { data, vector_size: STYLE_DIMENSION }
}

} // verus!
