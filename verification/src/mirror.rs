//! Mirror images of a packed bitmap.
//!
//! A buffer is cut into contiguous chunks of equal size: single pixels of
//! three bytes, or whole rows of `height` pixels. Mirroring reverses the
//! order of the chunks and keeps the bytes inside each chunk as they are.
use vstd::arithmetic::div_mod::{
    lemma_fundamental_div_mod, lemma_fundamental_div_mod_converse, lemma_mod_is_zero,
    lemma_mod_mod, lemma_mod_self_0, lemma_multiply_divide_lt,
};
use vstd::prelude::*;

verus! {

/// The number of bytes that one pixel takes.
pub const BYTES_PER_PIXEL: usize = 3;

/// The position in the source buffer of byte `i` of its mirror image.
///
/// Byte `i` sits `i % chunk` bytes into the chunk that begins at
/// `i - i % chunk`. That chunk is taken from the one that lies as far from
/// the end of the source as it lies from the beginning of the image.
pub open spec fn source_index(len: int, chunk: int, i: int) -> int {
    let offset = i % chunk;
    let begin = i - offset;
    (len - chunk - begin) + offset
}

/// `buffer` with the order of its chunks of `chunk` bytes reversed.
pub open spec fn mirrored_chunks(buffer: Seq<u8>, chunk: int) -> Seq<u8> {
    Seq::new(buffer.len(), |i: int| buffer[source_index(buffer.len() as int, chunk, i)])
}

/// `buffer` with the order of its pixels reversed.
pub open spec fn mirrored_pixels(buffer: Seq<u8>) -> Seq<u8> {
    mirrored_chunks(buffer, BYTES_PER_PIXEL as int)
}

/// `buffer` with the order of its rows of `height` pixels reversed.
pub open spec fn mirrored_rows(buffer: Seq<u8>, height: int) -> Seq<u8> {
    mirrored_chunks(buffer, BYTES_PER_PIXEL * height)
}

/// `buffer` mirrored across both axes: rows first, then pixels.
pub open spec fn mirrored_both(buffer: Seq<u8>, height: int) -> Seq<u8> {
    mirrored_pixels(mirrored_rows(buffer, height))
}

/// Whether a buffer of `len` bytes is a whole number of chunks of `chunk`
/// bytes.
pub open spec fn whole_chunks(len: int, chunk: int) -> bool {
    chunk > 0 && len % chunk == 0
}

/// Whether a buffer of `len` bytes is a whole number of pixels.
pub open spec fn whole_pixels(len: int) -> bool {
    whole_chunks(len, BYTES_PER_PIXEL as int)
}

/// Whether a buffer of `len` bytes is a whole number of rows of `height`
/// pixels.
pub open spec fn whole_rows(len: int, height: int) -> bool {
    height > 0 && whole_chunks(len, BYTES_PER_PIXEL * height)
}

/// The source of a byte lies inside the buffer, at the same offset into its
/// chunk as the byte itself.
pub proof fn lemma_source_index(len: int, chunk: int, i: int)
    requires
        whole_chunks(len, chunk),
        0 <= i < len,
    ensures
        0 <= source_index(len, chunk, i) < len,
        source_index(len, chunk, i) % chunk == i % chunk,
        source_index(len, chunk, i) - i % chunk == len - chunk - (i - i % chunk),
{
    let n = len / chunk;
    let q = i / chunk;
    let k = n - 1 - q;
    lemma_fundamental_div_mod(len, chunk);
    lemma_fundamental_div_mod(i, chunk);
    assert(0 <= q) by (nonlinear_arith)
        requires
            chunk > 0,
            0 <= i,
            q == i / chunk,
    ;
    lemma_multiply_divide_lt(i, chunk, n);
    assert(chunk * n - chunk - chunk * q == k * chunk && 0 <= k * chunk && k * chunk + chunk
        <= chunk * n) by (nonlinear_arith)
        requires
            k == n - 1 - q,
            0 <= q < n,
            chunk > 0,
    ;
    lemma_fundamental_div_mod_converse(source_index(len, chunk, i), chunk, k, i % chunk);
}

/// Reverses the order of the chunks of `chunk` bytes that `buffer` is made
/// of.
pub fn reverse_chunks(buffer: &[u8], chunk: usize) -> (mirrored: Vec<u8>)
    requires
        whole_chunks(buffer@.len() as int, chunk as int),
    ensures
        mirrored@ == mirrored_chunks(buffer@, chunk as int),
        mirrored@.len() == buffer@.len(),
{
    let len: usize = buffer.len();
    let mut mirrored: Vec<u8> = Vec::with_capacity(len);
    // The chunks from `remaining` to the end of the buffer are copied.
    let mut remaining: usize = len;
    while remaining > 0
        invariant
            chunk > 0,
            len == buffer@.len(),
            len % chunk == 0,
            remaining <= len,
            remaining % chunk == 0,
            mirrored@.len() == len - remaining,
            forall|i: int|
                0 <= i < mirrored@.len() ==> mirrored@[i] == buffer@[source_index(
                    len as int,
                    chunk as int,
                    i,
                )],
        decreases remaining,
    {
        proof {
            lemma_mod_is_zero(remaining as nat, chunk as nat);
        }
        let begin: usize = remaining - chunk;
        let copied: usize = len - remaining;
        proof {
            lemma_shifted_by_chunks(len as int, remaining as int, chunk as int);
        }
        let mut offset: usize = 0;
        while offset < chunk
            invariant
                chunk > 0,
                len == buffer@.len(),
                len % chunk == 0,
                chunk <= remaining <= len,
                remaining % chunk == 0,
                begin == remaining - chunk,
                copied == len - remaining,
                copied % chunk == 0,
                offset <= chunk,
                mirrored@.len() == copied + offset,
                forall|i: int|
                    0 <= i < mirrored@.len() ==> mirrored@[i] == buffer@[source_index(
                        len as int,
                        chunk as int,
                        i,
                    )],
            decreases chunk - offset,
        {
            proof {
                lemma_offset_in_chunk(copied as int, chunk as int, offset as int);
            }
            mirrored.push(buffer[begin + offset]);
            offset += 1;
        }
        proof {
            lemma_mod_self_0(chunk as int);
            lemma_shifted_by_chunks(remaining as int, chunk as int, chunk as int);
        }
        remaining = begin;
    }
    assert(mirrored@ =~= mirrored_chunks(buffer@, chunk as int));
    mirrored
}

/// What is left of a whole number of chunks after a whole number of chunks
/// is taken away is a whole number of chunks.
proof fn lemma_shifted_by_chunks(len: int, part: int, chunk: int)
    requires
        chunk > 0,
        len % chunk == 0,
        part % chunk == 0,
    ensures
        (len - part) % chunk == 0,
{
    lemma_fundamental_div_mod(len, chunk);
    lemma_fundamental_div_mod(part, chunk);
    let k = len / chunk - part / chunk;
    assert(len - part == k * chunk + 0) by (nonlinear_arith)
        requires
            len == chunk * (len / chunk),
            part == chunk * (part / chunk),
            k == len / chunk - part / chunk,
    ;
    lemma_fundamental_div_mod_converse(len - part, chunk, k, 0);
}

/// A byte that lies `offset` bytes past a chunk boundary has that offset
/// into its chunk.
proof fn lemma_offset_in_chunk(boundary: int, chunk: int, offset: int)
    requires
        chunk > 0,
        boundary % chunk == 0,
        0 <= offset < chunk,
    ensures
        (boundary + offset) % chunk == offset,
{
    lemma_fundamental_div_mod(boundary, chunk);
    assert(boundary + offset == (boundary / chunk) * chunk + offset) by (nonlinear_arith)
        requires
            boundary == chunk * (boundary / chunk),
    ;
    lemma_fundamental_div_mod_converse(boundary + offset, chunk, boundary / chunk, offset);
}

/// Reverses the order of the pixels of `buffer`.
pub fn mirror_pixels(buffer: &[u8]) -> (mirrored: Vec<u8>)
    requires
        whole_pixels(buffer@.len() as int),
    ensures
        mirrored@ == mirrored_pixels(buffer@),
        mirrored@.len() == buffer@.len(),
{
    reverse_chunks(buffer, BYTES_PER_PIXEL)
}

/// Reverses the order of the rows of `height` pixels of `buffer`.
pub fn mirror_rows(buffer: &[u8], height: usize) -> (mirrored: Vec<u8>)
    requires
        whole_rows(buffer@.len() as int, height as int),
    ensures
        mirrored@ == mirrored_rows(buffer@, height as int),
        mirrored@.len() == buffer@.len(),
{
    if buffer.len() == 0 {
        let mirrored: Vec<u8> = Vec::new();
        assert(mirrored@ =~= mirrored_rows(buffer@, height as int));
        return mirrored;
    }
    proof {
        lemma_mod_is_zero(buffer@.len(), (BYTES_PER_PIXEL * height) as nat);
    }
    reverse_chunks(buffer, BYTES_PER_PIXEL * height)
}

/// Mirrors `buffer` across both axes: reverses the order of its rows of
/// `height` pixels, then the order of its pixels.
pub fn mirror_both(buffer: &[u8], height: usize) -> (mirrored: Vec<u8>)
    requires
        whole_rows(buffer@.len() as int, height as int),
    ensures
        mirrored@ == mirrored_both(buffer@, height as int),
        mirrored@.len() == buffer@.len(),
{
    let rows: Vec<u8> = mirror_rows(buffer, height);
    proof {
        lemma_whole_rows_are_whole_pixels(buffer@.len() as int, height as int);
    }
    mirror_pixels(rows.as_slice())
}

/// A whole number of rows is a whole number of pixels.
pub proof fn lemma_whole_rows_are_whole_pixels(len: int, height: int)
    requires
        len >= 0,
        whole_rows(len, height),
    ensures
        whole_pixels(len),
{
    lemma_mod_mod(len, BYTES_PER_PIXEL as int, height);
}

} // verus!
