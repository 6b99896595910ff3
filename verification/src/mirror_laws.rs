//! What holds of the mirror images of every well-formed buffer.
use crate::mirror::{
    lemma_source_index, lemma_whole_rows_are_whole_pixels, mirrored_both, mirrored_chunks,
    mirrored_pixels, mirrored_rows, source_index, whole_chunks, whole_pixels, whole_rows,
    BYTES_PER_PIXEL,
};
use vstd::arithmetic::div_mod::{
    lemma_fundamental_div_mod, lemma_fundamental_div_mod_converse, lemma_mod_mod, lemma_small_mod,
};
use vstd::prelude::*;

verus! {

/// A mirror image is as long as the buffer it was made from.
pub proof fn lemma_mirrors_preserve_length(buffer: Seq<u8>, height: int)
    ensures
        mirrored_pixels(buffer).len() == buffer.len(),
        mirrored_rows(buffer, height).len() == buffer.len(),
        mirrored_both(buffer, height).len() == buffer.len(),
{
}

/// The chunk at position `k` of a mirror image is the chunk at position `k`
/// from the end of the buffer, byte for byte.
pub proof fn lemma_mirrored_chunk(buffer: Seq<u8>, chunk: int, k: int)
    requires
        whole_chunks(buffer.len() as int, chunk),
        0 <= k,
        (k + 1) * chunk <= buffer.len(),
    ensures
        mirrored_chunks(buffer, chunk).subrange(k * chunk, (k + 1) * chunk) == buffer.subrange(
            buffer.len() - (k + 1) * chunk,
            buffer.len() - k * chunk,
        ),
{
    let len = buffer.len() as int;
    let begin = k * chunk;
    assert((k + 1) * chunk == begin + chunk) by (nonlinear_arith)
        requires
            begin == k * chunk,
    ;
    assert(0 <= begin) by (nonlinear_arith)
        requires
            begin == k * chunk,
            0 <= k,
            0 < chunk,
    ;
    let image = mirrored_chunks(buffer, chunk).subrange(begin, begin + chunk);
    let source = buffer.subrange(len - begin - chunk, len - begin);
    assert forall|offset: int| 0 <= offset < chunk implies image[offset] == source[offset] by {
        lemma_fundamental_div_mod_converse(begin + offset, chunk, k, offset);
    }
    assert(image =~= source);
}

/// Mirroring the chunks of a buffer twice gives the buffer back.
pub proof fn lemma_mirrored_chunks_involution(buffer: Seq<u8>, chunk: int)
    requires
        whole_chunks(buffer.len() as int, chunk),
    ensures
        mirrored_chunks(mirrored_chunks(buffer, chunk), chunk) == buffer,
{
    let len = buffer.len() as int;
    let once = mirrored_chunks(buffer, chunk);
    let twice = mirrored_chunks(once, chunk);
    assert forall|i: int| 0 <= i < len implies twice[i] == buffer[i] by {
        lemma_source_index(len, chunk, i);
        let j = source_index(len, chunk, i);
        assert(source_index(len, chunk, j) == i);
    }
    assert(twice =~= buffer);
}

/// Mirroring the pixels of a buffer twice gives the buffer back.
pub proof fn lemma_mirrored_pixels_involution(buffer: Seq<u8>)
    requires
        whole_pixels(buffer.len() as int),
    ensures
        mirrored_pixels(mirrored_pixels(buffer)) == buffer,
{
    lemma_mirrored_chunks_involution(buffer, BYTES_PER_PIXEL as int);
}

/// Mirroring the rows of a buffer twice gives the buffer back.
pub proof fn lemma_mirrored_rows_involution(buffer: Seq<u8>, height: int)
    requires
        whole_rows(buffer.len() as int, height),
    ensures
        mirrored_rows(mirrored_rows(buffer, height), height) == buffer,
{
    lemma_mirrored_chunks_involution(buffer, BYTES_PER_PIXEL * height);
}

/// Mirroring pixels and mirroring rows commute, and either order gives the
/// image mirrored across both axes.
pub proof fn lemma_mirrors_commute(buffer: Seq<u8>, height: int)
    requires
        whole_rows(buffer.len() as int, height),
    ensures
        mirrored_pixels(mirrored_rows(buffer, height)) == mirrored_rows(
            mirrored_pixels(buffer),
            height,
        ),
        mirrored_pixels(mirrored_rows(buffer, height)) == mirrored_both(buffer, height),
        mirrored_rows(mirrored_pixels(buffer), height) == mirrored_both(buffer, height),
{
    let len = buffer.len() as int;
    let pixel = BYTES_PER_PIXEL as int;
    let row = BYTES_PER_PIXEL * height;
    let rows_then_pixels = mirrored_pixels(mirrored_rows(buffer, height));
    let pixels_then_rows = mirrored_rows(mirrored_pixels(buffer), height);
    lemma_whole_rows_are_whole_pixels(len, height);
    assert forall|i: int| 0 <= i < len implies rows_then_pixels[i] == pixels_then_rows[i] by {
        lemma_source_index(len, pixel, i);
        lemma_source_index(len, row, i);
        let by_pixel = source_index(len, pixel, i);
        let by_row = source_index(len, row, i);
        lemma_source_index(len, row, by_pixel);
        lemma_source_index(len, pixel, by_row);
        lemma_commuting_sources(len, height, i);
    }
    assert(rows_then_pixels =~= pixels_then_rows);
}

/// The source of a byte under both mirrors is the same in either order.
proof fn lemma_commuting_sources(len: int, height: int, i: int)
    requires
        whole_rows(len, height),
        0 <= i < len,
    ensures
        source_index(len, BYTES_PER_PIXEL * height, source_index(len, BYTES_PER_PIXEL as int, i))
            == source_index(
            len,
            BYTES_PER_PIXEL as int,
            source_index(len, BYTES_PER_PIXEL * height, i),
        ),
{
    let pixel = BYTES_PER_PIXEL as int;
    let row = BYTES_PER_PIXEL * height;
    let in_pixel = i % pixel;
    let in_row = i % row;
    let by_pixel = source_index(len, pixel, i);
    let by_row = source_index(len, row, i);
    lemma_whole_rows_are_whole_pixels(len, height);
    lemma_source_index(len, pixel, i);
    lemma_source_index(len, row, i);
    // A byte's place in its pixel is the place in its pixel of its offset
    // into the row, and the row mirror keeps that offset.
    assert(in_row % pixel == in_pixel) by {
        lemma_mod_mod(i, pixel, height);
    }
    assert(by_row % pixel == in_pixel) by {
        lemma_mod_mod(by_row, pixel, height);
    }
    // The pixel mirror turns the offset into the row round, pixel by pixel.
    assert(by_pixel % row == row - pixel - in_row + 2 * in_pixel) by {
        lemma_fundamental_div_mod(len, row);
        lemma_fundamental_div_mod(i, row);
        let k = len / row - 1 - i / row;
        assert(by_pixel == k * row + (row - pixel - in_row + 2 * in_pixel)) by (nonlinear_arith)
            requires
                by_pixel == len - pixel - i + 2 * in_pixel,
                len == row * (len / row),
                i == row * (i / row) + in_row,
                k == len / row - 1 - i / row,
        ;
        lemma_fundamental_div_mod_converse(
            by_pixel,
            row,
            k,
            row - pixel - in_row + 2 * in_pixel,
        );
    }
}

/// Mirroring a buffer across both axes twice gives the buffer back.
pub proof fn lemma_mirrored_both_involution(buffer: Seq<u8>, height: int)
    requires
        whole_rows(buffer.len() as int, height),
    ensures
        mirrored_both(mirrored_both(buffer, height), height) == buffer,
{
    let len = buffer.len() as int;
    let rows = mirrored_rows(buffer, height);
    lemma_whole_rows_are_whole_pixels(len, height);
    // Move the inner pixel mirror outwards, past the outer row mirror.
    lemma_mirrors_commute(mirrored_pixels(rows), height);
    lemma_mirrored_pixels_involution(rows);
    lemma_mirrored_rows_involution(buffer, height);
}

/// Mirroring the rows of an image that is a single row changes nothing.
pub proof fn lemma_single_row_is_unchanged(buffer: Seq<u8>, height: int)
    requires
        buffer.len() == BYTES_PER_PIXEL * height,
    ensures
        mirrored_rows(buffer, height) == buffer,
{
    let len = buffer.len() as int;
    assert forall|i: int| 0 <= i < len implies source_index(len, len, i) == i by {
        lemma_small_mod(i as nat, len as nat);
    }
    assert(mirrored_rows(buffer, height) =~= buffer);
}

/// Mirroring rows of one pixel is mirroring pixels.
pub proof fn lemma_rows_of_one_pixel(buffer: Seq<u8>)
    ensures
        mirrored_rows(buffer, 1) == mirrored_pixels(buffer),
{
}

} // verus!
