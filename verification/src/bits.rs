//! Bit-level search for runs of free blocks inside one 64-block slot.

use vstd::prelude::*;
use vstd::std_specs::bits::axiom_u64_trailing_zeros;

verus! {

/// Size in bytes of one block; a slot holds 64 of them.
pub const BLOCK_SIZE: usize = 64;

/// Bit `i` of `map` is set (a set bit marks a free block).
pub open spec fn bit_set(map: u64, i: int) -> bool {
    0 <= i < 64 && (map >> (i as u64)) & 1u64 == 1u64
}

/// Blocks `pos .. pos + n` all lie inside the word and are all free.
pub open spec fn run_free(map: u64, pos: int, n: int) -> bool {
    &&& 0 <= pos
    &&& pos + n <= 64
    &&& forall|j: int| pos <= j < pos + n ==> #[trigger] bit_set(map, j)
}

/// Block index `pos` is a start address suitable for alignment `align`
/// (slots themselves are aligned to their whole size).
pub open spec fn block_aligned(pos: int, align: usize) -> bool {
    align <= BLOCK_SIZE || pos % (align as int / BLOCK_SIZE as int) == 0
}

/// `n` free blocks start at `pos`, and `pos` honours `align`.
pub open spec fn fits_at(map: u64, n: int, align: usize, pos: int) -> bool {
    run_free(map, pos, n) && block_aligned(pos, align)
}

/// `x` is a power of two.
pub open spec fn is_pow2(x: usize) -> bool {
    x != 0 && x & ((x - 1) as usize) == 0
}

proof fn lemma_and_shr1_bit(x: u64, i: u64)
    by (bit_vector)
    requires
        i < 64,
    ensures
        ((x & (x >> 1u64)) >> i) & 1u64 == 1u64 <==> ((x >> i) & 1u64 == 1u64 && i < 63 && (x
            >> ((i + 1) as u64)) & 1u64 == 1u64),
{
}

proof fn lemma_and_bit(x: u64, y: u64, i: u64)
    by (bit_vector)
    requires
        i < 64,
    ensures
        ((x & y) >> i) & 1u64 == 1u64 <==> ((x >> i) & 1u64 == 1u64 && (y >> i) & 1u64 == 1u64),
{
}

proof fn lemma_runs_step(map: u64, runs: u64, k: int)
    requires
        k >= 1,
        forall|i: int| 0 <= i < 64 ==> (#[trigger] bit_set(runs, i) <==> run_free(map, i, k)),
    ensures
        forall|i: int|
            0 <= i < 64 ==> (#[trigger] bit_set(runs & (runs >> 1u64), i) <==> run_free(
                map,
                i,
                k + 1,
            )),
{
    assert forall|i: int| 0 <= i < 64 implies (#[trigger] bit_set(runs & (runs >> 1u64), i)
        <==> run_free(map, i, k + 1)) by {
        lemma_and_shr1_bit(runs, i as u64);
        assert(bit_set(runs & (runs >> 1u64), i) <==> (bit_set(runs, i) && i < 63 && bit_set(
            runs,
            i + 1,
        )));
        if run_free(map, i, k + 1) {
            assert(run_free(map, i, k));
            if i < 63 {
                assert forall|j: int| i + 1 <= j < i + 1 + k implies #[trigger] bit_set(map, j) by {
                    assert(i <= j < i + k + 1);
                }
                assert(run_free(map, i + 1, k));
            }
        }
        if bit_set(runs, i) && i < 63 && bit_set(runs, i + 1) {
            assert(run_free(map, i, k));
            assert(run_free(map, i + 1, k));
            assert forall|j: int| i <= j < i + k + 1 implies #[trigger] bit_set(map, j) by {
                if j < i + k {
                } else {
                    assert(i + 1 <= j < i + 1 + k);
                }
            }
        }
    }
}

proof fn lemma_pow2_shift_cases(align: usize)
    by (bit_vector)
    requires
        align & ((align - 1) as usize) == 0,
        align > 64,
        align / 64 < 64,
    ensures
        align / 64 == 2 || align / 64 == 4 || align / 64 == 8 || align / 64 == 16 || align / 64
            == 32,
{
}


proof fn lemma_alignment_mask_bits(i: u64)
    by (bit_vector)
    requires
        i < 64,
    ensures
        (0x5555_5555_5555_5555u64 >> i) & 1u64 == 1u64 <==> i % 2 == 0,
        (0x1111_1111_1111_1111u64 >> i) & 1u64 == 1u64 <==> i % 4 == 0,
        (0x0101_0101_0101_0101u64 >> i) & 1u64 == 1u64 <==> i % 8 == 0,
        (0x0001_0001_0001_0001u64 >> i) & 1u64 == 1u64 <==> i % 16 == 0,
        (0x0000_0001_0000_0001u64 >> i) & 1u64 == 1u64 <==> i % 32 == 0,
        (1u64 >> i) & 1u64 == 1u64 <==> i == 0,
{
}

proof fn lemma_alignment_mask_values()
    by (bit_vector)
    ensures
        1u64 << 2u64 == 4u64,
        0xffff_ffff_ffff_ffffu64 / 3u64 == 0x5555_5555_5555_5555u64,
        1u64 << 4u64 == 16u64,
        0xffff_ffff_ffff_ffffu64 / 15u64 == 0x1111_1111_1111_1111u64,
        1u64 << 8u64 == 256u64,
        0xffff_ffff_ffff_ffffu64 / 255u64 == 0x0101_0101_0101_0101u64,
        1u64 << 16u64 == 0x10000u64,
        0xffff_ffff_ffff_ffffu64 / 0xffffu64 == 0x0001_0001_0001_0001u64,
        1u64 << 32u64 == 0x1_0000_0000u64,
        0xffff_ffff_ffff_ffffu64 / 0xffff_ffffu64 == 0x0000_0001_0000_0001u64,
{
}

/// No bit of zero is set.
pub proof fn lemma_zero_bit(i: u64)
    by (bit_vector)
    ensures
        (0u64 >> i) & 1u64 == 0u64,
{
}

proof fn lemma_shift_pos(s: u64)
    by (bit_vector)
    requires
        1 <= s < 64,
    ensures
        (1u64 << s) >= 2,
{
}

/// The positions that an alignment above one block allows, as a bit mask:
/// every `align / BLOCK_SIZE`-th block of the slot.
fn alignment_mask(align: usize) -> (m: u64)
    requires
        is_pow2(align),
        align > BLOCK_SIZE,
        align / BLOCK_SIZE < 64,
    ensures
        forall|i: int| 0 <= i < 64 ==> (#[trigger] bit_set(m, i) <==> block_aligned(i, align)),
{
    let shift = align / BLOCK_SIZE;
    proof {
        lemma_pow2_shift_cases(align);
        lemma_shift_pos(shift as u64);
        lemma_alignment_mask_values();
    }
    let m = u64::MAX / ((1u64 << (shift as u64)) - 1);
    proof {
        if shift == 2 {
            assert(m == 0x5555_5555_5555_5555u64);
            assert forall|i: int| 0 <= i < 64 implies (#[trigger] bit_set(m, i)
                <==> block_aligned(i, align)) by {
                lemma_alignment_mask_bits(i as u64);
            }
        } else if shift == 4 {
            assert(m == 0x1111_1111_1111_1111u64);
            assert forall|i: int| 0 <= i < 64 implies (#[trigger] bit_set(m, i)
                <==> block_aligned(i, align)) by {
                lemma_alignment_mask_bits(i as u64);
            }
        } else if shift == 8 {
            assert(m == 0x0101_0101_0101_0101u64);
            assert forall|i: int| 0 <= i < 64 implies (#[trigger] bit_set(m, i)
                <==> block_aligned(i, align)) by {
                lemma_alignment_mask_bits(i as u64);
            }
        } else if shift == 16 {
            assert(m == 0x0001_0001_0001_0001u64);
            assert forall|i: int| 0 <= i < 64 implies (#[trigger] bit_set(m, i)
                <==> block_aligned(i, align)) by {
                lemma_alignment_mask_bits(i as u64);
            }
        } else {
            assert(m == 0x0000_0001_0000_0001u64);
            assert forall|i: int| 0 <= i < 64 implies (#[trigger] bit_set(m, i)
                <==> block_aligned(i, align)) by {
                lemma_alignment_mask_bits(i as u64);
            }
        }
    }
    m
}

/// Finds where `n_blocks` contiguous free blocks start in the slot bitmap
/// `map` (set bits are free), at a position that honours `align`. Returns
/// the lowest such block index, or `None` when there is none. A request of
/// all 64 blocks gets block 0 without a look at the map: the caller has
/// already checked that the slot counts 64 free blocks, so it is empty. An
/// alignment of a whole slot or more is only asked for together with 64
/// blocks, or where no run of the requested length is free.
pub fn find_blocks(map: u64, n_blocks: u8, align: usize) -> (r: Option<usize>)
    requires
        n_blocks >= 1,
        is_pow2(align),
        align / BLOCK_SIZE >= 64 && n_blocks != 64 ==> n_blocks >= 2 && forall|p: int|
            !run_free(map, p, n_blocks as int),
    ensures
        n_blocks == 64 ==> r == Some(0usize),
        n_blocks != 64 ==> match r {
            Some(pos) => {
                &&& fits_at(map, n_blocks as int, align, pos as int)
                &&& forall|q: int| 0 <= q < pos ==> !fits_at(map, n_blocks as int, align, q)
            },
            None => forall|q: int| !fits_at(map, n_blocks as int, align, q),
        },
{
    if n_blocks == 64 {
        return Some(0);
    }
    let mut runs = map;
    let mut k: u8 = 1;
    proof {
        assert forall|i: int| 0 <= i < 64 implies (#[trigger] bit_set(runs, i) <==> run_free(
            map,
            i,
            1,
        )) by {
            if bit_set(runs, i) {
                assert forall|j: int| i <= j < i + 1 implies #[trigger] bit_set(map, j) by {
                    assert(j == i);
                }
            }
            if run_free(map, i, 1) {
                assert(bit_set(map, i));
            }
        }
    }
    while k < n_blocks
        invariant
            1 <= k <= n_blocks,
            n_blocks != 64,
            k >= 2 ==> runs != 0,
            forall|i: int| 0 <= i < 64 ==> (#[trigger] bit_set(runs, i) <==> run_free(map, i, k as int)),
        decreases n_blocks - k,
    {
        proof {
            lemma_runs_step(map, runs, k as int);
        }
        runs = runs & (runs >> 1u64);
        if runs == 0 {
            proof {
                assert forall|q: int| !fits_at(map, n_blocks as int, align, q) by {
                    if fits_at(map, n_blocks as int, align, q) {
                        assert(0 <= q < 64);
                        assert(run_free(map, q, k + 1)) by {
                            assert forall|j: int| q <= j < q + k + 1 implies #[trigger] bit_set(
                                map,
                                j,
                            ) by {
                                assert(q <= j < q + n_blocks);
                            }
                        }
                        lemma_zero_bit(q as u64);
                        assert(bit_set(runs, q));
                    }
                }
            }
            return None;
        }
        k = k + 1;
    }
    if align > BLOCK_SIZE {
        proof {
            if align / BLOCK_SIZE >= 64 {
                axiom_u64_trailing_zeros(runs);
                let t = vstd::std_specs::bits::u64_trailing_zeros(runs);
                assert(bit_set(runs, t as int));
                assert(run_free(map, t as int, n_blocks as int));
            }
        }
        let allowed = alignment_mask(align);
        proof {
            assert forall|i: int| 0 <= i < 64 implies (#[trigger] bit_set(runs & allowed, i) <==> (
            bit_set(runs, i) && bit_set(allowed, i))) by {
                lemma_and_bit(runs, allowed, i as u64);
            }
        }
        runs = runs & allowed;
    }
    proof {
        assert forall|i: int| 0 <= i < 64 implies (#[trigger] bit_set(runs, i) <==> fits_at(
            map,
            n_blocks as int,
            align,
            i,
        )) by {}
    }
    if runs != 0 {
        let tz = runs.trailing_zeros();
        proof {
            axiom_u64_trailing_zeros(runs);
            assert(bit_set(runs, tz as int));
            assert forall|q: int| 0 <= q < tz implies !fits_at(map, n_blocks as int, align, q) by {
                assert((runs >> (q as u64)) & 1u64 == 0u64);
                assert(!bit_set(runs, q));
            }
        }
        Some(tz as usize)
    } else {
        proof {
            assert forall|q: int| !fits_at(map, n_blocks as int, align, q) by {
                if fits_at(map, n_blocks as int, align, q) {
                    lemma_zero_bit(q as u64);
                    assert(bit_set(runs, q));
                }
            }
        }
        None
    }
}

} // verus!
