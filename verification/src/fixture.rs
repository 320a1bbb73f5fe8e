//! Fixture construction: flat byte blocks made of one repeated pixel.

use vstd::prelude::*;

verus! {

/// `count` repetitions of `pixel`, laid out back to back.
pub open spec fn repeat_bytes(pixel: Seq<u8>, count: nat) -> Seq<u8>
    decreases count,
{
    if count == 0 {
        Seq::empty()
    } else {
        repeat_bytes(pixel, (count - 1) as nat) + pixel
    }
}

pub proof fn lemma_repeat_bytes_len(pixel: Seq<u8>, count: nat)
    ensures
        repeat_bytes(pixel, count).len() == count * pixel.len(),
    decreases count,
{
    if count == 0 {
        assert(count * pixel.len() == 0) by (nonlinear_arith)
            requires
                count == 0,
        ;
    } else {
        lemma_repeat_bytes_len(pixel, (count - 1) as nat);
        assert(count * pixel.len() == (count - 1) * pixel.len() + pixel.len())
            by (nonlinear_arith);
    }
}

/// Each byte of a repeated block comes from the pixel, at the offset the
/// byte has within its own repetition.
pub proof fn lemma_repeat_bytes_index(pixel: Seq<u8>, count: nat, i: int)
    requires
        pixel.len() > 0,
        0 <= i < count * pixel.len(),
    ensures
        repeat_bytes(pixel, count).len() == count * pixel.len(),
        repeat_bytes(pixel, count)[i] == pixel[i % pixel.len() as int],
    decreases count,
{
    lemma_repeat_bytes_len(pixel, count);
    let n = pixel.len() as int;
    if i < (count - 1) * n {
        lemma_repeat_bytes_index(pixel, (count - 1) as nat, i);
    } else {
        lemma_repeat_bytes_len(pixel, (count - 1) as nat);
        let j = i - (count - 1) * n;
        assert(repeat_bytes(pixel, count)[i] == pixel[j]);
        assert(i == (count - 1) * n + j && 0 <= j < n ==> i % n == j)
            by (nonlinear_arith);
    }
}

/// A `width` by `height` block of one repeated pixel, in row-major order,
/// with no padding: exactly `width * height` copies of `pixel`.
pub fn create_texture_data(width: usize, height: usize, pixel: &[u8]) -> (data: Vec<u8>)
    requires
        width * height <= usize::MAX,
    ensures
        data@ == repeat_bytes(pixel@, (width * height) as nat),
        data@.len() == width * height * pixel@.len(),
{
    let count = width * height;
    let mut data: Vec<u8> = Vec::new();
    let mut i: usize = 0;
    while i < count
        invariant
            i <= count,
            data@ == repeat_bytes(pixel@, i as nat),
        decreases count - i,
    {
        let mut j: usize = 0;
        while j < pixel.len()
            invariant
                j <= pixel@.len(),
                data@ == repeat_bytes(pixel@, i as nat) + pixel@.take(j as int),
            decreases pixel@.len() - j,
        {
            data.push(pixel[j]);
            proof {
                assert(pixel@.take(j + 1) =~= pixel@.take(j as int).push(pixel@[j as int]));
                assert(data@ =~= repeat_bytes(pixel@, i as nat) + pixel@.take(j + 1));
            }
            j = j + 1;
        }
        proof {
            assert(pixel@.take(pixel@.len() as int) =~= pixel@);
            assert(data@ =~= repeat_bytes(pixel@, (i + 1) as nat));
        }
        i = i + 1;
    }
    proof {
        lemma_repeat_bytes_len(pixel@, count as nat);
    }
    data
}

} // verus!
