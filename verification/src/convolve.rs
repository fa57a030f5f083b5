//! Direct convolution on 16-bit samples.
//!
//! The compute core of the raw-buffer helpers: each output position is
//! the dot product of the kernel with the samples at and after that
//! position, truncated at the end of the data. The arithmetic is carried
//! out in 16-bit integers, exactly as the callers store it, so the
//! contract demands that every intermediate product and partial sum be
//! representable.

use vstd::prelude::*;

verus! {

/// Partial convolution sum at output position `i`: the first `j` kernel
/// terms, skipping terms that fall off the end of the data.
pub open spec fn conv_partial(data: Seq<i16>, kernel: Seq<i16>, i: int, j: int) -> int
    decreases j,
{
    if j <= 0 {
        0
    } else {
        conv_partial(data, kernel, i, j - 1) + (if i + (j - 1) < data.len() {
            data[i + (j - 1)] * kernel[j - 1]
        } else {
            0
        })
    }
}

/// Convolve `data` with `kernel`, output aligned with `data`.
pub fn convolution(data: &[i16], kernel: &[i16]) -> (r: Vec<i16>)
    requires
        forall|i: int, j: int|
            0 <= i < data@.len() && 0 <= j < kernel@.len() && i + j < data@.len()
                ==> i16::MIN <= #[trigger] (data@[i + j] * kernel@[j]) <= i16::MAX,
        forall|i: int, j: int|
            0 <= i < data@.len() && 0 <= j <= kernel@.len() ==> i16::MIN
                <= #[trigger] conv_partial(data@, kernel@, i, j) <= i16::MAX,
    ensures
        r@.len() == data@.len(),
        forall|i: int|
            0 <= i < data@.len() ==> #[trigger] r@[i] == conv_partial(data@, kernel@, i,
                kernel@.len() as int),
{
    let d_len = data.len();
    let k_len = kernel.len();
    let mut result: Vec<i16> = Vec::new();
    let mut i: usize = 0;
    while i < d_len
        invariant
            i <= d_len,
            d_len == data@.len(),
            k_len == kernel@.len(),
            result@.len() == i,
            forall|i2: int, j: int|
                0 <= i2 < data@.len() && 0 <= j < kernel@.len() && i2 + j < data@.len()
                    ==> i16::MIN <= #[trigger] (data@[i2 + j] * kernel@[j]) <= i16::MAX,
            forall|i2: int, j: int|
                0 <= i2 < data@.len() && 0 <= j <= kernel@.len() ==> i16::MIN
                    <= #[trigger] conv_partial(data@, kernel@, i2, j) <= i16::MAX,
            forall|i2: int|
                0 <= i2 < i ==> #[trigger] result@[i2] == conv_partial(data@, kernel@, i2,
                    kernel@.len() as int),
        decreases d_len - i,
    {
        let mut sum: i16 = 0;
        let mut j: usize = 0;
        while j < k_len
            invariant
                i < d_len,
                j <= k_len,
                d_len == data@.len(),
                k_len == kernel@.len(),
                sum == conv_partial(data@, kernel@, i as int, j as int),
                forall|i2: int, j2: int|
                    0 <= i2 < data@.len() && 0 <= j2 < kernel@.len() && i2 + j2 < data@.len()
                        ==> i16::MIN <= #[trigger] (data@[i2 + j2] * kernel@[j2]) <= i16::MAX,
                forall|i2: int, j2: int|
                    0 <= i2 < data@.len() && 0 <= j2 <= kernel@.len() ==> i16::MIN
                        <= #[trigger] conv_partial(data@, kernel@, i2, j2) <= i16::MAX,
            decreases k_len - j,
        {
            if j < d_len - i {
                proof {
                    assert(i16::MIN <= conv_partial(data@, kernel@, i as int, j as int + 1)
                        <= i16::MAX);
                }
                sum = sum + data[i + j] * kernel[j];
            }
            j = j + 1;
        }
        result.push(sum);
        i = i + 1;
    }
    result
}

} // verus!
