//! The integer side of one capture: quantizing scaled samples to 16 bits,
//! collecting them, and thinning the collected chunk by a fixed stride.
use vstd::prelude::*;

verus! {

/// Of the samples collected during one capture, every this-many-th is kept.
pub const DOWNSAMPLE_STRIDE: usize = 3;

/// `v` held to the range of `i16`.
pub open spec fn saturate(v: int) -> i16 {
    if v > i16::MAX as int {
        i16::MAX
    } else if v < i16::MIN as int {
        i16::MIN
    } else {
        v as i16
    }
}

/// The samples of `s` at indices `0, step, 2 * step, ...`.
pub open spec fn every_nth(s: Seq<i16>, step: nat) -> Seq<i16>
    recommends
        step > 0,
{
    Seq::new(
        ((s.len() + step - 1) / step as int) as nat,
        |i: int| s[i * step],
    )
}

/// Quantizes one sample, given as its amplitude times 32768 already rounded
/// to an integer: values past the range of `i16` saturate at its ends.
pub fn quantize(scaled: i32) -> (r: i16)
    ensures
        r == saturate(scaled as int),
{
    if scaled > i16::MAX as i32 {
        i16::MAX
    } else if scaled < i16::MIN as i32 {
        i16::MIN
    } else {
        scaled as i16
    }
}

/// Quantizes each of `scaled` and appends the results to `acc`, in order.
pub fn quantize_into(acc: &mut Vec<i16>, scaled: &[i32])
    ensures
        final(acc)@.len() == old(acc)@.len() + scaled@.len(),
        final(acc)@.subrange(0, old(acc)@.len() as int) == old(acc)@,
        forall|i: int|
            0 <= i < scaled@.len() ==> #[trigger] final(acc)@[old(acc)@.len() + i] == saturate(
                scaled@[i] as int,
            ),
{
    let ghost start = acc@;
    let mut i: usize = 0;
    while i < scaled.len()
        invariant
            i <= scaled@.len(),
            acc@.len() == start.len() + i,
            acc@.subrange(0, start.len() as int) == start,
            forall|j: int| 0 <= j < i ==> #[trigger] acc@[start.len() + j] == saturate(scaled@[j] as int),
        decreases scaled@.len() - i,
    {
        let q = quantize(scaled[i]);
        acc.push(q);
        assert(acc@.subrange(0, start.len() as int) =~= start);
        i += 1;
    }
}

/// The samples of `data` at indices `0, step, 2 * step, ...`, in order.
pub fn downsample(data: &[i16], step: usize) -> (r: Vec<i16>)
    requires
        step > 0,
    ensures
        r@ == every_nth(data@, step as nat),
{
    let len = data.len();
    proof {
        if len % step != 0 {
            assert(len / step < len) by (nonlinear_arith)
                requires
                    len % step != 0,
                    step > 0,
            ;
        }
    }
    let n: usize = if len % step == 0 {
        len / step
    } else {
        len / step + 1
    };
    proof {
        lemma_ceil_div(len as int, step as int);
    }
    let mut r: Vec<i16> = Vec::with_capacity(n);
    let mut k: usize = 0;
    while k < n
        invariant
            step > 0,
            len == data@.len(),
            n == (len + step - 1) / step as int,
            forall|j: int| 0 <= j < n ==> #[trigger] (j * step) < len,
            k <= n,
            r@.len() == k,
            forall|j: int| 0 <= j < k ==> #[trigger] r@[j] == data@[j * step],
        decreases n - k,
    {
        assert(k * step < len);
        r.push(data[k * step]);
        k += 1;
    }
    assert(r@ =~= every_nth(data@, step as nat));
    r
}

/// The ceiling of `len / step`, and the indices below it that stay in range.
proof fn lemma_ceil_div(len: int, step: int)
    requires
        len >= 0,
        step > 0,
    ensures
        (len + step - 1) / step == if len % step == 0 {
            len / step
        } else {
            len / step + 1
        },
        forall|j: int|
            0 <= j < (len + step - 1) / step ==> #[trigger] (j * step) < len,
{
    assert((len + step - 1) / step == if len % step == 0 {
        len / step
    } else {
        len / step + 1
    }) by (nonlinear_arith)
        requires
            len >= 0,
            step > 0,
    ;
    assert forall|j: int| 0 <= j < (len + step - 1) / step implies #[trigger] (j * step) < len by {
        assert(j * step < len) by (nonlinear_arith)
            requires
                0 <= j < (len + step - 1) / step,
                len >= 0,
                step > 0,
        ;
    }
}

} // verus!
