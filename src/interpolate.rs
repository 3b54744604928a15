use vstd::prelude::*;

use crate::layout::{flat, lemma_flat_in_bounds, lemma_flat_inverse};

verus! {

/// Whether entry (`row`, `col`) of a `dim`×`dim` matrix couples the last
/// dimension to another one: it lies in the last row or the last column,
/// and is not the bottom-right diagonal entry.
pub open spec fn is_coupling(dim: int, row: int, col: int) -> bool {
    &&& 1 <= dim
    &&& 0 <= row < dim
    &&& 0 <= col < dim
    &&& (row == dim - 1 || col == dim - 1)
    &&& row != col
}

/// Whether position `k` of the column-major storage of a `dim`×`dim`
/// matrix holds a coupling entry.
pub open spec fn is_coupling_at(dim: int, k: int) -> bool {
    is_coupling(dim, k % dim, k / dim)
}

/// `r` is what interpolating `base` gives when each coupling entry `x`
/// becomes a value `y` with `scale.ensures((x,), y)`, all others unchanged.
pub open spec fn interpolates<T, F: Fn(T) -> T>(base: Seq<T>, dim: int, scale: F, r: Seq<T>) -> bool {
    &&& r.len() == base.len()
    &&& forall|k: int|
        0 <= k < base.len() ==> {
            if is_coupling_at(dim, k) {
                scale.ensures((base[k],), #[trigger] r[k])
            } else {
                r[k] == base[k]
            }
        }
}

/// Copies the column-major `dim`×`dim` matrix `base`, passing every entry
/// of its last row and last column but the bottom-right diagonal one
/// through `scale` (a multiplication by the interpolation parameter).
pub fn scale_coupling<T: Copy, F: Fn(T) -> T>(base: &Vec<T>, dim: usize, scale: F) -> (r: Vec<T>)
    requires
        1 <= dim,
        base.len() == dim * dim,
        forall|x: T| scale.requires((x,)),
    ensures
        interpolates(base@, dim as int, scale, r@),
{
    let mut r: Vec<T> = Vec::new();
    let last: usize = dim - 1;
    let mut k: usize = 0;
    while k < base.len()
        invariant
            1 <= dim,
            last == dim - 1,
            base.len() == dim * dim,
            k <= base.len(),
            r.len() == k,
            forall|x: T| scale.requires((x,)),
            forall|j: int|
                0 <= j < k ==> {
                    if is_coupling_at(dim as int, j) {
                        scale.ensures((base[j],), #[trigger] r@[j])
                    } else {
                        r@[j] == base[j]
                    }
                },
        decreases base.len() - k,
    {
        let row: usize = k % dim;
        let col: usize = k / dim;
        if (row == last || col == last) && row != col {
            assert(col < dim) by {
                vstd::arithmetic::div_mod::lemma_div_by_multiple_is_strongly_ordered(
                    k as int, (dim * dim) as int, dim as int, dim as int);
                vstd::arithmetic::div_mod::lemma_div_multiples_vanish(dim as int, dim as int);
            }
            let y = scale(base[k]);
            r.push(y);
        } else {
            r.push(base[k]);
        }
        k = k + 1;
    }
    r
}

/// With a scaling that leaves every value as it is (a parameter of one),
/// interpolation gives the base matrix back, entry for entry.
pub proof fn lemma_identity_scale_keeps_base<T, F: Fn(T) -> T>(base: Seq<T>, dim: int, scale: F, r: Seq<T>)
    requires
        interpolates(base, dim, scale, r),
        forall|x: T, y: T| scale.ensures((x,), y) ==> y == x,
    ensures
        r == base,
{
    assert(r =~= base);
}

/// With a scaling that sends every value to `zero` (a parameter of zero),
/// the last row and column hold `zero` off the diagonal, the bottom-right
/// entry is that of the base matrix, and every other entry is unchanged:
/// the last dimension is decoupled from the rest.
pub proof fn lemma_zero_scale_decouples<T, F: Fn(T) -> T>(base: Seq<T>, dim: int, scale: F, r: Seq<T>, zero: T)
    requires
        1 <= dim,
        base.len() == dim * dim,
        interpolates(base, dim, scale, r),
        forall|x: T, y: T| scale.ensures((x,), y) ==> y == zero,
    ensures
        r[flat(dim, dim - 1, dim - 1)] == base[flat(dim, dim - 1, dim - 1)],
        forall|i: int| 0 <= i < dim - 1 ==> #[trigger] r[flat(dim, i, dim - 1)] == zero,
        forall|i: int| 0 <= i < dim - 1 ==> #[trigger] r[flat(dim, dim - 1, i)] == zero,
        forall|i: int, j: int|
            0 <= i < dim - 1 && 0 <= j < dim - 1 ==> #[trigger] r[flat(dim, i, j)] == base[flat(dim, i, j)],
{
    lemma_flat_inverse(dim, dim - 1, dim - 1);
    lemma_flat_in_bounds(dim, dim, dim - 1, dim - 1);
    assert forall|i: int| 0 <= i < dim - 1 implies #[trigger] r[flat(dim, i, dim - 1)] == zero by {
        lemma_flat_inverse(dim, i, dim - 1);
        lemma_flat_in_bounds(dim, dim, i, dim - 1);
    }
    assert forall|i: int| 0 <= i < dim - 1 implies #[trigger] r[flat(dim, dim - 1, i)] == zero by {
        lemma_flat_inverse(dim, dim - 1, i);
        lemma_flat_in_bounds(dim, dim, dim - 1, i);
    }
    assert forall|i: int, j: int| 0 <= i < dim - 1 && 0 <= j < dim - 1 implies #[trigger] r[flat(dim, i, j)]
        == base[flat(dim, i, j)] by {
        lemma_flat_inverse(dim, i, j);
        lemma_flat_in_bounds(dim, dim, i, j);
    }
}

} // verus!
