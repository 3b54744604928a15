use vstd::prelude::*;

verus! {

/// Position of entry (`row`, `col`) in the column-major storage of a matrix
/// with `rows` rows.
pub open spec fn flat(rows: int, row: int, col: int) -> int {
    col * rows + row
}

/// The column-major position of an entry gives its row back as the
/// remainder and its column as the quotient.
pub proof fn lemma_flat_inverse(rows: int, row: int, col: int)
    requires
        0 <= row < rows,
        0 <= col,
    ensures
        flat(rows, row, col) % rows == row,
        flat(rows, row, col) / rows == col,
{
    vstd::arithmetic::div_mod::lemma_fundamental_div_mod_converse(
        flat(rows, row, col), rows, col, row);
}

/// A position inside a `rows`×`cols` column-major matrix stays below its size.
pub proof fn lemma_flat_in_bounds(rows: int, cols: int, row: int, col: int)
    requires
        0 <= row < rows,
        0 <= col < cols,
    ensures
        0 <= flat(rows, row, col) < rows * cols,
{
    assert(col * rows + row < rows * cols) by (nonlinear_arith)
        requires 0 <= row < rows, 0 <= col < cols;
    assert(0 <= col * rows) by (nonlinear_arith)
        requires 0 <= row < rows, 0 <= col;
}

/// Column-major position of entry (`row`, `col`) of a square `dim`×`dim` matrix.
pub fn flat_index(dim: usize, row: usize, col: usize) -> (r: usize)
    requires
        row < dim,
        col < dim,
        dim * dim <= usize::MAX,
    ensures
        r == flat(dim as int, row as int, col as int),
{
    proof {
        lemma_flat_in_bounds(dim as int, dim as int, row as int, col as int);
    }
    col * dim + row
}

/// Column-major position of the bottom-right diagonal entry of a `dim`×`dim`
/// matrix: the entry that the highlighted eigenvalue starts from.
pub fn corner_index(dim: usize) -> (r: usize)
    requires
        1 <= dim,
        dim * dim <= usize::MAX,
    ensures
        r == flat(dim as int, dim - 1, dim - 1),
        r + 1 == dim * dim,
{
    let r = flat_index(dim, dim - 1, dim - 1);
    assert((dim - 1) * dim + (dim - 1) + 1 == dim * dim) by (nonlinear_arith);
    r
}

/// The value at (`row`, `col`) of the `k`×`k` matrix made from the
/// column-major `dim`×`dim` matrix `m`: its own entry inside both, `fill`
/// outside it.
pub open spec fn resized_entry<T>(m: Seq<T>, dim: int, fill: T, row: int, col: int) -> T {
    if row < dim && col < dim {
        m[flat(dim, row, col)]
    } else {
        fill
    }
}

/// The `k`×`k` matrix whose upper-left block is that of the column-major
/// `dim`×`dim` matrix `m`, with `fill` wherever `k` grows past `dim`.
pub fn resize_square<T: Copy>(m: &Vec<T>, dim: usize, k: usize, fill: T) -> (r: Vec<T>)
    requires
        m.len() == dim * dim,
        k * k <= usize::MAX,
    ensures
        r.len() == k * k,
        forall|row: int, col: int|
            0 <= row < k && 0 <= col < k ==> #[trigger] r@[flat(k as int, row, col)]
                == resized_entry(m@, dim as int, fill, row, col),
{
    let mut r: Vec<T> = Vec::new();
    let mut p: usize = 0;
    if k == 0 {
        return r;
    }
    while p < k * k
        invariant
            0 < k,
            p <= k * k,
            k * k <= usize::MAX,
            m.len() == dim * dim,
            r.len() == p,
            forall|q: int|
                0 <= q < p ==> #[trigger] r@[q] == resized_entry(m@, dim as int, fill, q % k as int, q / k as int),
        decreases k * k - p,
    {
        let row: usize = p % k;
        let col: usize = p / k;
        if row < dim && col < dim {
            proof {
                lemma_flat_in_bounds(dim as int, dim as int, row as int, col as int);
            }
            r.push(m[col * dim + row]);
        } else {
            r.push(fill);
        }
        p = p + 1;
    }
    assert forall|row: int, col: int| 0 <= row < k && 0 <= col < k implies #[trigger] r@[flat(k as int, row, col)]
        == resized_entry(m@, dim as int, fill, row, col) by {
        lemma_flat_inverse(k as int, row, col);
        lemma_flat_in_bounds(k as int, k as int, row, col);
    }
    r
}

} // verus!
