use vstd::prelude::*;
use vstd::arithmetic::div_mod::lemma_fundamental_div_mod_converse;
use vstd::arithmetic::div_mod::lemma_fundamental_div_mod;
use vstd::arithmetic::div_mod::lemma_add_mod_noop_right;
use vstd::arithmetic::div_mod::lemma_mod_bound;
use vstd::arithmetic::div_mod::lemma_small_mod;

verus! {

/// The remainder of `k` by `n` that lies in `0..n` (Euclidean remainder).
pub fn wrap_index(k: i64, n: usize) -> (r: usize)
    requires
        0 < n,
    ensures
        r < n,
        r as int == (k as int) % (n as int),
{
    let nn: u64 = n as u64;
    if k >= 0 {
        ((k as u64) % nn) as usize
    } else {
        let a: u64 = (-(k + 1)) as u64;
        let rem: u64 = a % nn;
        proof {
            lemma_fundamental_div_mod(a as int, n as int);
            let q = (a as int) / (n as int);
            assert(k as int == (-(q + 1)) * (n as int) + (n - 1 - rem)) by (nonlinear_arith)
                requires
                    k as int == -(a as int) - 1,
                    a as int == (n as int) * q + rem as int,
            ;
            lemma_fundamental_div_mod_converse(k as int, n as int, -(q + 1), n - 1 - rem);
        }
        n - 1 - (rem as usize)
    }
}


/// The two grid nodes, along one axis of `n` periodic nodes, that bracket the
/// cell with (unwrapped) lower index `cell`: the wrapped index of `cell` and the
/// node after it, wrapping from the last node back to the first.
pub fn periodic_cell_pair(cell: i64, n: usize) -> (pair: (usize, usize))
    requires
        0 < n,
    ensures
        pair.0 < n,
        pair.1 < n,
        pair.0 as int == (cell as int) % (n as int),
        pair.1 as int == (pair.0 + 1) % (n as int),
{
    let i0 = wrap_index(cell, n);
    let i1 = if i0 + 1 == n { 0 } else { i0 + 1 };
    proof {
        if i0 + 1 == n {
            vstd::arithmetic::div_mod::lemma_mod_self_0(n as int);
        } else {
            lemma_small_mod((i0 + 1) as nat, n as nat);
        }
    }
    (i0, i1)
}

/// The signed frequency of discrete Fourier mode `i` out of `n`: modes past the
/// middle stand for negative frequencies.
pub open spec fn signed_frequency_of(i: int, n: int) -> int {
    if i <= n / 2 {
        i
    } else {
        i - n
    }
}

/// The signed frequency of discrete Fourier mode `i` out of `n` (`i` if
/// `i <= n / 2`, else `i - n`).
pub fn signed_frequency(i: usize, n: usize) -> (f: i64)
    requires
        i < n,
        n <= i64::MAX,
    ensures
        f as int == signed_frequency_of(i as int, n as int),
        i <= n / 2 ==> f as int == i as int,
        i > n / 2 ==> f as int == i as int - n as int,
        -(n as int) < 2 * (f as int) <= n as int,
        (f as int) % (n as int) == i as int,
{
    proof {
        if i <= n / 2 {
            lemma_small_mod(i as nat, n as nat);
        } else {
            lemma_fundamental_div_mod_converse(i - n, n as int, -1, i as int);
        }
    }
    if i <= n / 2 {
        i as i64
    } else {
        (i as i64) - (n as i64)
    }
}

/// A dense two-dimensional array of `nx` by `ny` values, stored row by row: the
/// value at `(i, j)` is `data[i * ny + j]`.
#[derive(Debug, Clone)]
pub struct Grid2<T> {
    pub nx: usize,
    pub ny: usize,
    pub data: Vec<T>,
}

impl<T> Grid2<T> {
    /// The data holds exactly `nx * ny` values, and both extents fit in `isize`.
    pub open spec fn wf(&self) -> bool {
        &&& self.data@.len() == self.nx * self.ny
        &&& self.nx <= isize::MAX
        &&& self.ny <= isize::MAX
    }

    /// The value at row `i`, column `j`.
    pub open spec fn at(&self, i: int, j: int) -> T {
        self.data@[i * self.ny + j]
    }
}

/// Row `i`, column `j` of an `nx` by `ny` array lies at a flat position inside the
/// array, from which `i` and `j` are recovered by division and remainder.
pub proof fn lemma_flat_index(i: int, j: int, nx: int, ny: int)
    requires
        0 <= i < nx,
        0 <= j < ny,
    ensures
        0 <= i * ny + j < nx * ny,
        (i * ny + j) / ny == i,
        (i * ny + j) % ny == j,
{
    assert(0 <= i * ny + j < nx * ny) by (nonlinear_arith)
        requires
            0 <= i < nx,
            0 <= j < ny,
    ;
    lemma_fundamental_div_mod_converse(i * ny + j, ny, i, j);
}

/// A flat position inside an `nx` by `ny` array splits into a row below `nx` and
/// a column below `ny`.
pub proof fn lemma_flat_split(k: int, nx: int, ny: int)
    requires
        0 <= nx,
        0 <= ny,
        0 <= k < nx * ny,
    ensures
        ny > 0,
        0 <= k / ny < nx,
        0 <= k % ny < ny,
        k == (k / ny) * ny + k % ny,
{
    assert(ny > 0) by (nonlinear_arith)
        requires
            0 <= k < nx * ny,
            0 <= nx,
            0 <= ny,
    ;
    lemma_fundamental_div_mod(k, ny);
    lemma_mod_bound(k, ny);
    assert(k == (k / ny) * ny + k % ny) by (nonlinear_arith)
        requires
            k == ny * (k / ny) + k % ny,
    ;
    assert(0 <= k / ny < nx) by (nonlinear_arith)
        requires
            0 <= k < nx * ny,
            ny > 0,
            k == ny * (k / ny) + k % ny,
            0 <= k % ny < ny,
    ;
}

/// The source position of position `idx` when an axis of length `len` is
/// rolled by `shift`.
pub open spec fn roll_source(idx: int, shift: int, len: int) -> int {
    (idx + shift) % len
}

/// The flat values of an `nx` by `ny` array rolled by `shift` along `axis`
/// (0: rows, 1: columns): the value at `(i, j)` comes from
/// `((i + shift) mod nx, j)`, or from `(i, (j + shift) mod ny)`.
pub open spec fn rolled<T>(s: Seq<T>, nx: int, ny: int, axis: int, shift: int) -> Seq<T> {
    Seq::new(
        s.len(),
        |k: int|
            if axis == 0 {
                s[roll_source(k / ny, shift, nx) * ny + k % ny]
            } else {
                s[(k / ny) * ny + roll_source(k % ny, shift, ny)]
            },
    )
}

/// Rolls an array along one axis, like NumPy's `roll`: the result at index `idx`
/// of that axis is the input at index `(idx + shift) mod len`.
pub fn shift_array2<T: Copy>(arr: &Grid2<T>, axis: usize, shift: isize) -> (out: Grid2<T>)
    requires
        arr.wf(),
        axis == 0 || axis == 1,
        axis == 0 && arr.nx > 0 ==> shift + arr.nx - 1 <= isize::MAX,
        axis == 1 && arr.ny > 0 ==> shift + arr.ny - 1 <= isize::MAX,
    ensures
        out.wf(),
        out.nx == arr.nx,
        out.ny == arr.ny,
        out.data@ == rolled(arr.data@, arr.nx as int, arr.ny as int, axis as int, shift as int),
        forall|i: int, j: int|
            0 <= i < arr.nx && 0 <= j < arr.ny ==> #[trigger] out.at(i, j) == if axis == 0 {
                arr.at(roll_source(i, shift as int, arr.nx as int), j)
            } else {
                arr.at(i, roll_source(j, shift as int, arr.ny as int))
            },
        forall|k: int|
            0 <= k < out.data@.len() ==> #[trigger] out.data@[k] == if axis == 0 {
                arr.data@[((k / arr.ny as int + shift) % arr.nx as int) * arr.ny + k % arr.ny as int]
            } else {
                arr.data@[(k / arr.ny as int) * arr.ny + (k % arr.ny as int + shift) % arr.ny as int]
            },
        forall|i: int, j: int|
            0 <= i < arr.nx && 0 <= j < arr.ny ==> #[trigger] out.at(i, j) == if axis == 0 {
                arr.data@[((i + shift) % arr.nx as int) * arr.ny + j]
            } else {
                arr.data@[i * arr.ny + (j + shift) % arr.ny as int]
            },
{
    let nx = arr.nx;
    let ny = arr.ny;
    let total = arr.data.len();
    let ghost expected = rolled(arr.data@, nx as int, ny as int, axis as int, shift as int);
    let mut data: Vec<T> = Vec::new();
    let mut k: usize = 0;
    while k < total
        invariant
            arr.wf(),
            total == arr.data@.len(),
            nx == arr.nx,
            ny == arr.ny,
            axis == 0 || axis == 1,
            axis == 0 && nx > 0 ==> shift + nx - 1 <= isize::MAX,
            axis == 1 && ny > 0 ==> shift + ny - 1 <= isize::MAX,
            expected == rolled(arr.data@, nx as int, ny as int, axis as int, shift as int),
            k <= total,
            data@.len() == k,
            forall|m: int| 0 <= m < k ==> data@[m] == expected[m],
        decreases total - k,
    {
        proof {
            lemma_flat_split(k as int, nx as int, ny as int);
        }
        let i = k / ny;
        let j = k % ny;
        let src: usize = if axis == 0 {
            let si = wrap_index((i as isize + shift) as i64, nx);
            proof {
                lemma_flat_index(si as int, j as int, nx as int, ny as int);
            }
            si * ny + j
        } else {
            let sj = wrap_index((j as isize + shift) as i64, ny);
            proof {
                lemma_flat_index(i as int, sj as int, nx as int, ny as int);
            }
            i * ny + sj
        };
        data.push(arr.data[src]);
        k += 1;
    }
    let out = Grid2 { nx, ny, data };
    assert(out.data@ =~= expected);
    assert forall|i: int, j: int| 0 <= i < nx && 0 <= j < ny implies #[trigger] out.at(i, j) == if axis
        == 0 {
        arr.at(roll_source(i, shift as int, nx as int), j)
    } else {
        arr.at(i, roll_source(j, shift as int, ny as int))
    } by {
        lemma_flat_index(i, j, nx as int, ny as int);
    }
    assert forall|i: int, j: int|
        0 <= i < arr.nx && 0 <= j < arr.ny implies #[trigger] out.at(i, j) == if axis == 0 {
            arr.data@[((i + shift) % arr.nx as int) * arr.ny + j]
        } else {
            arr.data@[i * arr.ny + (j + shift) % arr.ny as int]
        } by {
        lemma_flat_index(i, j, nx as int, ny as int);
        assert(out.data@[i * ny + j] == expected[i * ny + j]);
    }
    out
}

/// In a rolled array, the value at row `i`, column `j` is the value of the input at
/// row `(i + shift) mod nx` (rolling rows) or at column `(j + shift) mod ny`
/// (rolling columns), for every extent and every shift, even or odd.
pub proof fn lemma_rolled_entry<T>(s: Seq<T>, nx: int, ny: int, axis: int, shift: int, i: int, j: int)
    requires
        0 <= nx,
        0 <= ny,
        s.len() == nx * ny,
        0 <= i < nx,
        0 <= j < ny,
    ensures
        0 <= i * ny + j < s.len(),
        rolled(s, nx, ny, axis, shift)[i * ny + j] == if axis == 0 {
            s[((i + shift) % nx) * ny + j]
        } else {
            s[i * ny + (j + shift) % ny]
        },
        0 <= (i + shift) % nx < nx,
        0 <= (j + shift) % ny < ny,
{
    lemma_flat_index(i, j, nx, ny);
    lemma_mod_bound(i + shift, nx);
    lemma_mod_bound(j + shift, ny);
}

/// The signed frequency is the only representative of the mode modulo `n` in the
/// band `-n < 2 f <= n`: two such representatives of one residue are equal.
pub proof fn lemma_signed_band_unique(f: int, g: int, n: int)
    requires
        n > 0,
        -n < 2 * f <= n,
        -n < 2 * g <= n,
        f % n == g % n,
    ensures
        f == g,
{
    vstd::arithmetic::div_mod::lemma_fundamental_div_mod(f, n);
    vstd::arithmetic::div_mod::lemma_fundamental_div_mod(g, n);
    let qf = f / n;
    let qg = g / n;
    assert(f - g == n * (qf - qg)) by (nonlinear_arith)
        requires
            f == n * qf + f % n,
            g == n * qg + g % n,
            f % n == g % n,
    ;
    assert(f == g) by (nonlinear_arith)
        requires
            f - g == n * (qf - qg),
            -n < 2 * f <= n,
            -n < 2 * g <= n,
            n > 0,
    {
        if qf - qg >= 1 {
            assert(n * (qf - qg) >= n);
        } else if qf - qg <= -1 {
            assert(n * (qf - qg) <= -n);
        }
    }
}

/// Rolling by zero leaves an array unchanged.
pub proof fn lemma_roll_zero<T>(s: Seq<T>, nx: int, ny: int, axis: int)
    requires
        0 <= nx,
        0 <= ny,
        s.len() == nx * ny,
    ensures
        rolled(s, nx, ny, axis, 0) == s,
{
    let r = rolled(s, nx, ny, axis, 0);
    assert forall|k: int| 0 <= k < s.len() implies #[trigger] r[k] == s[k] by {
        lemma_flat_split(k, nx, ny);
        lemma_small_mod((k / ny) as nat, nx as nat);
        lemma_small_mod((k % ny) as nat, ny as nat);
    }
    assert(r =~= s);
}

/// Rolling by `s1` and then by `s2` along one axis is rolling by `s1 + s2`.
pub proof fn lemma_roll_compose<T>(s: Seq<T>, nx: int, ny: int, axis: int, s1: int, s2: int)
    requires
        0 <= nx,
        0 <= ny,
        s.len() == nx * ny,
    ensures
        rolled(rolled(s, nx, ny, axis, s1), nx, ny, axis, s2) == rolled(s, nx, ny, axis, s1 + s2),
{
    let a = rolled(s, nx, ny, axis, s1);
    let b = rolled(a, nx, ny, axis, s2);
    let c = rolled(s, nx, ny, axis, s1 + s2);
    assert forall|k: int| 0 <= k < s.len() implies #[trigger] b[k] == c[k] by {
        lemma_flat_split(k, nx, ny);
        let i = k / ny;
        let j = k % ny;
        if axis == 0 {
            let si = (i + s2) % nx;
            lemma_mod_bound(i + s2, nx);
            lemma_flat_index(si, j, nx, ny);
            lemma_add_mod_noop_right(s1, i + s2, nx);
            assert(s1 + (i + s2) == i + (s1 + s2));
        } else {
            let sj = (j + s2) % ny;
            lemma_mod_bound(j + s2, ny);
            lemma_flat_index(i, sj, nx, ny);
            lemma_add_mod_noop_right(s1, j + s2, ny);
            assert(s1 + (j + s2) == j + (s1 + s2));
        }
    }
    assert(b =~= c);
}

/// Rolling by `shift` and then by `-shift` gives back the original array.
pub proof fn lemma_roll_inverse<T>(s: Seq<T>, nx: int, ny: int, axis: int, shift: int)
    requires
        0 <= nx,
        0 <= ny,
        s.len() == nx * ny,
    ensures
        rolled(rolled(s, nx, ny, axis, shift), nx, ny, axis, -shift) == s,
{
    lemma_roll_compose(s, nx, ny, axis, shift, -shift);
    lemma_roll_zero(s, nx, ny, axis);
}

} // verus!
