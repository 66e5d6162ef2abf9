//! The dense matrix type and its operations.
//!
//! A matrix is stored row-major: the backing `Vec<Vec<T>>` holds
//! `row` outer entries, each an inner `Vec` of `col` elements. Every
//! operation is specified against the matrix's view, a `Seq<Seq<T>>`
//! of the rows.

use crate::element::AddElement;
use crate::element::CancelElement;
use crate::element::Element;
use crate::element::MulElement;
use crate::element::SubElement;
use vstd::arithmetic::div_mod::lemma_fundamental_div_mod_converse;
use vstd::arithmetic::div_mod::lemma_mod_bound;
use vstd::arithmetic::div_mod::lemma_multiply_divide_lt;
use vstd::prelude::*;

verus! {

/// A grid of `rows` by `cols` elements in row-major order: `rows`
/// outer entries, each of length `cols`.
pub open spec fn grid_wf<T>(g: Seq<Seq<T>>, rows: int, cols: int) -> bool {
    &&& g.len() == rows
    &&& forall|i: int| 0 <= i < rows ==> (#[trigger] g[i]).len() == cols
}

/// The view of a vector of vectors: the sequence of its rows' views.
pub open spec fn grid_of_vecs<T>(v: Seq<Vec<T>>) -> Seq<Seq<T>> {
    Seq::new(v.len(), |i: int| v[i]@)
}

/// Every elementwise sum over two equally-shaped grids is
/// representable.
pub open spec fn grid_add_pre<T: AddElement>(a: Seq<Seq<T>>, b: Seq<Seq<T>>) -> bool {
    forall|i: int, j: int|
        0 <= i < a.len() && 0 <= j < a[i].len() ==> #[trigger] a[i][j].add_pre(b[i][j])
}

/// The elementwise sum of two equally-shaped grids.
pub open spec fn grid_add<T: AddElement>(a: Seq<Seq<T>>, b: Seq<Seq<T>>) -> Seq<Seq<T>> {
    Seq::new(a.len(), |i: int| Seq::new(a[i].len(), |j: int| a[i][j].add_spec(b[i][j])))
}

/// Every elementwise difference over two equally-shaped grids is
/// representable.
pub open spec fn grid_sub_pre<T: SubElement>(a: Seq<Seq<T>>, b: Seq<Seq<T>>) -> bool {
    forall|i: int, j: int|
        0 <= i < a.len() && 0 <= j < a[i].len() ==> #[trigger] a[i][j].sub_pre(b[i][j])
}

/// The elementwise difference of two equally-shaped grids.
pub open spec fn grid_sub<T: SubElement>(a: Seq<Seq<T>>, b: Seq<Seq<T>>) -> Seq<Seq<T>> {
    Seq::new(a.len(), |i: int| Seq::new(a[i].len(), |j: int| a[i][j].sub_spec(b[i][j])))
}

/// Every product of a grid element with the scalar `s` is
/// representable.
pub open spec fn grid_scale_pre<T: MulElement>(g: Seq<Seq<T>>, s: T) -> bool {
    forall|i: int, j: int|
        0 <= i < g.len() && 0 <= j < g[i].len() ==> #[trigger] g[i][j].mul_pre(s)
}

/// The grid with every element multiplied by the scalar `s`.
pub open spec fn grid_scale<T: MulElement>(g: Seq<Seq<T>>, s: T) -> Seq<Seq<T>> {
    Seq::new(g.len(), |i: int| Seq::new(g[i].len(), |j: int| g[i][j].mul_spec(s)))
}

/// Column `j` of a grid with `rows` rows, as a sequence.
pub open spec fn grid_col<T>(g: Seq<Seq<T>>, j: int, rows: nat) -> Seq<T> {
    Seq::new(rows, |k: int| g[k][j])
}

/// The dot product of the first `n` entries of `a` and `b`: the
/// left-to-right fold `(...(0 + a[0]*b[0]) + ...) + a[n-1]*b[n-1]`.
pub open spec fn dot<T: AddElement + MulElement>(a: Seq<T>, b: Seq<T>, n: int) -> T
    decreases n,
{
    if n <= 0 {
        T::zero_spec()
    } else {
        dot(a, b, n - 1).add_spec(a[n - 1].mul_spec(b[n - 1]))
    }
}

/// Every product and every partial sum of the dot product of the
/// first `n` entries of `a` and `b` is representable.
pub open spec fn dot_pre<T: AddElement + MulElement>(a: Seq<T>, b: Seq<T>, n: int) -> bool
    decreases n,
{
    n <= 0 || {
        &&& dot_pre(a, b, n - 1)
        &&& a[n - 1].mul_pre(b[n - 1])
        &&& dot(a, b, n - 1).add_pre(a[n - 1].mul_spec(b[n - 1]))
    }
}

/// A dot product whose operations are representable up to `n` is
/// representable up to any shorter prefix.
pub proof fn lemma_dot_pre_prefix<T: AddElement + MulElement>(a: Seq<T>, b: Seq<T>, m: int, n: int)
    requires
        0 <= m <= n,
        dot_pre(a, b, n),
    ensures
        dot_pre(a, b, m),
    decreases n,
{
    if m < n {
        lemma_dot_pre_prefix(a, b, m, n - 1);
    }
}

/// Every dot product of a row of `a` and a column of `b` is
/// representable; `a` is `rows` by `inner`, `b` is `inner` by `cols`.
pub open spec fn grid_matmul_pre<T: AddElement + MulElement>(
    a: Seq<Seq<T>>,
    b: Seq<Seq<T>>,
    rows: nat,
    inner: nat,
    cols: nat,
) -> bool {
    forall|i: int, j: int|
        0 <= i < rows && 0 <= j < cols ==> #[trigger] dot_pre(
            a[i],
            grid_col(b, j, inner),
            inner as int,
        )
}

/// The matrix product of `a` (with `inner` columns) and `b` (with
/// `inner` rows and `cols` columns): entry `(i, j)` is the dot
/// product of row `i` of `a` and column `j` of `b`.
pub open spec fn grid_matmul<T: AddElement + MulElement>(
    a: Seq<Seq<T>>,
    b: Seq<Seq<T>>,
    inner: nat,
    cols: nat,
) -> Seq<Seq<T>> {
    Seq::new(
        a.len(),
        |i: int| Seq::new(cols, |j: int| dot(a[i], grid_col(b, j, inner), inner as int)),
    )
}

/// A dense two-dimensional container of elements of type `T`.
#[derive(Debug)]
pub struct Matrix<T> {
    state: Vec<Vec<T>>,
    row: usize,
    col: usize,
}

impl<T> View for Matrix<T> {
    type V = Seq<Seq<T>>;

    closed spec fn view(&self) -> Seq<Seq<T>> {
        grid_of_vecs(self.state@)
    }
}

impl<T> Matrix<T> {
    /// The declared number of rows.
    pub closed spec fn spec_row(&self) -> usize {
        self.row
    }

    /// The declared number of columns.
    pub closed spec fn spec_col(&self) -> usize {
        self.col
    }

    /// The stored grid has exactly the declared shape.
    pub open spec fn well_formed(&self) -> bool {
        grid_wf(self@, self.spec_row() as int, self.spec_col() as int)
    }

    /// The number of rows.
    pub fn get_row(&self) -> (r: usize)
        ensures
            r == self.spec_row(),
    {
        self.row
    }

    /// The number of columns.
    pub fn get_col(&self) -> (r: usize)
        ensures
            r == self.spec_col(),
    {
        self.col
    }

    /// Read-only access to the backing storage, row-major.
    pub fn get_state(&self) -> (r: &Vec<Vec<T>>)
        ensures
            grid_of_vecs(r@) == self@,
    {
        &self.state
    }
}

/// Swap the two axes of a `rows` by `cols` grid: entry `(i, j)` of
/// the result is entry `(j, i)` of `g`.
pub open spec fn grid_transpose<T>(g: Seq<Seq<T>>, rows: nat, cols: nat) -> Seq<Seq<T>> {
    Seq::new(cols, |i: int| Seq::new(rows, |j: int| g[j][i]))
}

impl<T> Matrix<T> {
    /// Replace the stored grid with `state`, declared to be `row` by
    /// `col`. The grid must match the declared shape exactly (every
    /// row of length `col`; a ragged grid is rejected), and the
    /// declared shape must match the matrix's own; each mismatch has
    /// its own error message. This is a genuine setter: on success
    /// the supplied grid becomes the matrix's contents.
    pub fn set_state(self, state: Vec<Vec<T>>, row: usize, col: usize) -> (r: Result<
        Matrix<T>,
        &'static str,
    >)
        ensures
            match r {
                Ok(m) => {
                    &&& grid_wf(grid_of_vecs(state@), row as int, col as int)
                    &&& row == self.spec_row()
                    &&& col == self.spec_col()
                    &&& m.well_formed()
                    &&& m.spec_row() == row
                    &&& m.spec_col() == col
                    &&& m@ == grid_of_vecs(state@)
                },
                Err(e) => {
                    &&& !(grid_wf(grid_of_vecs(state@), row as int, col as int)
                        && row == self.spec_row() && col == self.spec_col())
                    &&& e@ == if !grid_wf(grid_of_vecs(state@), row as int, col as int) {
                        "The value of col or row and the size of state are different"@
                    } else {
                        "Both the matrix and the state are not the same size"@
                    }
                },
            },
    {
        if state.len() != row {
            return Err("The value of col or row and the size of state are different");
        }
        let mut i: usize = 0;
        while i < row
            invariant
                i <= row,
                state@.len() == row,
                forall|a: int| 0 <= a < i ==> (#[trigger] state@[a])@.len() == col,
            decreases row - i,
        {
            if state[i].len() != col {
                proof {
                    assert(grid_of_vecs(state@)[i as int].len() != col);
                }
                return Err("The value of col or row and the size of state are different");
            }
            i = i + 1;
        }
        if row == self.row && col == self.col {
            Ok(Matrix { state, row, col })
        } else {
            Err("Both the matrix and the state are not the same size")
        }
    }
}

impl<T: Element> Matrix<T> {
    /// Allocate a `row` by `col` grid with every cell set to
    /// `initial`.
    pub fn new(row: usize, col: usize, initial: T) -> (m: Matrix<T>)
        ensures
            m.well_formed(),
            m.spec_row() == row,
            m.spec_col() == col,
            forall|i: int, j: int|
                0 <= i < row && 0 <= j < col ==> m@[i][j] == initial,
    {
        let mut state: Vec<Vec<T>> = Vec::new();
        let mut i: usize = 0;
        while i < row
            invariant
                i <= row,
                state@.len() == i,
                forall|a: int| 0 <= a < i ==> (#[trigger] state@[a])@.len() == col,
                forall|a: int, b: int|
                    0 <= a < i && 0 <= b < col ==> state@[a]@[b] == initial,
            decreases row - i,
        {
            let mut r: Vec<T> = Vec::new();
            let mut j: usize = 0;
            while j < col
                invariant
                    j <= col,
                    r@.len() == j,
                    forall|b: int| 0 <= b < j ==> r@[b] == initial,
                decreases col - j,
            {
                r.push(initial.clone_val());
                j = j + 1;
            }
            state.push(r);
            i = i + 1;
        }
        Matrix { state, row, col }
    }

    /// The transpose: a matrix with the two axes swapped, so that
    /// entry `(j, i)` of the result equals entry `(i, j)` of `self`.
    pub fn transpose(&self) -> (m: Matrix<T>)
        requires
            self.well_formed(),
        ensures
            m.well_formed(),
            m.spec_row() == self.spec_col(),
            m.spec_col() == self.spec_row(),
            m@ == grid_transpose(self@, self.spec_row() as nat, self.spec_col() as nat),
            forall|i: int, j: int|
                0 <= i < self.spec_col() && 0 <= j < self.spec_row()
                    ==> m@[i][j] == self@[j][i],
    {
        let n: usize = self.row;
        let c: usize = self.col;
        let mut state: Vec<Vec<T>> = Vec::new();
        let mut i: usize = 0;
        while i < c
            invariant
                i <= c,
                self.well_formed(),
                n == self.spec_row(),
                c == self.spec_col(),
                state@.len() == i,
                forall|a: int| 0 <= a < i ==> (#[trigger] state@[a])@.len() == n,
                forall|a: int, b: int|
                    0 <= a < i && 0 <= b < n ==> state@[a]@[b] == self@[b][a],
            decreases c - i,
        {
            let mut r: Vec<T> = Vec::new();
            let mut j: usize = 0;
            while j < n
                invariant
                    j <= n,
                    i < c,
                    self.well_formed(),
                    n == self.spec_row(),
                    c == self.spec_col(),
                    r@.len() == j,
                    forall|b: int| 0 <= b < j ==> r@[b] == self@[b][i as int],
                decreases n - j,
            {
                proof {
                    assert(self.state@[j as int]@ == self@[j as int]);
                    assert(self@[j as int].len() == c);
                }
                r.push(self.state[j][i].clone_val());
                j = j + 1;
            }
            state.push(r);
            i = i + 1;
        }
        let m = Matrix { state, row: c, col: n };
        proof {
            assert(m@ =~~= grid_transpose(self@, n as nat, c as nat));
        }
        m
    }

    /// A matrix of the same shape as `self` with every cell set to
    /// the element type's zero value.
    pub fn zero(&self) -> (m: Matrix<T>)
        ensures
            m.well_formed(),
            m.spec_row() == self.spec_row(),
            m.spec_col() == self.spec_col(),
            forall|i: int, j: int|
                0 <= i < self.spec_row() && 0 <= j < self.spec_col()
                    ==> m@[i][j] == T::zero_spec(),
    {
        Matrix::new(self.row, self.col, T::zero_val())
    }
}

impl<T: MulElement> Matrix<T> {
    /// The Kronecker (tensor) product: a matrix of shape
    /// `(self.row * rhs.row, self.col * rhs.col)` whose entry at
    /// `(i * rhs.row + k, j * rhs.col + l)` is
    /// `self[i][j] * rhs[k][l]`.
    pub fn tensor(&self, rhs: &Matrix<T>) -> (m: Matrix<T>)
        requires
            self.well_formed(),
            rhs.well_formed(),
            self.spec_row() * rhs.spec_row() <= usize::MAX,
            self.spec_col() * rhs.spec_col() <= usize::MAX,
            grid_tensor_pre(
                self@,
                self.spec_row() as nat,
                self.spec_col() as nat,
                rhs@,
                rhs.spec_row() as nat,
                rhs.spec_col() as nat,
            ),
        ensures
            m.well_formed(),
            m.spec_row() == self.spec_row() * rhs.spec_row(),
            m.spec_col() == self.spec_col() * rhs.spec_col(),
            m@ == grid_tensor(
                self@,
                self.spec_row() as nat,
                self.spec_col() as nat,
                rhs@,
                rhs.spec_row() as nat,
                rhs.spec_col() as nat,
            ),
            forall|i: int, j: int, k: int, l: int|
                0 <= i < self.spec_row() && 0 <= j < self.spec_col() && 0 <= k < rhs.spec_row()
                    && 0 <= l < rhs.spec_col()
                    ==> m@[i * rhs.spec_row() + k][j * rhs.spec_col() + l] == (
                    #[trigger] self@[i][j].mul_spec(rhs@[k][l])),
    {
        let n1: usize = self.row;
        let c1: usize = self.col;
        let n2: usize = rhs.row;
        let c2: usize = rhs.col;
        let rn: usize = n1 * n2;
        let rc: usize = c1 * c2;
        let mut state: Vec<Vec<T>> = Vec::new();
        let mut p: usize = 0;
        while p < rn
            invariant
                p <= rn,
                self.well_formed(),
                rhs.well_formed(),
                grid_tensor_pre(self@, n1 as nat, c1 as nat, rhs@, n2 as nat, c2 as nat),
                n1 == self.spec_row(),
                c1 == self.spec_col(),
                n2 == rhs.spec_row(),
                c2 == rhs.spec_col(),
                rn == n1 * n2,
                rc == c1 * c2,
                state@.len() == p,
                forall|a: int| 0 <= a < p ==> (#[trigger] state@[a])@.len() == rc,
                forall|a: int, b: int|
                    0 <= a < p && 0 <= b < rc ==> state@[a]@[b] == self@[a / n2 as int][b
                        / c2 as int].mul_spec(rhs@[a % n2 as int][b % c2 as int]),
            decreases rn - p,
        {
            proof {
                assert(n2 != 0) by (nonlinear_arith)
                    requires
                        p < rn,
                        rn == n1 * n2,
                        0 <= p,
                ;
                lemma_mod_bound(p as int, n2 as int);
                assert(n2 as int * n1 as int == rn) by (nonlinear_arith)
                    requires
                        rn == n1 * n2,
                ;
                lemma_multiply_divide_lt(p as int, n2 as int, n1 as int);
            }
            let i: usize = p / n2;
            let k: usize = p % n2;
            let mut r: Vec<T> = Vec::new();
            let mut q: usize = 0;
            while q < rc
                invariant
                    q <= rc,
                    p < rn,
                    self.well_formed(),
                    rhs.well_formed(),
                    grid_tensor_pre(self@, n1 as nat, c1 as nat, rhs@, n2 as nat, c2 as nat),
                    n1 == self.spec_row(),
                    c1 == self.spec_col(),
                    n2 == rhs.spec_row(),
                    c2 == rhs.spec_col(),
                    rn == n1 * n2,
                    rc == c1 * c2,
                    i == p as int / n2 as int,
                    k == p as int % n2 as int,
                    0 <= i < n1,
                    0 <= k < n2,
                    r@.len() == q,
                    forall|b: int|
                        0 <= b < q ==> r@[b] == self@[i as int][b / c2 as int].mul_spec(
                            rhs@[k as int][b % c2 as int],
                        ),
                decreases rc - q,
            {
                proof {
                    assert(c2 != 0) by (nonlinear_arith)
                        requires
                            q < rc,
                            rc == c1 * c2,
                            0 <= q,
                    ;
                    lemma_mod_bound(q as int, c2 as int);
                    assert(c2 as int * c1 as int == rc) by (nonlinear_arith)
                        requires
                            rc == c1 * c2,
                    ;
                    lemma_multiply_divide_lt(q as int, c2 as int, c1 as int);
                }
                let j: usize = q / c2;
                let l: usize = q % c2;
                proof {
                    assert(self.state@[i as int]@ == self@[i as int]);
                    assert(rhs.state@[k as int]@ == rhs@[k as int]);
                    assert(self@[i as int].len() == c1);
                    assert(rhs@[k as int].len() == c2);
                    assert(self@[i as int][j as int].mul_pre(rhs@[k as int][l as int]));
                }
                let x = self.state[i][j].clone_val();
                let y = rhs.state[k][l].clone_val();
                r.push(x.mul_val(&y));
                q = q + 1;
            }
            state.push(r);
            p = p + 1;
        }
        let m = Matrix { state, row: rn, col: rc };
        proof {
            assert(m@ =~~= grid_tensor(self@, n1 as nat, c1 as nat, rhs@, n2 as nat, c2 as nat));
            assert forall|i: int, j: int, k: int, l: int|
                0 <= i < n1 && 0 <= j < c1 && 0 <= k < n2 && 0 <= l < c2 implies m@[i * n2 + k][j
                * c2 + l] == (#[trigger] self@[i][j].mul_spec(rhs@[k][l])) by {
                lemma_tensor_entry(
                    self@,
                    n1 as nat,
                    c1 as nat,
                    rhs@,
                    n2 as nat,
                    c2 as nat,
                    i,
                    j,
                    k,
                    l,
                );
            }
        }
        m
    }
}

/// Elementwise addition. The operands must have identical shape:
/// a call on matrices of differing shape is rejected by the
/// precondition.
pub trait Add<RHS = Self> {
    type Output;

    /// When the operands may be added.
    spec fn add_req(&self, rhs: &RHS) -> bool;

    /// What the sum is.
    spec fn add_ens(&self, rhs: &RHS, out: &Self::Output) -> bool;

    #[allow(non_snake_case)]
    fn Add(&self, rhs: RHS) -> (r: Self::Output)
        requires
            self.add_req(&rhs),
        ensures
            self.add_ens(&rhs, &r),
    ;
}

impl<T: AddElement> Add for Matrix<T> {
    type Output = Matrix<T>;

    /// Both operands are well formed, of identical shape, and every
    /// elementwise sum is representable.
    open spec fn add_req(&self, rhs: &Matrix<T>) -> bool {
        &&& self.well_formed()
        &&& rhs.well_formed()
        &&& self.spec_row() == rhs.spec_row()
        &&& self.spec_col() == rhs.spec_col()
        &&& grid_add_pre(self@, rhs@)
    }

    /// The result has the operands' shape and holds the elementwise
    /// sums.
    open spec fn add_ens(&self, rhs: &Matrix<T>, out: &Matrix<T>) -> bool {
        &&& out.well_formed()
        &&& out.spec_row() == self.spec_row()
        &&& out.spec_col() == self.spec_col()
        &&& out@ == grid_add(self@, rhs@)
        &&& forall|i: int, j: int|
            0 <= i < self.spec_row() && 0 <= j < self.spec_col()
                ==> out@[i][j] == self@[i][j].add_spec(rhs@[i][j])
    }

    #[allow(non_snake_case)]
    fn Add(&self, rhs: Matrix<T>) -> Matrix<T> {
        let n: usize = self.row;
        let c: usize = self.col;
        let mut state: Vec<Vec<T>> = Vec::new();
        let mut i: usize = 0;
        while i < n
            invariant
                i <= n,
                self.add_req(&rhs),
                n == self.spec_row(),
                c == self.spec_col(),
                state@.len() == i,
                forall|a: int| 0 <= a < i ==> (#[trigger] state@[a])@.len() == c,
                forall|a: int, b: int|
                    0 <= a < i && 0 <= b < c
                        ==> state@[a]@[b] == self@[a][b].add_spec(rhs@[a][b]),
            decreases n - i,
        {
            let mut r: Vec<T> = Vec::new();
            let mut j: usize = 0;
            while j < c
                invariant
                    j <= c,
                    i < n,
                    self.add_req(&rhs),
                    n == self.spec_row(),
                    c == self.spec_col(),
                    r@.len() == j,
                    forall|b: int| 0 <= b < j ==> r@[b] == self@[i as int][b].add_spec(
                        rhs@[i as int][b],
                    ),
                decreases c - j,
            {
                proof {
                    assert(self.state@[i as int]@ == self@[i as int]);
                    assert(rhs.state@[i as int]@ == rhs@[i as int]);
                    assert(self@[i as int].len() == c);
                    assert(rhs@[i as int].len() == c);
                    assert(self@[i as int][j as int].add_pre(rhs@[i as int][j as int]));
                }
                r.push(self.state[i][j].add_val(&rhs.state[i][j]));
                j = j + 1;
            }
            state.push(r);
            i = i + 1;
        }
        let m = Matrix { state, row: n, col: c };
        proof {
            assert(m@ =~~= grid_add(self@, rhs@));
        }
        m
    }
}

/// Elementwise subtraction. The operands must have identical shape:
/// a call on matrices of differing shape is rejected by the
/// precondition.
pub trait Sub<RHS = Self> {
    type Output;

    /// When the operands may be subtracted.
    spec fn sub_req(&self, rhs: &RHS) -> bool;

    /// What the difference is.
    spec fn sub_ens(&self, rhs: &RHS, out: &Self::Output) -> bool;

    #[allow(non_snake_case)]
    fn Sub(&self, rhs: RHS) -> (r: Self::Output)
        requires
            self.sub_req(&rhs),
        ensures
            self.sub_ens(&rhs, &r),
    ;
}

impl<T: SubElement> Sub for Matrix<T> {
    type Output = Matrix<T>;

    /// Both operands are well formed, of identical shape, and every
    /// elementwise difference is representable.
    open spec fn sub_req(&self, rhs: &Matrix<T>) -> bool {
        &&& self.well_formed()
        &&& rhs.well_formed()
        &&& self.spec_row() == rhs.spec_row()
        &&& self.spec_col() == rhs.spec_col()
        &&& grid_sub_pre(self@, rhs@)
    }

    /// The result has the operands' shape and holds the elementwise
    /// differences.
    open spec fn sub_ens(&self, rhs: &Matrix<T>, out: &Matrix<T>) -> bool {
        &&& out.well_formed()
        &&& out.spec_row() == self.spec_row()
        &&& out.spec_col() == self.spec_col()
        &&& out@ == grid_sub(self@, rhs@)
        &&& forall|i: int, j: int|
            0 <= i < self.spec_row() && 0 <= j < self.spec_col()
                ==> out@[i][j] == self@[i][j].sub_spec(rhs@[i][j])
    }

    #[allow(non_snake_case)]
    fn Sub(&self, rhs: Matrix<T>) -> Matrix<T> {
        let n: usize = self.row;
        let c: usize = self.col;
        let mut state: Vec<Vec<T>> = Vec::new();
        let mut i: usize = 0;
        while i < n
            invariant
                i <= n,
                self.sub_req(&rhs),
                n == self.spec_row(),
                c == self.spec_col(),
                state@.len() == i,
                forall|a: int| 0 <= a < i ==> (#[trigger] state@[a])@.len() == c,
                forall|a: int, b: int|
                    0 <= a < i && 0 <= b < c
                        ==> state@[a]@[b] == self@[a][b].sub_spec(rhs@[a][b]),
            decreases n - i,
        {
            let mut r: Vec<T> = Vec::new();
            let mut j: usize = 0;
            while j < c
                invariant
                    j <= c,
                    i < n,
                    self.sub_req(&rhs),
                    n == self.spec_row(),
                    c == self.spec_col(),
                    r@.len() == j,
                    forall|b: int| 0 <= b < j ==> r@[b] == self@[i as int][b].sub_spec(
                        rhs@[i as int][b],
                    ),
                decreases c - j,
            {
                proof {
                    assert(self.state@[i as int]@ == self@[i as int]);
                    assert(rhs.state@[i as int]@ == rhs@[i as int]);
                    assert(self@[i as int].len() == c);
                    assert(rhs@[i as int].len() == c);
                    assert(self@[i as int][j as int].sub_pre(rhs@[i as int][j as int]));
                }
                r.push(self.state[i][j].sub_val(&rhs.state[i][j]));
                j = j + 1;
            }
            state.push(r);
            i = i + 1;
        }
        let m = Matrix { state, row: n, col: c };
        proof {
            assert(m@ =~~= grid_sub(self@, rhs@));
        }
        m
    }
}

/// Every product of an element of `a` (a `r1` by `c1` grid) with an
/// element of `b` (a `r2` by `c2` grid) is representable.
pub open spec fn grid_tensor_pre<T: MulElement>(
    a: Seq<Seq<T>>,
    r1: nat,
    c1: nat,
    b: Seq<Seq<T>>,
    r2: nat,
    c2: nat,
) -> bool {
    forall|i: int, j: int, k: int, l: int|
        0 <= i < r1 && 0 <= j < c1 && 0 <= k < r2 && 0 <= l < c2
            ==> #[trigger] a[i][j].mul_pre(b[k][l])
}

/// The Kronecker (tensor) product of `a` (a `r1` by `c1` grid) and
/// `b` (a `r2` by `c2` grid): a `r1 * r2` by `c1 * c2` grid whose
/// entry at `(i * r2 + k, j * c2 + l)` is `a[i][j] * b[k][l]`.
pub open spec fn grid_tensor<T: MulElement>(
    a: Seq<Seq<T>>,
    r1: nat,
    c1: nat,
    b: Seq<Seq<T>>,
    r2: nat,
    c2: nat,
) -> Seq<Seq<T>> {
    Seq::new(
        r1 * r2,
        |p: int|
            Seq::new(
                c1 * c2,
                |q: int| a[p / r2 as int][q / c2 as int].mul_spec(b[p % r2 as int][q % c2 as int]),
            ),
    )
}

/// The block law of the tensor product: the entry of the product at
/// `(i * r2 + k, j * c2 + l)` is `a[i][j] * b[k][l]` for every valid
/// `(i, j, k, l)`.
pub proof fn lemma_tensor_entry<T: MulElement>(
    a: Seq<Seq<T>>,
    r1: nat,
    c1: nat,
    b: Seq<Seq<T>>,
    r2: nat,
    c2: nat,
    i: int,
    j: int,
    k: int,
    l: int,
)
    requires
        0 <= i < r1,
        0 <= j < c1,
        0 <= k < r2,
        0 <= l < c2,
    ensures
        grid_tensor(a, r1, c1, b, r2, c2)[i * r2 + k][j * c2 + l] == a[i][j].mul_spec(b[k][l]),
{
    let p: int = i * r2 + k;
    let q: int = j * c2 + l;
    assert(0 <= p < r1 * r2 && 0 <= q < c1 * c2) by (nonlinear_arith)
        requires
            0 <= i < r1,
            0 <= k < r2,
            0 <= j < c1,
            0 <= l < c2,
            p == i * r2 + k,
            q == j * c2 + l,
    ;
    lemma_fundamental_div_mod_converse(p, r2 as int, i, k);
    lemma_fundamental_div_mod_converse(q, c2 as int, j, l);
}

/// Multiplication, by a matrix or by a scalar.
pub trait Mul<RHS = Self> {
    type Output;

    /// When the operands may be multiplied.
    spec fn mul_req(&self, rhs: &RHS) -> bool;

    /// What the product is.
    spec fn mul_ens(&self, rhs: &RHS, out: &Self::Output) -> bool;

    #[allow(non_snake_case)]
    fn Mul(&self, rhs: RHS) -> (r: Self::Output)
        requires
            self.mul_req(&rhs),
        ensures
            self.mul_ens(&rhs, &r),
    ;
}

/// Conventional matrix multiplication, contracting over the shared
/// dimension: entry `(i, j)` of the product is the dot product of row
/// `i` of `self` and column `j` of `rhs`. The operands must satisfy
/// `self.col == rhs.row`; a call on incompatible shapes is rejected
/// by the precondition.
impl<T: AddElement + MulElement> Mul for Matrix<T> {
    type Output = Matrix<T>;

    /// Both operands are well formed, the shapes are compatible
    /// (`self.col == rhs.row`), and every dot product is
    /// representable.
    open spec fn mul_req(&self, rhs: &Matrix<T>) -> bool {
        &&& self.well_formed()
        &&& rhs.well_formed()
        &&& self.spec_col() == rhs.spec_row()
        &&& grid_matmul_pre(
            self@,
            rhs@,
            self.spec_row() as nat,
            self.spec_col() as nat,
            rhs.spec_col() as nat,
        )
    }

    /// The result is `self.row` by `rhs.col` and holds the dot
    /// products of rows of `self` with columns of `rhs`.
    open spec fn mul_ens(&self, rhs: &Matrix<T>, out: &Matrix<T>) -> bool {
        &&& out.well_formed()
        &&& out.spec_row() == self.spec_row()
        &&& out.spec_col() == rhs.spec_col()
        &&& out@ == grid_matmul(self@, rhs@, self.spec_col() as nat, rhs.spec_col() as nat)
        &&& forall|i: int, j: int|
            0 <= i < self.spec_row() && 0 <= j < rhs.spec_col()
                ==> out@[i][j] == dot(
                    self@[i],
                    grid_col(rhs@, j, self.spec_col() as nat),
                    self.spec_col() as int,
                )
    }

    #[allow(non_snake_case)]
    fn Mul(&self, rhs: Matrix<T>) -> Matrix<T> {
        let n: usize = self.row;
        let inner: usize = self.col;
        let c: usize = rhs.col;
        let mut state: Vec<Vec<T>> = Vec::new();
        let mut i: usize = 0;
        while i < n
            invariant
                i <= n,
                self.mul_req(&rhs),
                n == self.spec_row(),
                inner == self.spec_col(),
                c == rhs.spec_col(),
                state@.len() == i,
                forall|a: int| 0 <= a < i ==> (#[trigger] state@[a])@.len() == c,
                forall|a: int, b: int|
                    0 <= a < i && 0 <= b < c ==> state@[a]@[b] == dot(
                        self@[a],
                        grid_col(rhs@, b, inner as nat),
                        inner as int,
                    ),
            decreases n - i,
        {
            let mut r: Vec<T> = Vec::new();
            let mut j: usize = 0;
            while j < c
                invariant
                    j <= c,
                    i < n,
                    self.mul_req(&rhs),
                    n == self.spec_row(),
                    inner == self.spec_col(),
                    c == rhs.spec_col(),
                    r@.len() == j,
                    forall|b: int| 0 <= b < j ==> r@[b] == dot(
                        self@[i as int],
                        grid_col(rhs@, b, inner as nat),
                        inner as int,
                    ),
                decreases c - j,
            {
                let ghost va: Seq<T> = self@[i as int];
                let ghost vb: Seq<T> = grid_col(rhs@, j as int, inner as nat);
                let mut acc: T = T::zero_val();
                let mut k: usize = 0;
                while k < inner
                    invariant
                        k <= inner,
                        i < n,
                        j < c,
                        self.mul_req(&rhs),
                        n == self.spec_row(),
                        inner == self.spec_col(),
                        c == rhs.spec_col(),
                        va == self@[i as int],
                        vb == grid_col(rhs@, j as int, inner as nat),
                        acc == dot(va, vb, k as int),
                    decreases inner - k,
                {
                    proof {
                        assert(dot_pre(va, vb, inner as int));
                        lemma_dot_pre_prefix(va, vb, k as int + 1, inner as int);
                        assert(self.state@[i as int]@ == self@[i as int]);
                        assert(rhs.state@[k as int]@ == rhs@[k as int]);
                        assert(self@[i as int].len() == inner);
                        assert(rhs@[k as int].len() == c);
                        assert(vb[k as int] == rhs@[k as int][j as int]);
                    }
                    let p = self.state[i][k].mul_val(&rhs.state[k][j]);
                    acc = acc.add_val(&p);
                    k = k + 1;
                }
                r.push(acc);
                j = j + 1;
            }
            state.push(r);
            i = i + 1;
        }
        let m = Matrix { state, row: n, col: c };
        proof {
            assert(m@ =~~= grid_matmul(self@, rhs@, inner as nat, c as nat));
        }
        m
    }
}

/// Scalar multiplication: every element of the result is the
/// corresponding element of `self` multiplied by the scalar.
impl<T: MulElement> Mul<T> for Matrix<T> {
    type Output = Matrix<T>;

    /// The matrix is well formed and every product with the scalar
    /// is representable.
    open spec fn mul_req(&self, rhs: &T) -> bool {
        &&& self.well_formed()
        &&& grid_scale_pre(self@, *rhs)
    }

    /// The result has the shape of `self`, with every element
    /// multiplied by the scalar.
    open spec fn mul_ens(&self, rhs: &T, out: &Matrix<T>) -> bool {
        &&& out.well_formed()
        &&& out.spec_row() == self.spec_row()
        &&& out.spec_col() == self.spec_col()
        &&& out@ == grid_scale(self@, *rhs)
        &&& forall|i: int, j: int|
            0 <= i < self.spec_row() && 0 <= j < self.spec_col()
                ==> out@[i][j] == self@[i][j].mul_spec(*rhs)
    }

    #[allow(non_snake_case)]
    fn Mul(&self, rhs: T) -> Matrix<T> {
        let n: usize = self.row;
        let c: usize = self.col;
        let mut state: Vec<Vec<T>> = Vec::new();
        let mut i: usize = 0;
        while i < n
            invariant
                i <= n,
                self.mul_req(&rhs),
                n == self.spec_row(),
                c == self.spec_col(),
                state@.len() == i,
                forall|a: int| 0 <= a < i ==> (#[trigger] state@[a])@.len() == c,
                forall|a: int, b: int|
                    0 <= a < i && 0 <= b < c ==> state@[a]@[b] == self@[a][b].mul_spec(rhs),
            decreases n - i,
        {
            let mut r: Vec<T> = Vec::new();
            let mut j: usize = 0;
            while j < c
                invariant
                    j <= c,
                    i < n,
                    self.mul_req(&rhs),
                    n == self.spec_row(),
                    c == self.spec_col(),
                    r@.len() == j,
                    forall|b: int| 0 <= b < j ==> r@[b] == self@[i as int][b].mul_spec(rhs),
                decreases c - j,
            {
                proof {
                    assert(self.state@[i as int]@ == self@[i as int]);
                    assert(self@[i as int].len() == c);
                    assert(self@[i as int][j as int].mul_pre(rhs));
                }
                r.push(self.state[i][j].mul_val(&rhs));
                j = j + 1;
            }
            state.push(r);
            i = i + 1;
        }
        let m = Matrix { state, row: n, col: c };
        proof {
            assert(m@ =~~= grid_scale(self@, rhs));
        }
        m
    }
}

/// Transposing twice gives back the original grid: for a well-formed
/// `rows` by `cols` grid `g`, the transpose of the transpose of `g`
/// equals `g` in shape and in every element.
pub proof fn lemma_transpose_involution<T>(g: Seq<Seq<T>>, rows: nat, cols: nat)
    requires
        grid_wf(g, rows as int, cols as int),
    ensures
        grid_transpose(grid_transpose(g, rows, cols), cols, rows) == g,
{
    assert(grid_transpose(grid_transpose(g, rows, cols), cols, rows) =~~= g);
}

/// Adding a grid and then subtracting it gives back the original:
/// for equally-shaped well-formed grids `a` and `b` whose elementwise
/// sums are representable, `(a + b) - b` is representable and equals
/// `a` in shape and in every element.
pub proof fn lemma_add_sub_round_trip<T: CancelElement>(
    a: Seq<Seq<T>>,
    b: Seq<Seq<T>>,
    rows: nat,
    cols: nat,
)
    requires
        grid_wf(a, rows as int, cols as int),
        grid_wf(b, rows as int, cols as int),
        grid_add_pre(a, b),
    ensures
        grid_sub_pre(grid_add(a, b), b),
        grid_sub(grid_add(a, b), b) == a,
{
    let s = grid_add(a, b);
    assert forall|i: int, j: int| 0 <= i < s.len() && 0 <= j < s[i].len() implies (
    #[trigger] s[i][j].sub_pre(b[i][j])) by {
        T::lemma_add_sub_cancel(a[i][j], b[i][j]);
    }
    assert forall|i: int| 0 <= i < rows implies grid_sub(s, b)[i] =~= a[i] by {
        assert forall|j: int| 0 <= j < cols implies grid_sub(s, b)[i][j] == a[i][j] by {
            T::lemma_add_sub_cancel(a[i][j], b[i][j]);
        }
    }
    assert(grid_sub(s, b) =~= a);
}

/// Multiplying by the scalar one leaves a grid unchanged: for a
/// well-formed grid `g`, every product with the multiplicative
/// identity is representable and `g` scaled by it equals `g` in
/// shape and in every element.
pub proof fn lemma_scale_identity<T: MulElement>(g: Seq<Seq<T>>, rows: nat, cols: nat)
    requires
        grid_wf(g, rows as int, cols as int),
    ensures
        grid_scale_pre(g, T::one_spec()),
        grid_scale(g, T::one_spec()) == g,
{
    assert forall|i: int, j: int| 0 <= i < g.len() && 0 <= j < g[i].len() implies (
    #[trigger] g[i][j].mul_pre(T::one_spec())) by {
        T::lemma_mul_one(g[i][j]);
    }
    assert forall|i: int| 0 <= i < rows implies grid_scale(g, T::one_spec())[i] =~= g[i] by {
        assert forall|j: int| 0 <= j < cols implies grid_scale(g, T::one_spec())[i][j] == g[i][j] by {
            T::lemma_mul_one(g[i][j]);
        }
    }
    assert(grid_scale(g, T::one_spec()) =~= g);
}

} // verus!
