use vstd::prelude::*;

use crate::sum::{
    lemma_sum_ext, lemma_sum_scale_left, lemma_sum_scale_right, lemma_sum_swap, sum_to,
};
use crate::vector::{all_fit, seq_add, zeros, VecN};

verus! {

/// The `n` by `n` matrix of zeros, as a sequence of rows.
pub open spec fn zero_rows(n: nat) -> Seq<Seq<int>> {
    Seq::new(n, |i: int| zeros(n))
}

/// The `n` by `n` identity matrix, as a sequence of rows.
pub open spec fn identity(n: nat) -> Seq<Seq<int>> {
    Seq::new(n, |i: int| Seq::new(n, |j: int| if i == j { 1int } else { 0int }))
}

/// The entrywise sum of two matrices of equal shape.
pub open spec fn mat_add(a: Seq<Seq<int>>, b: Seq<Seq<int>>) -> Seq<Seq<int>> {
    Seq::new(a.len(), |i: int| seq_add(a[i], b[i]))
}

/// The sum of `a[i][t] * b[t][j]` over `t` in `0 .. k`, accumulated in ascending `t`.
pub open spec fn dot(a: Seq<Seq<int>>, b: Seq<Seq<int>>, i: int, j: int, k: int) -> int {
    sum_to(|t: int| a[i][t] * b[t][j], k)
}

/// The product of two square matrices of equal size.
pub open spec fn mat_mul(a: Seq<Seq<int>>, b: Seq<Seq<int>>) -> Seq<Seq<int>> {
    Seq::new(a.len(), |i: int| Seq::new(a.len(), |j: int| dot(a, b, i, j, a.len() as int)))
}

/// Every entry lies within the range of `i64`.
pub open spec fn mat_fits(m: Seq<Seq<int>>) -> bool {
    forall|i: int| 0 <= i < m.len() ==> all_fit(#[trigger] m[i])
}

/// The value lies within the range of `i64`.
pub open spec fn fits(x: int) -> bool {
    i64::MIN <= x <= i64::MAX
}

/// Every product and every partial sum met while computing `a * b` in ascending
/// order lies within the range of `i64`.
pub open spec fn mul_fits(a: Seq<Seq<int>>, b: Seq<Seq<int>>) -> bool {
    let n = a.len() as int;
    &&& forall|i: int, j: int, t: int|
        0 <= i < n && 0 <= j < n && 0 <= t < n ==> fits(#[trigger] (a[i][t] * b[t][j]))
    &&& forall|i: int, j: int, k: int|
        0 <= i < n && 0 <= j < n && 0 <= k <= n ==> fits(#[trigger] dot(a, b, i, j, k))
}

/// `m` has `n` rows of `n` entries each.
pub open spec fn is_square(m: Seq<Seq<int>>, n: int) -> bool {
    &&& m.len() == n
    &&& forall|i: int| 0 <= i < n ==> (#[trigger] m[i]).len() == n
}

/// A partial product against the identity on the right picks out one entry.
proof fn lemma_dot_identity_right(m: Seq<Seq<int>>, n: int, i: int, j: int, k: int)
    requires
        is_square(m, n),
        0 <= i < n,
        0 <= j < n,
        0 <= k <= n,
    ensures
        dot(m, identity(n as nat), i, j, k) == if j < k { m[i][j] } else { 0 },
    decreases k,
{
    if k > 0 {
        lemma_dot_identity_right(m, n, i, j, k - 1);
        let x = m[i][k - 1];
        assert(x * 1 == x && x * 0 == 0) by (nonlinear_arith);
    }
}

/// A partial product against the identity on the left picks out one entry.
proof fn lemma_dot_identity_left(m: Seq<Seq<int>>, n: int, i: int, j: int, k: int)
    requires
        is_square(m, n),
        0 <= i < n,
        0 <= j < n,
        0 <= k <= n,
    ensures
        dot(identity(n as nat), m, i, j, k) == if i < k { m[i][j] } else { 0 },
    decreases k,
{
    if k > 0 {
        lemma_dot_identity_left(m, n, i, j, k - 1);
        let x = m[k - 1][j];
        assert(1 * x == x && 0 * x == 0) by (nonlinear_arith);
    }
}

/// Multiplying by the identity, on either side, leaves a matrix unchanged, and
/// never overflows.
pub proof fn lemma_mul_identity<const N: usize>(m: Matrix<N>)
    ensures
        mul_fits(m@, identity(N as nat)),
        mul_fits(identity(N as nat), m@),
        mat_mul(m@, identity(N as nat)) == m@,
        mat_mul(identity(N as nat), m@) == m@,
{
    m.lemma_shape();
    let n = N as int;
    let id = identity(N as nat);
    assert forall|i: int, j: int, t: int| 0 <= i < n && 0 <= j < n && 0 <= t < n implies fits(
        #[trigger] (m@[i][t] * id[t][j]),
    ) by {
        assert(all_fit(m@[i]));
        let x = m@[i][t];
        assert(x * 1 == x && x * 0 == 0) by (nonlinear_arith);
    }
    assert forall|i: int, j: int, t: int| 0 <= i < n && 0 <= j < n && 0 <= t < n implies fits(
        #[trigger] (id[i][t] * m@[t][j]),
    ) by {
        assert(all_fit(m@[t]));
        let y = m@[t][j];
        assert(1 * y == y && 0 * y == 0) by (nonlinear_arith);
    }
    assert forall|i: int, j: int, k: int| 0 <= i < n && 0 <= j < n && 0 <= k <= n implies fits(
        #[trigger] dot(m@, id, i, j, k),
    ) by {
        assert(all_fit(m@[i]));
        lemma_dot_identity_right(m@, n, i, j, k);
    }
    assert forall|i: int, j: int, k: int| 0 <= i < n && 0 <= j < n && 0 <= k <= n implies fits(
        #[trigger] dot(id, m@, i, j, k),
    ) by {
        assert(all_fit(m@[i]));
        lemma_dot_identity_left(m@, n, i, j, k);
    }
    assert forall|i: int, j: int| 0 <= i < n && 0 <= j < n implies #[trigger] mat_mul(
        m@,
        id,
    )[i][j] == m@[i][j] && mat_mul(id, m@)[i][j] == m@[i][j] by {
        lemma_dot_identity_right(m@, n, i, j, n);
        lemma_dot_identity_left(m@, n, i, j, n);
    }
    assert(mat_mul(m@, id) =~~= m@);
    assert(mat_mul(id, m@) =~~= m@);
}

/// One entry of `(a * b) * c` equals the same entry of `a * (b * c)`.
proof fn lemma_mul_assoc_entry(
    a: Seq<Seq<int>>,
    b: Seq<Seq<int>>,
    c: Seq<Seq<int>>,
    n: int,
    i: int,
    j: int,
)
    requires
        is_square(a, n),
        is_square(b, n),
        is_square(c, n),
        0 <= i < n,
        0 <= j < n,
    ensures
        mat_mul(mat_mul(a, b), c)[i][j] == mat_mul(a, mat_mul(b, c))[i][j],
{
    let ab = mat_mul(a, b);
    let bc = mat_mul(b, c);
    let g = |s: int, t: int| a[i][s] * b[s][t] * c[t][j];
    assert forall|t: int| 0 <= t < n implies #[trigger] ab[i][t] * c[t][j] == sum_to(
        |s: int| g(s, t),
        n,
    ) by {
        let f = |s: int| a[i][s] * b[s][t];
        lemma_sum_scale_right(f, c[t][j], n);
        lemma_sum_ext(|s: int| f(s) * c[t][j], |s: int| g(s, t), n);
    }
    lemma_sum_ext(|t: int| ab[i][t] * c[t][j], |t: int| sum_to(|s: int| g(s, t), n), n);
    lemma_sum_swap(g, n, n);
    assert forall|s: int| 0 <= s < n implies sum_to(|t: int| g(s, t), n) == a[i][s] * #[trigger] bc[s][j] by {
        let f = |t: int| b[s][t] * c[t][j];
        lemma_sum_scale_left(a[i][s], f, n);
        assert forall|t: int| 0 <= t < n implies #[trigger] g(s, t) == a[i][s] * f(t) by {
            let x = a[i][s];
            let y = b[s][t];
            let z = c[t][j];
            assert(x * y * z == x * (y * z)) by (nonlinear_arith);
        }
        lemma_sum_ext(|t: int| g(s, t), |t: int| a[i][s] * f(t), n);
    }
    lemma_sum_ext(|s: int| sum_to(|t: int| g(s, t), n), |s: int| a[i][s] * bc[s][j], n);
}

/// Matrix multiplication is associative: `(a * b) * c == a * (b * c)`, exactly,
/// as integer arithmetic has no rounding.
pub proof fn lemma_mul_assoc<const N: usize>(a: Matrix<N>, b: Matrix<N>, c: Matrix<N>)
    ensures
        mat_mul(mat_mul(a@, b@), c@) == mat_mul(a@, mat_mul(b@, c@)),
{
    a.lemma_shape();
    b.lemma_shape();
    c.lemma_shape();
    let n = N as int;
    assert forall|i: int, j: int| 0 <= i < n && 0 <= j < n implies #[trigger] mat_mul(
        mat_mul(a@, b@),
        c@,
    )[i][j] == mat_mul(a@, mat_mul(b@, c@))[i][j] by {
        lemma_mul_assoc_entry(a@, b@, c@, n, i, j);
    }
    assert(mat_mul(mat_mul(a@, b@), c@) =~~= mat_mul(a@, mat_mul(b@, c@)));
}

/// A square matrix of `N` rows, each a vector of `N` components, stored inline.
#[derive(Clone, Copy, Debug)]
pub struct Matrix<const N: usize>([VecN<N>; N]);

impl<const N: usize> View for Matrix<N> {
    type V = Seq<Seq<int>>;

    closed spec fn view(&self) -> Seq<Seq<int>> {
        self.0@.map_values(|r: VecN<N>| r@)
    }
}

impl<const N: usize> Matrix<N> {
    /// A matrix always has `N` rows of `N` entries each.
    pub proof fn lemma_shape(&self)
        ensures
            self@.len() == N,
            forall|i: int| 0 <= i < N ==> (#[trigger] self@[i]).len() == N,
            mat_fits(self@),
    {
        assert forall|i: int| 0 <= i < N implies (#[trigger] self@[i]).len() == N && all_fit(
            self@[i],
        ) by {
            self.0@[i].lemma_len();
        }
    }

    /// The matrix whose entries are all zero.
    pub fn zero() -> (r: Self)
        ensures
            r@ == zero_rows(N as nat),
    {
        let z = VecN::<N>::zero();
        let r = Matrix([z; N]);
        assert(r@ =~= zero_rows(N as nat));
        r
    }

    /// The row at position `i`.
    pub fn row(&self, i: usize) -> (r: VecN<N>)
        requires
            i < N,
        ensures
            r@ == self@[i as int],
    {
        self.0[i]
    }

    /// Replaces the row at position `i` with `v`.
    pub fn set_row(&mut self, i: usize, v: VecN<N>)
        requires
            i < N,
        ensures
            final(self)@ == old(self)@.update(i as int, v@),
    {
        self.0[i] = v;
        assert(final(self)@ =~= old(self)@.update(i as int, v@));
    }

    /// The entry at row `i` and column `j`.
    pub fn get(&self, i: usize, j: usize) -> (r: i64)
        requires
            i < N,
            j < N,
        ensures
            r == self@[i as int][j as int],
    {
        self.0[i].get(j)
    }

    /// Replaces the entry at row `i` and column `j` with `x`.
    pub fn set(&mut self, i: usize, j: usize, x: i64)
        requires
            i < N,
            j < N,
        ensures
            final(self)@ == old(self)@.update(i as int, old(self)@[i as int].update(j as int, x as int)),
    {
        let mut row = self.0[i];
        row.set(j, x);
        self.0[i] = row;
        assert(final(self)@ =~= old(self)@.update(i as int, old(self)@[i as int].update(j as int, x as int)));
    }

    /// The identity matrix: ones on the diagonal, zeros elsewhere.
    pub fn ident() -> (r: Self)
        ensures
            r@ == identity(N as nat),
    {
        let mut ret = Self::zero();
        let mut k: usize = 0;
        while k < N
            invariant
                k <= N,
                ret@.len() == N,
                forall|i: int| 0 <= i < N ==> (#[trigger] ret@[i]).len() == N,
                forall|i: int, j: int|
                    0 <= i < N && 0 <= j < N ==> #[trigger] ret@[i][j] == if i == j && i < k {
                        1int
                    } else {
                        0int
                    },
            decreases N - k,
        {
            ret.set(k, k, 1);
            k = k + 1;
        }
        assert(ret@ =~~= identity(N as nat));
        ret
    }

    /// The matrix whose entry at row `i` and column `j` is `init((i, j))`, calling
    /// `init` once for each pair.
    pub fn from_fn<F: Fn((usize, usize)) -> i64>(init: F) -> (r: Self)
        requires
            forall|i: usize, j: usize| i < N && j < N ==> #[trigger] init.requires(((i, j),)),
        ensures
            forall|i: usize, j: usize|
                i < N && j < N ==> #[trigger] init.ensures(((i, j),), r@[i as int][j as int] as i64),
    {
        let mut rows = [VecN::<N>::zero(); N];
        let mut k: usize = 0;
        while k < N
            invariant
                k <= N,
                forall|i: usize, j: usize| i < N && j < N ==> #[trigger] init.requires(((i, j),)),
                forall|i: usize, j: usize|
                    i < k && j < N ==> #[trigger] init.ensures(((i, j),), rows@[i as int]@[j as int] as i64),
            decreases N - k,
        {
            let row = k;
            let f = &init;
            let g = move |j: usize| -> (x: i64)
                requires
                    f.requires(((row, j),)),
                ensures
                    f.ensures(((row, j),), x),
                { f((row, j)) };
            let v = VecN::<N>::from_fn(g);
            let ghost prev = rows@;
            rows[k] = v;
            proof {
                assert forall|i: usize, j: usize| i < k + 1 && j < N implies #[trigger] init.ensures(
                    ((i, j),),
                    rows@[i as int]@[j as int] as i64,
                ) by {
                    if i < k {
                        assert(rows@[i as int] == prev[i as int]);
                    } else {
                        assert(g.ensures((j,), v@[j as int] as i64));
                    }
                }
            }
            k = k + 1;
        }
        Matrix(rows)
    }

    /// The entrywise sum of `self` and `rhs`.
    pub fn add_ref(&self, rhs: &Self) -> (r: Self)
        requires
            mat_fits(mat_add(self@, rhs@)),
        ensures
            r@ == mat_add(self@, rhs@),
    {
        proof {
            self.lemma_shape();
            rhs.lemma_shape();
        }
        let mut rows = [VecN::<N>::zero(); N];
        let mut k: usize = 0;
        while k < N
            invariant
                k <= N,
                self@.len() == N,
                mat_fits(mat_add(self@, rhs@)),
                forall|i: int| 0 <= i < k ==> (#[trigger] rows@[i])@ == seq_add(self@[i], rhs@[i]),
            decreases N - k,
        {
            assert(mat_add(self@, rhs@)[k as int] == seq_add(self@[k as int], rhs@[k as int]));
            let v = self.0[k].add_ref(&rhs.0[k]);
            rows[k] = v;
            k = k + 1;
        }
        let r = Matrix(rows);
        assert(r@ =~= mat_add(self@, rhs@));
        r
    }

    /// The sum of `self[i][t] * rhs[t][j]` over `t` in ascending order.
    fn dot_at(&self, rhs: &Self, i: usize, j: usize) -> (x: i64)
        requires
            i < N,
            j < N,
            mul_fits(self@, rhs@),
        ensures
            x == dot(self@, rhs@, i as int, j as int, N as int),
    {
        proof {
            self.lemma_shape();
        }
        let mut acc: i64 = 0;
        let mut t: usize = 0;
        while t < N
            invariant
                t <= N,
                i < N,
                j < N,
                self@.len() == N,
                mul_fits(self@, rhs@),
                acc == dot(self@, rhs@, i as int, j as int, t as int),
            decreases N - t,
        {
            let a = self.0[i].get(t);
            let b = rhs.0[t].get(j);
            assert(fits(self@[i as int][t as int] * rhs@[t as int][j as int]));
            assert(fits(dot(self@, rhs@, i as int, j as int, t + 1)));
            let p = a * b;
            acc = acc + p;
            t = t + 1;
        }
        acc
    }

    /// The matrix product of `self` and `rhs`.
    pub fn mul_ref(&self, rhs: &Self) -> (r: Self)
        requires
            mul_fits(self@, rhs@),
        ensures
            r@ == mat_mul(self@, rhs@),
    {
        let entry = |rc: (usize, usize)| -> (x: i64)
            requires
                rc.0 < N && rc.1 < N && mul_fits(self@, rhs@),
            ensures
                x == dot(self@, rhs@, rc.0 as int, rc.1 as int, N as int),
            { self.dot_at(rhs, rc.0, rc.1) };
        let r = Matrix::from_fn(entry);
        proof {
            self.lemma_shape();
            r.lemma_shape();
            assert forall|i: int, j: int| 0 <= i < N && 0 <= j < N implies r@[i][j] == dot(
                self@,
                rhs@,
                i,
                j,
                N as int,
            ) by {
                assert(all_fit(r@[i]));
                assert(entry.ensures(((i as usize, j as usize),), r@[i][j] as i64));
                assert(r@[i][j] == (r@[i][j] as i64) as int);
            }
        }
        assert(r@ =~~= mat_mul(self@, rhs@));
        r
    }
}

impl<const N: usize> core::ops::Index<usize> for Matrix<N> {
    type Output = VecN<N>;

    fn index(&self, i: usize) -> (r: &VecN<N>)
        ensures
            r@ == self@[i as int],
    {
        &self.0[i]
    }
}

impl<const N: usize> vstd::std_specs::core::IndexSpecImpl<usize> for Matrix<N> {
    open spec fn index_req(&self, i: &usize) -> bool {
        *i < N
    }
}

impl<'a, const N: usize> core::ops::Add for &'a Matrix<N> {
    type Output = Matrix<N>;

    fn add(self, rhs: Self) -> (r: Matrix<N>)
        ensures
            r@ == mat_add(self@, rhs@),
    {
        self.add_ref(rhs)
    }
}

impl<'a, const N: usize> vstd::std_specs::ops::AddSpecImpl for &'a Matrix<N> {
    /// The operator's result is stated by the `ensures` of the impl itself: there is
    /// no spec-level constructor for the inline array, so the generic hook stays off.
    open spec fn obeys_add_spec() -> bool {
        false
    }

    /// No intermediate value overflows `i64`.
    open spec fn add_req(self, rhs: Self) -> bool {
        mat_fits(mat_add(self@, rhs@))
    }

    /// Not consulted while the hook is off.
    open spec fn add_spec(self, rhs: Self) -> Matrix<N> {
        *self
    }
}

impl<const N: usize> core::ops::Add for Matrix<N> {
    type Output = Self;

    fn add(self, rhs: Self) -> (r: Self)
        ensures
            r@ == mat_add(self@, rhs@),
    {
        (&self).add(&rhs)
    }
}

impl<const N: usize> vstd::std_specs::ops::AddSpecImpl for Matrix<N> {
    /// The operator's result is stated by the `ensures` of the impl itself: there is
    /// no spec-level constructor for the inline array, so the generic hook stays off.
    open spec fn obeys_add_spec() -> bool {
        false
    }

    /// No intermediate value overflows `i64`.
    open spec fn add_req(self, rhs: Self) -> bool {
        mat_fits(mat_add(self@, rhs@))
    }

    /// Not consulted while the hook is off.
    open spec fn add_spec(self, rhs: Self) -> Self {
        self
    }
}

impl<'a, const N: usize> core::ops::Mul for &'a Matrix<N> {
    type Output = Matrix<N>;

    fn mul(self, rhs: Self) -> (r: Matrix<N>)
        ensures
            r@ == mat_mul(self@, rhs@),
    {
        self.mul_ref(rhs)
    }
}

impl<'a, const N: usize> vstd::std_specs::ops::MulSpecImpl for &'a Matrix<N> {
    /// The operator's result is stated by the `ensures` of the impl itself: there is
    /// no spec-level constructor for the inline array, so the generic hook stays off.
    open spec fn obeys_mul_spec() -> bool {
        false
    }

    /// No intermediate value overflows `i64`.
    open spec fn mul_req(self, rhs: Self) -> bool {
        mul_fits(self@, rhs@)
    }

    /// Not consulted while the hook is off.
    open spec fn mul_spec(self, rhs: Self) -> Matrix<N> {
        *self
    }
}

impl<const N: usize> core::ops::Mul for Matrix<N> {
    type Output = Self;

    fn mul(self, rhs: Self) -> (r: Self)
        ensures
            r@ == mat_mul(self@, rhs@),
    {
        (&self).mul(&rhs)
    }
}

impl<const N: usize> vstd::std_specs::ops::MulSpecImpl for Matrix<N> {
    /// The operator's result is stated by the `ensures` of the impl itself: there is
    /// no spec-level constructor for the inline array, so the generic hook stays off.
    open spec fn obeys_mul_spec() -> bool {
        false
    }

    /// No intermediate value overflows `i64`.
    open spec fn mul_req(self, rhs: Self) -> bool {
        mul_fits(self@, rhs@)
    }

    /// Not consulted while the hook is off.
    open spec fn mul_spec(self, rhs: Self) -> Self {
        self
    }
}

impl<const N: usize> PartialEq for Matrix<N> {
    fn eq(&self, other: &Self) -> (r: bool)
        ensures
            r == (self@ == other@),
    {
        proof {
            self.lemma_shape();
            other.lemma_shape();
        }
        let mut k: usize = 0;
        while k < N
            invariant
                k <= N,
                self@.len() == N,
                other@.len() == N,
                forall|i: int| 0 <= i < k ==> self@[i] == other@[i],
            decreases N - k,
        {
            if self.0[k] != other.0[k] {
                assert(self@[k as int] != other@[k as int]);
                return false;
            }
            k = k + 1;
        }
        assert(self@ =~= other@);
        true
    }
}

impl<const N: usize> vstd::std_specs::cmp::PartialEqSpecImpl for Matrix<N> {
    open spec fn obeys_eq_spec() -> bool {
        true
    }

    open spec fn eq_spec(&self, other: &Self) -> bool {
        self@ == other@
    }
}

impl<const N: usize> Eq for Matrix<N> {
}

} // verus!
