use vstd::prelude::*;

verus! {

/// The sequence of `n` zeros.
pub open spec fn zeros(n: nat) -> Seq<int> {
    Seq::new(n, |i: int| 0int)
}

/// The componentwise sum of two sequences of equal length.
pub open spec fn seq_add(a: Seq<int>, b: Seq<int>) -> Seq<int> {
    Seq::new(a.len(), |i: int| a[i] + b[i])
}

/// Every element lies within the range of `i64`.
pub open spec fn all_fit(s: Seq<int>) -> bool {
    forall|i: int| 0 <= i < s.len() ==> i64::MIN <= #[trigger] s[i] <= i64::MAX
}

/// A vector of `N` components, stored inline.
#[derive(Clone, Copy, Debug)]
pub struct VecN<const N: usize>([i64; N]);

impl<const N: usize> View for VecN<N> {
    type V = Seq<int>;

    closed spec fn view(&self) -> Seq<int> {
        self.0@.map_values(|x: i64| x as int)
    }
}

impl<const N: usize> VecN<N> {
    /// A vector always has exactly `N` components, each within the range of `i64`.
    pub proof fn lemma_len(&self)
        ensures
            self@.len() == N,
            all_fit(self@),
    {
    }

    /// The vector whose components are all zero.
    pub fn zero() -> (r: Self)
        ensures
            r@ == zeros(N as nat),
    {
        let r = VecN([0i64; N]);
        assert(r@ =~= zeros(N as nat));
        r
    }

    /// The vector whose component `i` is `init(i)`, calling `init` once for each index.
    pub fn from_fn<F: Fn(usize) -> i64>(init: F) -> (r: Self)
        requires
            forall|i: usize| i < N ==> #[trigger] init.requires((i,)),
        ensures
            r@.len() == N,
            forall|i: usize| i < N ==> #[trigger] init.ensures((i,), r@[i as int] as i64),
    {
        let mut a = [0i64; N];
        let mut k: usize = 0;
        while k < N
            invariant
                k <= N,
                forall|i: usize| i < N ==> #[trigger] init.requires((i,)),
                forall|i: usize| i < k ==> #[trigger] init.ensures((i,), a@[i as int]),
            decreases N - k,
        {
            let x = init(k);
            a[k] = x;
            k = k + 1;
        }
        VecN(a)
    }

    /// The component at position `i`.
    pub fn get(&self, i: usize) -> (r: i64)
        requires
            i < N,
        ensures
            r == self@[i as int],
    {
        self.0[i]
    }

    /// Replaces the component at position `i` with `x`.
    pub fn set(&mut self, i: usize, x: i64)
        requires
            i < N,
        ensures
            final(self)@ == old(self)@.update(i as int, x as int),
    {
        self.0[i] = x;
        assert(final(self)@ =~= old(self)@.update(i as int, x as int));
    }

    /// The componentwise sum of `self` and `rhs`.
    pub fn add_ref(&self, rhs: &Self) -> (r: Self)
        requires
            all_fit(seq_add(self@, rhs@)),
        ensures
            r@ == seq_add(self@, rhs@),
    {
        let mut a = [0i64; N];
        let mut k: usize = 0;
        while k < N
            invariant
                k <= N,
                all_fit(seq_add(self@, rhs@)),
                forall|i: int| 0 <= i < k ==> a@[i] == self@[i] + rhs@[i],
            decreases N - k,
        {
            assert(seq_add(self@, rhs@)[k as int] == self@[k as int] + rhs@[k as int]);
            let x = self.0[k] + rhs.0[k];
            a[k] = x;
            k = k + 1;
        }
        let r = VecN(a);
        assert(r@ =~= seq_add(self@, rhs@));
        r
    }
}

impl<const N: usize> core::ops::Index<usize> for VecN<N> {
    type Output = i64;

    fn index(&self, i: usize) -> (r: &i64)
        ensures
            *r == self@[i as int],
    {
        &self.0[i]
    }
}

impl<const N: usize> vstd::std_specs::core::IndexSpecImpl<usize> for VecN<N> {
    open spec fn index_req(&self, i: &usize) -> bool {
        *i < N
    }
}

impl<const N: usize> core::ops::Add for VecN<N> {
    type Output = Self;

    fn add(self, rhs: Self) -> (r: Self)
        ensures
            r@ == seq_add(self@, rhs@),
    {
        self.add_ref(&rhs)
    }
}

impl<const N: usize> vstd::std_specs::ops::AddSpecImpl for VecN<N> {
    /// The operator's result is stated by the `ensures` of the impl itself: there is
    /// no spec-level constructor for the inline array, so the generic hook stays off.
    open spec fn obeys_add_spec() -> bool {
        false
    }

    /// No intermediate value overflows `i64`.
    open spec fn add_req(self, rhs: Self) -> bool {
        all_fit(seq_add(self@, rhs@))
    }

    /// Not consulted while the hook is off.
    open spec fn add_spec(self, rhs: Self) -> Self {
        self
    }
}

impl<const N: usize> PartialEq for VecN<N> {
    fn eq(&self, other: &Self) -> (r: bool)
        ensures
            r == (self@ == other@),
    {
        let mut k: usize = 0;
        while k < N
            invariant
                k <= N,
                forall|i: int| 0 <= i < k ==> self@[i] == other@[i],
            decreases N - k,
        {
            if self.0[k] != other.0[k] {
                assert(self@[k as int] != other@[k as int]);
                return false;
            }
            k = k + 1;
        }
        assert(self@ =~= other@);
        true
    }
}

impl<const N: usize> vstd::std_specs::cmp::PartialEqSpecImpl for VecN<N> {
    open spec fn obeys_eq_spec() -> bool {
        true
    }

    open spec fn eq_spec(&self, other: &Self) -> bool {
        self@ == other@
    }
}

impl<const N: usize> Eq for VecN<N> {
}

/// Adding the zero vector leaves a vector unchanged, and never overflows.
pub proof fn lemma_add_zero<const N: usize>(v: VecN<N>)
    ensures
        all_fit(seq_add(v@, zeros(N as nat))),
        seq_add(v@, zeros(N as nat)) == v@,
{
    v.lemma_len();
    assert(seq_add(v@, zeros(N as nat)) =~= v@);
}

/// Vector addition is commutative.
pub proof fn lemma_add_commutes<const N: usize>(a: VecN<N>, b: VecN<N>)
    ensures
        seq_add(a@, b@) == seq_add(b@, a@),
{
    a.lemma_len();
    b.lemma_len();
    assert(seq_add(a@, b@) =~= seq_add(b@, a@));
}

} // verus!
