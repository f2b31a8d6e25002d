use crate::dimensions::{Continuous, Dimension, Discrete, Partitioned};
use crate::span::Span;
use rand::rngs::ThreadRng;
use vstd::arithmetic::power::{lemma_pow_increases, lemma_pow_positive, pow};
use vstd::prelude::*;

verus! {

/// An ordered composition of dimensions.
pub trait Space {
    type Repr;

    spec fn wf(&self) -> bool;

    /// The number of dimensions.
    spec fn spec_dim(&self) -> nat;

    /// The product of the spans of the dimensions.
    spec fn spec_span(&self) -> Span;

    /// `v` is a point of the space.
    spec fn holds(&self, v: Self::Repr) -> bool;

    fn sample(&self, rng: &mut ThreadRng) -> (r: Self::Repr)
        requires
            self.wf(),
        ensures
            self.holds(r),
    ;

    fn dim(&self) -> (r: usize)
        ensures
            r == self.spec_dim(),
    ;

    fn span(&self) -> (r: Span)
        requires
            self.wf(),
        ensures
            r == self.spec_span(),
    ;
}

/// The space of actions of a domain: one discrete axis.
pub type ActionSpace = UnitarySpace<Discrete>;

/// The space with no dimensions.
#[derive(Clone, Copy, Debug, PartialEq, Eq, Structural)]
pub struct NullSpace;

impl Space for NullSpace {
    type Repr = ();

    open spec fn wf(&self) -> bool {
        true
    }

    open spec fn spec_dim(&self) -> nat {
        0
    }

    open spec fn spec_span(&self) -> Span {
        Span::Null
    }

    open spec fn holds(&self, v: ()) -> bool {
        true
    }

    fn sample(&self, rng: &mut ThreadRng) -> (r: ()) {
    }

    fn dim(&self) -> (r: usize) {
        0
    }

    fn span(&self) -> (r: Span) {
        Span::Null
    }
}

/// A space of a single dimension.
#[derive(Clone, Debug)]
pub struct UnitarySpace<D: Dimension>(pub D);

impl<D: Dimension> UnitarySpace<D> {
    pub fn new(d: D) -> (r: Self)
        ensures
            r.0 == d,
    {
        UnitarySpace(d)
    }
}

impl<D: Dimension> Space for UnitarySpace<D> {
    type Repr = D::Value;

    open spec fn wf(&self) -> bool {
        self.0.wf()
    }

    open spec fn spec_dim(&self) -> nat {
        1
    }

    open spec fn spec_span(&self) -> Span {
        self.0.spec_span()
    }

    open spec fn holds(&self, v: D::Value) -> bool {
        self.0.holds(v)
    }

    fn sample(&self, rng: &mut ThreadRng) -> (r: D::Value) {
        self.0.sample(rng)
    }

    fn dim(&self) -> (r: usize) {
        1
    }

    fn span(&self) -> (r: Span) {
        self.0.span()
    }
}

/// A space of two dimensions, possibly of different kinds.
#[derive(Clone, Debug)]
pub struct PairSpace<D1: Dimension, D2: Dimension>(pub D1, pub D2);

impl<D1: Dimension, D2: Dimension> PairSpace<D1, D2> {
    pub fn new(d1: D1, d2: D2) -> (r: Self)
        ensures
            r.0 == d1,
            r.1 == d2,
    {
        PairSpace(d1, d2)
    }
}

impl<D1: Dimension, D2: Dimension> Space for PairSpace<D1, D2> {
    type Repr = (D1::Value, D2::Value);

    open spec fn wf(&self) -> bool {
        &&& self.0.wf()
        &&& self.1.wf()
        &&& self.0.spec_span().times_fits(self.1.spec_span())
    }

    open spec fn spec_dim(&self) -> nat {
        2
    }

    open spec fn spec_span(&self) -> Span {
        self.0.spec_span().spec_times(self.1.spec_span())
    }

    open spec fn holds(&self, v: (D1::Value, D2::Value)) -> bool {
        self.0.holds(v.0) && self.1.holds(v.1)
    }

    fn sample(&self, rng: &mut ThreadRng) -> (r: (D1::Value, D2::Value)) {
        let a = self.0.sample(rng);
        let b = self.1.sample(rng);
        (a, b)
    }

    fn dim(&self) -> (r: usize) {
        2
    }

    fn span(&self) -> (r: Span) {
        self.0.span().times(self.1.span())
    }
}

impl PairSpace<Continuous, Continuous> {
    /// Cuts both axes into `density` bins.
    pub fn partitioned(self, density: usize) -> (r: PairSpace<Partitioned, Partitioned>)
        requires
            self.0.wf(),
            self.1.wf(),
            density >= 1,
        ensures
            r.0 == (Partitioned { lb: self.0.lb, ub: self.0.ub, density }),
            r.1 == (Partitioned { lb: self.1.lb, ub: self.1.ub, density }),
    {
        PairSpace(
            Partitioned::from_continuous(self.0, density),
            Partitioned::from_continuous(self.1, density),
        )
    }
}

/// The span of a list of dimensions: the product of their spans, from the
/// first to the last, starting from `Null`.
pub open spec fn span_of<D: Dimension>(ds: Seq<D>) -> Span
    decreases ds.len(),
{
    if ds.len() == 0 {
        Span::Null
    } else {
        span_of(ds.drop_last()).spec_times(ds.last().spec_span())
    }
}

/// Each product formed while the dimensions were appended, one by one, is
/// representable.
pub open spec fn spans_fit<D: Dimension>(ds: Seq<D>) -> bool
    decreases ds.len(),
{
    ds.len() == 0 || (spans_fit(ds.drop_last()) && span_of(ds.drop_last()).times_fits(
        ds.last().spec_span(),
    ))
}

/// The product of the bin counts of partitioned axes.
pub open spec fn density_product(ds: Seq<Partitioned>) -> int
    decreases ds.len(),
{
    if ds.len() == 0 {
        1
    } else {
        density_product(ds.drop_last()) * ds.last().density
    }
}

/// A nonempty list of partitioned axes whose span was formed without overflow
/// has the product of its bin counts as span.
pub proof fn lemma_partitioned_span(ds: Seq<Partitioned>)
    requires
        ds.len() > 0,
        spans_fit(ds),
        forall|i: int| 0 <= i < ds.len() ==> #[trigger] ds[i].wf(),
    ensures
        1 <= density_product(ds) <= usize::MAX,
        span_of(ds) == Span::Finite(density_product(ds) as usize),
    decreases ds.len(),
{
    let p = ds.drop_last();
    let d = ds.last().density as int;
    assert(ds[ds.len() - 1].wf());
    assert(spans_fit(p));
    if p.len() == 0 {
        assert(density_product(p) == 1);
        assert(span_of(p) == Span::Null);
        assert(ds.last().spec_span() == Span::Finite(ds.last().density));
        assert(span_of(ds) == Span::Finite(ds.last().density));
    } else {
        assert forall|i: int| 0 <= i < p.len() implies #[trigger] p[i].wf() by {
            assert(p[i] == ds[i]);
        }
        lemma_partitioned_span(p);
        let q = density_product(p);
        assert(q * d >= 1) by (nonlinear_arith)
            requires
                q >= 1,
                d >= 1,
        ;
        assert(span_of(p) == Span::Finite(q as usize));
        assert(span_of(ds) == Span::Finite((q * d) as usize));
    }
    assert(span_of(ds) == span_of(p).spec_times(ds.last().spec_span()));
    assert(density_product(ds) == density_product(p) * d);
}

/// A prefix of partitioned axes has no more bins than the whole list.
pub proof fn lemma_prefix_density(ds: Seq<Partitioned>, i: int)
    requires
        0 <= i <= ds.len(),
        forall|j: int| 0 <= j < ds.len() ==> #[trigger] ds[j].wf(),
    ensures
        1 <= density_product(ds.subrange(0, i)) <= density_product(ds),
    decreases ds.len(),
{
    if ds.len() == 0 {
        assert(ds.subrange(0, i) =~= ds);
    } else if i == ds.len() {
        assert(ds.subrange(0, i) =~= ds);
        lemma_prefix_density(ds.drop_last(), i - 1);
        assert(ds.drop_last().subrange(0, i - 1) =~= ds.drop_last());
        assert(ds[ds.len() - 1].wf());
        let q = density_product(ds.drop_last());
        let d = ds.last().density as int;
        assert(q * d >= 1) by (nonlinear_arith)
            requires
                q >= 1,
                d >= 1,
        ;
    } else {
        let p = ds.drop_last();
        assert forall|j: int| 0 <= j < p.len() implies #[trigger] p[j].wf() by {
            assert(p[j] == ds[j]);
        }
        lemma_prefix_density(p, i);
        assert(p.subrange(0, i) =~= ds.subrange(0, i));
        assert(ds[ds.len() - 1].wf());
        let q = density_product(p);
        let d = ds.last().density as int;
        assert(q <= q * d) by (nonlinear_arith)
            requires
                q >= 1,
                d >= 1,
        ;
    }
}

/// A space of any number of dimensions of one kind.
#[derive(Clone, Debug)]
pub struct RegularSpace<D: Dimension> {
    dimensions: Vec<D>,
    span: Span,
}

impl<D: Dimension> RegularSpace<D> {
    /// The dimensions, in order.
    pub closed spec fn dims(&self) -> Seq<D> {
        self.dimensions@
    }

    /// The span cached by the space agrees with its dimensions.
    pub closed spec fn span_cached(&self) -> bool {
        self.span == span_of(self.dimensions@)
    }

    /// The span was formed without overflow, and each dimension is well
    /// formed.
    pub open spec fn inv(&self) -> bool {
        &&& self.span_cached()
        &&& spans_fit(self.dims())
        &&& forall|i: int| 0 <= i < self.dims().len() ==> #[trigger] self.dims()[i].wf()
    }

    pub fn new() -> (r: Self)
        ensures
            r.inv(),
            r.dims() == Seq::<D>::empty(),
    {
        RegularSpace { dimensions: Vec::new(), span: Span::Null }
    }

    /// Appends a dimension.
    pub fn push(self, d: D) -> (r: Self)
        requires
            self.inv(),
            d.wf(),
            span_of(self.dims()).times_fits(d.spec_span()),
        ensures
            r.inv(),
            r.dims() == self.dims().push(d),
    {
        let mut s = self;
        s.span = s.span.times(d.span());
        s.dimensions.push(d);
        proof {
            assert(s.dimensions@.drop_last() =~= self.dimensions@);
            assert forall|i: int| 0 <= i < s.dimensions@.len() implies #[trigger] s.dimensions@[i].wf() by {
                if i < self.dimensions@.len() {
                    assert(s.dimensions@[i] == self.dimensions@[i]);
                }
            }
        }
        s
    }

    /// The dimension at position `i`.
    pub fn dimension(&self, i: usize) -> (r: &D)
        requires
            i < self.dims().len(),
        ensures
            *r == self.dims()[i as int],
    {
        &self.dimensions[i]
    }

    /// The dimensions, in order.
    pub fn iter(&self) -> (r: std::slice::Iter<'_, D>)
        ensures
            vstd::std_specs::slice::into_iter_elts(r) == self.dims(),
    {
        self.dimensions.as_slice().iter()
    }
}

impl<D: Dimension> Space for RegularSpace<D> {
    type Repr = Vec<D::Value>;

    open spec fn wf(&self) -> bool {
        self.inv()
    }

    open spec fn spec_dim(&self) -> nat {
        self.dims().len()
    }

    open spec fn spec_span(&self) -> Span {
        span_of(self.dims())
    }

    open spec fn holds(&self, v: Vec<D::Value>) -> bool {
        &&& v@.len() == self.dims().len()
        &&& forall|i: int| 0 <= i < v@.len() ==> #[trigger] self.dims()[i].holds(v@[i])
    }

    fn sample(&self, rng: &mut ThreadRng) -> (r: Vec<D::Value>) {
        let mut out: Vec<D::Value> = Vec::new();
        let mut i: usize = 0;
        while i < self.dimensions.len()
            invariant
                self.inv(),
                i <= self.dimensions@.len(),
                out@.len() == i,
                forall|j: int| 0 <= j < i ==> #[trigger] self.dimensions@[j].holds(out@[j]),
            decreases self.dimensions@.len() - i,
        {
            let v = self.dimensions[i].sample(rng);
            out.push(v);
            i = i + 1;
        }
        out
    }

    fn dim(&self) -> (r: usize) {
        self.dimensions.len()
    }

    fn span(&self) -> (r: Span) {
        self.span
    }
}

impl RegularSpace<Continuous> {
    /// Cuts every axis into `density` bins.
    pub fn partitioned(self, density: usize) -> (r: RegularSpace<Partitioned>)
        requires
            self.inv(),
            density >= 1,
            pow(density as int, self.dims().len()) <= usize::MAX,
        ensures
            r.inv(),
            r.dims().len() == self.dims().len(),
            forall|i: int|
                0 <= i < r.dims().len() ==> #[trigger] r.dims()[i] == (Partitioned {
                    lb: self.dims()[i].lb,
                    ub: self.dims()[i].ub,
                    density,
                }),
    {
        let ghost n = self.dimensions@.len();
        let mut out: RegularSpace<Partitioned> = RegularSpace::new();
        let mut i: usize = 0;
        while i < self.dimensions.len()
            invariant
                self.inv(),
                density >= 1,
                n == self.dimensions@.len(),
                pow(density as int, n) <= usize::MAX,
                i <= n,
                out.inv(),
                out.dims().len() == i,
                forall|j: int|
                    0 <= j < i ==> #[trigger] out.dims()[j] == (Partitioned {
                        lb: self.dims()[j].lb,
                        ub: self.dims()[j].ub,
                        density,
                    }),
                span_of(out.dims()) == (if i == 0 {
                    Span::Null
                } else {
                    Span::Finite(pow(density as int, i as nat) as usize)
                }),
            decreases n - i,
        {
            let d = self.dimensions[i];
            assert(self.dimensions@[i as int].wf());
            let p = Partitioned::from_continuous(d, density);
            proof {
                reveal(pow);
                lemma_pow_increases(density as nat, (i + 1) as nat, n);
                lemma_pow_increases(density as nat, i as nat, n);
                lemma_pow_positive(density as int, i as nat);
                let a = pow(density as int, i as nat);
                let b = pow(density as int, (i + 1) as nat);
                assert(b == density * a);
                assert(a <= usize::MAX && b <= usize::MAX);
                assert(a * density == b) by (nonlinear_arith)
                    requires
                        b == density * a,
                ;
                if i == 0 {
                    assert(pow(density as int, 0) == 1);
                } else {
                    assert(span_of(out.dims()) == Span::Finite(pow(density as int, i as nat) as usize));
                    assert(span_of(out.dims()).times_fits(p.spec_span()));
                }
            }
            let ghost before = out.dims();
            out = out.push(p);
            proof {
                assert(out.dims().drop_last() == before);
                assert(span_of(out.dims()) == span_of(before).spec_times(p.spec_span()));
            }
            i = i + 1;
        }
        out
    }
}

} // verus!
