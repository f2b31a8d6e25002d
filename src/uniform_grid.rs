use crate::dimensions::{bin_of, Dimension, Partitioned};
use crate::spaces::{
    density_product, lemma_partitioned_span, lemma_prefix_density, RegularSpace, Space,
};
use crate::span::Span;
use vstd::prelude::*;

verus! {

/// The bin index of each coordinate of `x` on its axis.
pub open spec fn bins_of(ds: Seq<Partitioned>, x: Seq<i64>) -> Seq<int> {
    Seq::new(
        ds.len(),
        |i: int| bin_of(ds[i].lb as int, ds[i].ub as int, ds[i].density as int, x[i] as int),
    )
}

/// The number whose digits are `bins`, the first the least significant, where
/// digit `i` counts in units of the product of the bin counts of the axes
/// before it.
pub open spec fn mixed_radix(bins: Seq<int>, ds: Seq<Partitioned>) -> int
    decreases bins.len(),
{
    if bins.len() == 0 {
        0
    } else {
        mixed_radix(bins.drop_last(), ds.drop_last()) + density_product(ds.drop_last())
            * bins.last()
    }
}

/// Digits in range, one per axis.
pub open spec fn digits_in_range(bins: Seq<int>, ds: Seq<Partitioned>) -> bool {
    &&& bins.len() == ds.len()
    &&& forall|i: int| 0 <= i < bins.len() ==> 0 <= #[trigger] bins[i] < ds[i].density
}

/// A number with digits in range lies below the product of the radices.
pub proof fn lemma_mixed_radix_bounds(bins: Seq<int>, ds: Seq<Partitioned>)
    requires
        digits_in_range(bins, ds),
        forall|i: int| 0 <= i < ds.len() ==> #[trigger] ds[i].wf(),
    ensures
        0 <= mixed_radix(bins, ds) < density_product(ds),
    decreases bins.len(),
{
    if bins.len() > 0 {
        let n = ds.len() - 1;
        let p = ds.drop_last();
        assert forall|i: int| 0 <= i < p.len() implies #[trigger] p[i].wf() by {
            assert(p[i] == ds[i]);
        }
        assert(digits_in_range(bins.drop_last(), p)) by {
            assert forall|i: int| 0 <= i < bins.drop_last().len() implies 0
                <= #[trigger] bins.drop_last()[i] < p[i].density by {
                assert(bins.drop_last()[i] == bins[i]);
                assert(p[i] == ds[i]);
            }
        }
        lemma_mixed_radix_bounds(bins.drop_last(), p);
        let acc = mixed_radix(bins.drop_last(), p);
        let mult = density_product(p);
        let b = bins[n];
        let d = ds[n].density as int;
        assert(0 <= b < d);
        assert(0 <= acc + mult * b < mult * d) by (nonlinear_arith)
            requires
                0 <= acc < mult,
                0 <= b < d,
        ;
    }
}

/// Numbers with digits in range are equal only when their digits are: each
/// cell of a grid has one tuple of bins.
pub proof fn lemma_mixed_radix_unique(a: Seq<int>, b: Seq<int>, ds: Seq<Partitioned>)
    requires
        digits_in_range(a, ds),
        digits_in_range(b, ds),
        forall|i: int| 0 <= i < ds.len() ==> #[trigger] ds[i].wf(),
        mixed_radix(a, ds) == mixed_radix(b, ds),
    ensures
        a == b,
    decreases ds.len(),
{
    if ds.len() == 0 {
        assert(a =~= b);
    } else {
        let n = ds.len() - 1;
        let p = ds.drop_last();
        assert forall|i: int| 0 <= i < p.len() implies #[trigger] p[i].wf() by {
            assert(p[i] == ds[i]);
        }
        assert forall|s: Seq<int>| #[trigger] digits_in_range(s, ds) implies digits_in_range(
            s.drop_last(),
            p,
        ) by {
            assert forall|i: int| 0 <= i < s.drop_last().len() implies 0
                <= #[trigger] s.drop_last()[i] < p[i].density by {
                assert(s.drop_last()[i] == s[i]);
                assert(p[i] == ds[i]);
            }
        }
        lemma_mixed_radix_bounds(a.drop_last(), p);
        lemma_mixed_radix_bounds(b.drop_last(), p);
        let ra = mixed_radix(a.drop_last(), p);
        let rb = mixed_radix(b.drop_last(), p);
        let m = density_product(p);
        let la = a[n];
        let lb = b[n];
        assert(ra + m * la == rb + m * lb);
        assert(la == lb) by (nonlinear_arith)
            requires
                ra + m * la == rb + m * lb,
                0 <= ra < m,
                0 <= rb < m,
        ;
        lemma_mixed_radix_unique(a.drop_last(), b.drop_last(), p);
        assert(a =~= b) by {
            assert forall|i: int| 0 <= i < a.len() implies a[i] == b[i] by {
                if i < n {
                    assert(a[i] == a.drop_last()[i]);
                    assert(b[i] == b.drop_last()[i]);
                }
            }
        }
    }
}

/// Two inputs fall into the same cell of a grid if and only if they fall into
/// the same bin on every axis.
pub proof fn lemma_same_cell_iff_same_bins(ds: Seq<Partitioned>, x: Seq<i64>, y: Seq<i64>)
    requires
        x.len() == ds.len(),
        y.len() == ds.len(),
        forall|i: int| 0 <= i < ds.len() ==> #[trigger] ds[i].wf(),
    ensures
        mixed_radix(bins_of(ds, x), ds) == mixed_radix(bins_of(ds, y), ds) <==> bins_of(ds, x)
            == bins_of(ds, y),
{
    assert forall|z: Seq<i64>| z.len() == ds.len() implies #[trigger] digits_in_range(
        bins_of(ds, z),
        ds,
    ) by {
        assert forall|i: int| 0 <= i < ds.len() implies 0 <= #[trigger] bins_of(ds, z)[i]
            < ds[i].density by {
            lemma_bin_in_range(ds[i], z[i]);
        }
    }
    if mixed_radix(bins_of(ds, x), ds) == mixed_radix(bins_of(ds, y), ds) {
        lemma_mixed_radix_unique(bins_of(ds, x), bins_of(ds, y), ds);
    }
}

/// Every coordinate falls into a bin of its axis.
pub proof fn lemma_bin_in_range(d: Partitioned, x: i64)
    requires
        d.wf(),
    ensures
        0 <= bin_of(d.lb as int, d.ub as int, d.density as int, x as int) < d.density,
{
    let lb = d.lb as int;
    let ub = d.ub as int;
    let n = d.density as int;
    let c = if x < lb {
        lb
    } else if x > ub {
        ub
    } else {
        x as int
    };
    assert(0 <= n * (c - lb) / (ub - lb) <= n) by (nonlinear_arith)
        requires
            lb <= c <= ub,
            lb < ub,
            n >= 1,
    ;
}

/// Every bucket of a grid lies below the number of cells of the grid.
pub proof fn lemma_bucket_in_grid(ds: Seq<Partitioned>, x: Seq<i64>)
    requires
        x.len() == ds.len(),
        forall|i: int| 0 <= i < ds.len() ==> #[trigger] ds[i].wf(),
    ensures
        0 <= mixed_radix(bins_of(ds, x), ds) < density_product(ds),
{
    assert forall|i: int| 0 <= i < ds.len() implies 0 <= #[trigger] bins_of(ds, x)[i]
        < ds[i].density by {
        lemma_bin_in_range(ds[i], x[i]);
    }
    lemma_mixed_radix_bounds(bins_of(ds, x), ds);
}

/// A projection of a partitioned space onto one indicator feature per cell of
/// its grid.
#[derive(Clone, Debug)]
pub struct UniformGrid {
    n_features: usize,
    input_space: RegularSpace<Partitioned>,
}

impl UniformGrid {
    /// The axes of the grid.
    pub closed spec fn axes(&self) -> Seq<Partitioned> {
        self.input_space.dims()
    }

    pub closed spec fn wf(&self) -> bool {
        &&& self.input_space.inv()
        &&& self.axes().len() >= 1
        &&& self.n_features == density_product(self.axes())
    }

    /// The number of features: one per cell.
    pub closed spec fn spec_size(&self) -> nat {
        self.n_features as nat
    }

    /// The cell of `x`.
    pub open spec fn bucket(&self, x: Seq<i64>) -> int {
        mixed_radix(bins_of(self.axes(), x), self.axes())
    }

    pub fn new(input_space: RegularSpace<Partitioned>) -> (r: UniformGrid)
        requires
            input_space.inv(),
            input_space.dims().len() >= 1,
        ensures
            r.wf(),
            r.axes() == input_space.dims(),
            r.spec_size() == density_product(input_space.dims()),
    {
        proof {
            lemma_partitioned_span(input_space.dims());
        }
        let n_features = match input_space.span() {
            Span::Finite(n) => n,
            _ => {
                proof {
                    assert(false);
                }
                0
            },
        };
        UniformGrid { n_features, input_space }
    }

    /// The index of the cell of `input`.
    fn hash(&self, input: &Vec<i64>) -> (r: usize)
        requires
            self.wf(),
            input@.len() == self.axes().len(),
        ensures
            r == self.bucket(input@),
            r < self.spec_size(),
    {
        let ghost ds = self.axes();
        let ghost bins = bins_of(ds, input@);
        let n = self.input_space.dim();
        proof {
            lemma_partitioned_span(ds);
            assert(ds.subrange(0, 0) =~= Seq::<Partitioned>::empty());
            assert(bins.subrange(0, 0) =~= Seq::<int>::empty());
        }
        let mut acc: usize = 0;
        let mut mult: usize = 1;
        let mut i: usize = 0;
        while i < n
            invariant
                self.wf(),
                ds == self.axes(),
                bins == bins_of(ds, input@),
                n == ds.len(),
                input@.len() == n,
                i <= n,
                acc == mixed_radix(bins.subrange(0, i as int), ds.subrange(0, i as int)),
                mult == density_product(ds.subrange(0, i as int)),
                acc < mult,
            decreases n - i,
        {
            let d = self.input_space.dimension(i);
            proof {
                assert(self.input_space.dims()[i as int].wf());
            }
            let b = d.convert(input[i]);
            proof {
                lemma_prefix_density(ds, i + 1);
                assert(ds.subrange(0, i + 1).drop_last() =~= ds.subrange(0, i as int));
                assert(bins.subrange(0, i + 1).drop_last() =~= bins.subrange(0, i as int));
                assert(density_product(ds.subrange(0, i + 1)) == mult * d.density);
                assert(acc + b * mult < mult * d.density) by (nonlinear_arith)
                    requires
                        acc < mult,
                        b < d.density,
                ;
                assert(b * mult == mult * b) by (nonlinear_arith);
            }
            acc = acc + b * mult;
            mult = mult * d.density;
            i = i + 1;
        }
        proof {
            assert(ds.subrange(0, n as int) =~= ds);
            assert(bins.subrange(0, n as int) =~= bins);
        }
        acc
    }

    /// The indicator vector of the cell of `input`: one at the cell, zero
    /// elsewhere.
    pub fn project(&self, input: &Vec<i64>) -> (r: Vec<u8>)
        requires
            self.wf(),
            input@.len() == self.axes().len(),
        ensures
            r@.len() == self.spec_size(),
            0 <= self.bucket(input@) < self.spec_size(),
            r@[self.bucket(input@)] == 1,
            forall|i: int|
                0 <= i < r@.len() ==> #[trigger] r@[i] == (if i == self.bucket(input@) {
                    1u8
                } else {
                    0u8
                }),
    {
        let k = self.hash(input);
        let mut phi: Vec<u8> = Vec::new();
        let mut i: usize = 0;
        while i < self.n_features
            invariant
                self.wf(),
                k < self.n_features,
                i <= self.n_features,
                phi@.len() == i,
                forall|j: int| 0 <= j < i ==> #[trigger] phi@[j] == (if j == k {
                    1u8
                } else {
                    0u8
                }),
            decreases self.n_features - i,
        {
            if i == k {
                phi.push(1);
            } else {
                phi.push(0);
            }
            i = i + 1;
        }
        phi
    }

    /// The indices of the active features of `input`: its cell alone.
    pub fn project_sparse(&self, input: &Vec<i64>) -> (r: Vec<usize>)
        requires
            self.wf(),
            input@.len() == self.axes().len(),
        ensures
            r@ == seq![self.bucket(input@) as usize],
            0 <= self.bucket(input@) < self.spec_size(),
    {
        let k = self.hash(input);
        let mut r: Vec<usize> = Vec::new();
        r.push(k);
        proof {
            assert(r@ =~= seq![k]);
        }
        r
    }

    /// The number of active features of any input.
    pub fn sparsity(&self) -> (r: usize)
        ensures
            r == 1,
    {
        1
    }

    /// Sets the feature of the cell of `input` to one, leaving the others.
    pub fn project_onto(&self, input: &Vec<i64>, phi: &mut Vec<u8>)
        requires
            self.wf(),
            input@.len() == self.axes().len(),
            old(phi)@.len() == self.spec_size(),
        ensures
            0 <= self.bucket(input@) < self.spec_size(),
            final(phi)@ == old(phi)@.update(self.bucket(input@), 1u8),
    {
        let k = self.hash(input);
        phi.set(k, 1);
    }

    /// The bin on each axis of cell `cell`: the digits of `cell` in the mixed
    /// radix of the grid.
    pub fn cell_bins(&self, cell: usize) -> (r: Vec<usize>)
        requires
            self.wf(),
            cell < self.spec_size(),
        ensures
            r@.len() == self.axes().len(),
            forall|i: int| 0 <= i < r@.len() ==> #[trigger] r@[i] < self.axes()[i].density,
            mixed_radix(r@.map_values(|b: usize| b as int), self.axes()) == cell,
    {
        let ghost ds = self.axes();
        let n = self.input_space.dim();
        let mut out: Vec<usize> = Vec::new();
        let mut rest: usize = cell;
        let mut i: usize = 0;
        proof {
            assert(ds.subrange(0, 0) =~= Seq::<Partitioned>::empty());
            assert(out@.map_values(|b: usize| b as int) =~= Seq::<int>::empty());
        }
        while i < n
            invariant
                self.wf(),
                ds == self.axes(),
                n == ds.len(),
                cell < density_product(ds),
                i <= n,
                out@.len() == i,
                forall|j: int| 0 <= j < i ==> #[trigger] out@[j] < ds[j].density,
                cell == mixed_radix(out@.map_values(|b: usize| b as int), ds.subrange(0, i as int))
                    + density_product(ds.subrange(0, i as int)) * rest,
            decreases n - i,
        {
            let d = self.input_space.dimension(i);
            proof {
                assert(ds[i as int].wf());
            }
            let b = rest % d.density;
            let ghost old_rest = rest;
            let ghost old_out = out@;
            rest = rest / d.density;
            out.push(b);
            proof {
                let bins = out@.map_values(|v: usize| v as int);
                let prefix = ds.subrange(0, i + 1);
                assert(prefix.drop_last() =~= ds.subrange(0, i as int));
                assert(bins.drop_last() =~= old_out.map_values(|v: usize| v as int));
                let mr = mixed_radix(bins.drop_last(), prefix.drop_last());
                let p = density_product(prefix.drop_last());
                let dd = d.density as int;
                assert(old_rest == b + dd * rest) by (nonlinear_arith)
                    requires
                        dd > 0,
                        b as int == old_rest as int % dd,
                        rest as int == old_rest as int / dd,
                ;
                assert(mr + p * b + (p * dd) * rest == mr + p * old_rest) by (nonlinear_arith)
                    requires
                        old_rest == b + dd * rest,
                ;
            }
            i = i + 1;
        }
        proof {
            assert(ds.subrange(0, n as int) =~= ds);
            let bins = out@.map_values(|v: usize| v as int);
            let mr = mixed_radix(bins, ds);
            let p = density_product(ds);
            assert(mr >= 0) by {
                assert forall|k: int| 0 <= k < bins.len() implies 0 <= #[trigger] bins[k]
                    < ds[k].density by {
                    assert(bins[k] == out@[k] as int);
                }
                lemma_mixed_radix_bounds(bins, ds);
            }
            assert(rest == 0) by (nonlinear_arith)
                requires
                    cell == mr + p * rest,
                    mr >= 0,
                    cell < p,
                    rest >= 0,
            ;
        }
        out
    }

    /// The number of axes.
    pub fn dim(&self) -> (r: usize)
        ensures
            r == self.axes().len(),
    {
        self.input_space.dim()
    }

    /// The number of features.
    pub fn size(&self) -> (r: usize)
        ensures
            r == self.spec_size(),
    {
        self.n_features
    }

    /// Two grids are interchangeable when they have as many axes and as many
    /// cells.
    pub fn equivalent(&self, other: &UniformGrid) -> (r: bool)
        ensures
            r == (self.axes().len() == other.axes().len() && self.spec_size()
                == other.spec_size()),
    {
        self.dim() == other.dim() && self.size() == other.size()
    }
}

} // verus!
