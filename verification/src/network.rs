//! Fixed-topology feed-forward neural networks over fixed-point values:
//! layered weight matrices and bias vectors, forward evaluation with a
//! rational hyperbolic-tangent activation, uniform randomization, and
//! weight blending ("prune") against a reference network.
//!
//! Weights, biases, inputs and activations all lie in `[-1, 1]`, that
//! is in `[-1000, 1000]` fixed-point steps. A neuron's raw sum is
//! therefore held in micro-units (a product of two milli-unit values)
//! before the activation brings it back to milli-units.

use vstd::prelude::*;
use crate::geometry::{lerp_milli, spec_lerp, spec_div_trunc};
use crate::rng::random_in_range;

verus! {

/// Magnitude bound on every weight, bias, input and activation, in
/// fixed-point steps: one unit.
pub const WEIGHT_BOUND: i64 = 1000;

/// Largest layer width the network accepts; keeps every neuron's raw
/// sum far from overflow.
pub const MAX_WIDTH: usize = 1_000_000;

/// One layer: a bias vector (one entry per output neuron) and a weight
/// matrix (one row of input-width length per output neuron).
pub struct Level {
    pub biases: Vec<i64>,
    pub weights: Vec<Vec<i64>>,
}

/// Every entry of the sequence lies within one unit in magnitude.
pub open spec fn all_milli(x: Seq<i64>) -> bool {
    forall|i: int| 0 <= i < x.len() ==> -1000 <= #[trigger] x[i] <= 1000
}

/// Dot product of the first `n` entries of `w` and `x`.
pub open spec fn dot(w: Seq<i64>, x: Seq<i64>, n: int) -> int
    decreases n,
{
    if n <= 0 {
        0
    } else {
        dot(w, x, n - 1) + w[n - 1] * x[n - 1]
    }
}

/// Rational approximation of the hyperbolic tangent on nonnegative
/// milli-unit arguments, scaled to milli-units; saturates to exactly
/// one unit from three units on, where the rational form reaches it.
pub open spec fn tanh_pos_milli(x: int) -> int {
    if x >= 3000 {
        1000
    } else {
        x * (27_000_000 + x * x) / (27_000_000 + 9 * (x * x))
    }
}

/// The activation: an odd, saturating hyperbolic-tangent approximation
/// on milli-unit arguments.
pub open spec fn tanh_milli(x: int) -> int {
    if x >= 0 {
        tanh_pos_milli(x)
    } else {
        -tanh_pos_milli(-x)
    }
}

/// What a neuron reports for a raw micro-unit sum: the sum brought back
/// to milli-units (rounded toward zero), squashed by the activation.
pub open spec fn spec_activation(raw: int) -> int {
    tanh_milli(spec_div_trunc(raw, 1000))
}

impl Level {
    /// Number of output neurons.
    pub open spec fn out_count(self) -> int {
        self.weights@.len() as int
    }

    /// Number of inputs each weight row consumes.
    pub open spec fn in_count(self) -> int {
        if self.weights@.len() > 0 {
            self.weights@[0]@.len() as int
        } else {
            0
        }
    }

    /// Well-formed: consistent shapes, at least one neuron and one
    /// input, widths in range, and every value within one unit.
    pub open spec fn wf(self) -> bool {
        &&& self.biases@.len() == self.weights@.len()
        &&& 1 <= self.out_count() <= MAX_WIDTH
        &&& 1 <= self.in_count() <= MAX_WIDTH
        &&& forall|i: int|
            0 <= i < self.weights@.len() ==> (#[trigger] self.weights@[i])@.len()
                == self.in_count()
        &&& forall|i: int|
            0 <= i < self.biases@.len() ==> -WEIGHT_BOUND <= #[trigger] self.biases@[i]
                <= WEIGHT_BOUND
        &&& forall|i: int, j: int|
            0 <= i < self.weights@.len() && 0 <= j < self.weights@[i]@.len() ==> -WEIGHT_BOUND
                <= #[trigger] self.weights@[i]@[j] <= WEIGHT_BOUND
    }
}

/// The raw micro-unit sum of neuron `i` of a level on input `x`.
pub open spec fn neuron_raw(l: Level, x: Seq<i64>, i: int) -> int {
    dot(l.weights@[i]@, x, l.in_count()) + l.biases@[i] * 1000
}

/// The milli-unit value neuron `i` of a level reports on input `x`.
pub open spec fn neuron_value(l: Level, x: Seq<i64>, i: int) -> int {
    spec_activation(neuron_raw(l, x, i))
}

/// One layer's output vector on input `x`.
pub open spec fn level_eval(l: Level, x: Seq<i64>) -> Seq<i64> {
    Seq::new(l.out_count() as nat, |i: int| neuron_value(l, x, i) as i64)
}

/// Evaluation of the layers from index `i` on, starting from vector `x`.
pub open spec fn eval_from(levels: Seq<Level>, i: int, x: Seq<i64>) -> Seq<i64>
    decreases levels.len() - i,
{
    if i < 0 || i >= levels.len() {
        x
    } else {
        eval_from(levels, i + 1, level_eval(levels[i], x))
    }
}

/// Evaluates the activation on a raw micro-unit sum.
pub(crate) fn apply_activation(raw: i64) -> (r: i64)
    requires
        -1_000_000_000_000_000 <= raw <= 1_000_000_000_000_000,
    ensures
        r == spec_activation(raw as int),
        -1000 <= r <= 1000,
{
    let x: i64 = if raw >= 0 {
        raw / 1000
    } else {
        -((-raw) / 1000)
    };
    assert(x == spec_div_trunc(raw as int, 1000));
    if x >= 3000 {
        1000
    } else if x <= -3000 {
        proof {
            assert(tanh_pos_milli(-(x as int)) == 1000);
        }
        -1000
    } else {
        let ax: i64 = if x < 0 {
            -x
        } else {
            x
        };
        assert(0 <= (ax as int) * (ax as int) < 9_000_000) by (nonlinear_arith)
            requires
                0 <= (ax as int) < 3000,
        ;
        let sq: i64 = ax * ax;
        assert(0 <= (ax as int) * (27_000_000 + sq as int) <= 108_000_000_000) by (nonlinear_arith)
            requires
                0 <= (ax as int) < 3000,
                0 <= (sq as int) < 9_000_000,
        ;
        let num: i64 = ax * (27_000_000 + sq);
        let den: i64 = 27_000_000 + 9 * sq;
        proof {
            let axi = ax as int;
            assert((axi - 3000) * (axi - 3000) * (axi - 3000) <= 0) by (nonlinear_arith)
                requires
                    axi <= 3000,
            ;
            assert(num - 1000 * den == (axi - 3000) * (axi - 3000) * (axi - 3000))
                by (nonlinear_arith)
                requires
                    num == axi * (27_000_000 + axi * axi),
                    den == 27_000_000 + 9 * (axi * axi),
                    sq == axi * axi,
            ;
            assert(0 <= num as int / den as int <= 1000) by (nonlinear_arith)
                requires
                    0 <= num <= 1000 * den,
                    0 < den,
            ;
            assert(num == axi * (27_000_000 + axi * axi)) by (nonlinear_arith)
                requires
                    sq == axi * axi,
                    num == axi * (27_000_000 + sq),
            ;
        }
        let v: i64 = num / den;
        assert(v == tanh_pos_milli(ax as int));
        if x < 0 {
            -v
        } else {
            v
        }
    }
}

impl Level {
    /// A level of the given widths with all weights and biases zero.
    pub fn new(input_count: u32, output_count: u32) -> (r: Level)
        requires
            1 <= input_count <= MAX_WIDTH,
            1 <= output_count <= MAX_WIDTH,
        ensures
            r.wf(),
            r.in_count() == input_count,
            r.out_count() == output_count,
            forall|i: int| 0 <= i < r.biases@.len() ==> #[trigger] r.biases@[i] == 0,
            forall|i: int, j: int|
                0 <= i < r.weights@.len() && 0 <= j < r.weights@[i]@.len() ==> #[trigger] r
                    .weights@[i]@[j] == 0,
    {
        let ic = input_count as usize;
        let oc = output_count as usize;
        let mut biases: Vec<i64> = Vec::new();
        let mut weights: Vec<Vec<i64>> = Vec::new();
        for i in 0..oc
            invariant
                biases@.len() == i,
                weights@.len() == i,
                forall|k: int| 0 <= k < i ==> #[trigger] biases@[k] == 0,
                forall|k: int| 0 <= k < i ==> (#[trigger] weights@[k])@.len() == ic,
                forall|k: int, j: int|
                    0 <= k < i && 0 <= j < ic ==> #[trigger] weights@[k]@[j] == 0,
        {
            biases.push(0);
            let mut row: Vec<i64> = Vec::new();
            for j in 0..ic
                invariant
                    row@.len() == j,
                    forall|k: int| 0 <= k < j ==> #[trigger] row@[k] == 0,
            {
                row.push(0);
            }
            weights.push(row);
        }
        Level { biases, weights }
    }

    /// Draws every weight and bias independently and uniformly from one
    /// unit around zero; the shape is kept.
    pub fn randomize(&mut self)
        requires
            old(self).wf(),
        ensures
            final(self).wf(),
            final(self).in_count() == old(self).in_count(),
            final(self).out_count() == old(self).out_count(),
    {
        let oc = self.weights.len();
        let ic = self.weights[0].len();
        let mut biases: Vec<i64> = Vec::new();
        let mut weights: Vec<Vec<i64>> = Vec::new();
        for i in 0..oc
            invariant
                biases@.len() == i,
                weights@.len() == i,
                forall|k: int| 0 <= k < i ==> -1000 <= #[trigger] biases@[k] <= 1000,
                forall|k: int| 0 <= k < i ==> (#[trigger] weights@[k])@.len() == ic,
                forall|k: int, j: int|
                    0 <= k < i && 0 <= j < ic ==> -1000 <= #[trigger] weights@[k]@[j] <= 1000,
        {
            biases.push(random_in_range(-WEIGHT_BOUND, WEIGHT_BOUND + 1));
            let mut row: Vec<i64> = Vec::new();
            for j in 0..ic
                invariant
                    row@.len() == j,
                    forall|k: int| 0 <= k < j ==> -1000 <= #[trigger] row@[k] <= 1000,
            {
                row.push(random_in_range(-WEIGHT_BOUND, WEIGHT_BOUND + 1));
            }
            weights.push(row);
        }
        self.biases = biases;
        self.weights = weights;
    }

    /// One layer of forward evaluation: per output neuron, the dot
    /// product of its weight row with the inputs, plus its bias,
    /// squashed by the activation.
    pub fn feed_forward(&self, inputs: &Vec<i64>) -> (r: Vec<i64>)
        requires
            self.wf(),
            inputs@.len() == self.in_count(),
            all_milli(inputs@),
        ensures
            r@ == level_eval(*self, inputs@),
            r@.len() == self.out_count(),
            all_milli(r@),
    {
        let oc = self.weights.len();
        let ic = inputs.len();
        let mut out: Vec<i64> = Vec::new();
        for i in 0..oc
            invariant
                self.wf(),
                inputs@.len() == self.in_count(),
                all_milli(inputs@),
                ic == self.in_count(),
                oc == self.out_count(),
                out@.len() == i,
                forall|k: int| 0 <= k < i ==> #[trigger] out@[k] == neuron_value(*self, inputs@, k) as i64,
                all_milli(out@),
        {
            let row: &Vec<i64> = &self.weights[i];
            let mut sum: i64 = 0;
            for j in 0..ic
                invariant
                    self.wf(),
                    inputs@.len() == self.in_count(),
                    all_milli(inputs@),
                    ic == self.in_count(),
                    i < self.weights@.len(),
                    row@ == self.weights@[i as int]@,
                    row@.len() == ic,
                    sum == dot(row@, inputs@, j as int),
                    -1_000_000 * (j as int) <= sum <= 1_000_000 * (j as int),
            {
                let w = row[j];
                let x = inputs[j];
                assert(-1_000_000 <= (w as int) * (x as int) <= 1_000_000) by (nonlinear_arith)
                    requires
                        -1000 <= (w as int) <= 1000,
                        -1000 <= (x as int) <= 1000,
                ;
                let prod: i64 = w * x;
                sum = sum + prod;
            }
            let raw: i64 = sum + self.biases[i] * 1000;
            assert(raw == neuron_raw(*self, inputs@, i as int));
            let act = apply_activation(raw);
            out.push(act);
        }
        assert(out@ =~= level_eval(*self, inputs@));
        out
    }

    /// The biases and the weight rows of a level, as plain sequences:
    /// exactly what a serialized checkpoint record carries.
    pub open spec fn view_of(self) -> (Seq<i64>, Seq<Seq<i64>>) {
        (self.biases@, Seq::new(self.weights@.len(), |i: int| self.weights@[i]@))
    }

    /// A deep copy of the level.
    pub fn duplicate(&self) -> (r: Level)
        ensures
            r.view_of() == self.view_of(),
            r.biases@ == self.biases@,
            r.weights@.len() == self.weights@.len(),
            forall|i: int|
                0 <= i < self.weights@.len() ==> (#[trigger] r.weights@[i])@
                    == self.weights@[i]@,
    {
        let mut biases: Vec<i64> = Vec::new();
        let mut weights: Vec<Vec<i64>> = Vec::new();
        let oc = self.weights.len();
        let bc = self.biases.len();
        for i in 0..bc
            invariant
                bc == self.biases@.len(),
                biases@.len() == i,
                forall|k: int| 0 <= k < i ==> #[trigger] biases@[k] == self.biases@[k],
        {
            biases.push(self.biases[i]);
        }
        for i in 0..oc
            invariant
                oc == self.weights@.len(),
                weights@.len() == i,
                forall|k: int|
                    0 <= k < i ==> (#[trigger] weights@[k])@ == self.weights@[k]@,
        {
            let row: &Vec<i64> = &self.weights[i];
            let rc = row.len();
            let mut new_row: Vec<i64> = Vec::new();
            for j in 0..rc
                invariant
                    i < self.weights@.len(),
                    row@ == self.weights@[i as int]@,
                    rc == row@.len(),
                    new_row@.len() == j,
                    forall|k: int| 0 <= k < j ==> #[trigger] new_row@[k] == row@[k],
            {
                new_row.push(row[j]);
            }
            assert(new_row@ =~= row@);
            weights.push(new_row);
        }
        assert(biases@ =~= self.biases@);
        let r = Level { biases, weights };
        assert(r.view_of() =~= self.view_of()) by {
            assert(r.view_of().1 =~= self.view_of().1);
        }
        r
    }
}

/// A fixed-topology feed-forward network: an ordered sequence of
/// levels, each feeding the next.
pub struct NeuralNetwork {
    pub levels: Vec<Level>,
}

/// The level sequence forms a network: at least one level, each level
/// well-formed, and widths chained so that each level's output feeds
/// the next level's input exactly.
pub open spec fn levels_wf(levels: Seq<Level>) -> bool {
    &&& levels.len() >= 1
    &&& forall|k: int| 0 <= k < levels.len() ==> (#[trigger] levels[k]).wf()
    &&& forall|k: int|
        0 <= k < levels.len() - 1 ==> (#[trigger] levels[k]).out_count() == levels[k
            + 1].in_count()
}

/// The two level sequences carry the same checkpoint content.
pub open spec fn same_content(xs: Seq<Level>, ys: Seq<Level>) -> bool {
    xs.len() == ys.len() && forall|k: int|
        0 <= k < xs.len() ==> (#[trigger] xs[k]).view_of() == ys[k].view_of()
}

impl NeuralNetwork {
    /// Well-formed network.
    pub open spec fn wf(self) -> bool {
        levels_wf(self.levels@)
    }

    /// Width of the input vector the network consumes.
    pub open spec fn input_width(self) -> int {
        self.levels@[0].in_count()
    }

    /// Width of the output vector the network produces.
    pub open spec fn output_width(self) -> int {
        self.levels@[self.levels@.len() - 1].out_count()
    }

    /// What the network computes: the levels applied in order.
    pub open spec fn eval(self, x: Seq<i64>) -> Seq<i64> {
        eval_from(self.levels@, 0, x)
    }

    /// A network with one level per adjacent pair of layer sizes, all
    /// weights and biases zero.
    pub fn new(neuron_count: &[u32]) -> (r: NeuralNetwork)
        requires
            neuron_count@.len() >= 2,
            forall|i: int|
                0 <= i < neuron_count@.len() ==> 1 <= #[trigger] neuron_count@[i] <= MAX_WIDTH,
        ensures
            r.wf(),
            r.levels@.len() == neuron_count@.len() - 1,
            forall|k: int|
                0 <= k < r.levels@.len() ==> (#[trigger] r.levels@[k]).in_count()
                    == neuron_count@[k] && r.levels@[k].out_count() == neuron_count@[k + 1],
            forall|k: int, i: int|
                0 <= k < r.levels@.len() && 0 <= i < r.levels@[k].biases@.len()
                    ==> #[trigger] r.levels@[k].biases@[i] == 0,
            forall|k: int, i: int, j: int|
                0 <= k < r.levels@.len() && 0 <= i < r.levels@[k].weights@.len() && 0 <= j
                    < r.levels@[k].weights@[i]@.len() ==> #[trigger] r.levels@[k].weights@[i]@[j]
                    == 0,
    {
        let n = neuron_count.len();
        let mut levels: Vec<Level> = Vec::new();
        for i in 0..n - 1
            invariant
                n == neuron_count@.len(),
                n >= 2,
                forall|k: int|
                    0 <= k < neuron_count@.len() ==> 1 <= #[trigger] neuron_count@[k]
                        <= MAX_WIDTH,
                levels@.len() == i,
                forall|k: int|
                    0 <= k < i ==> (#[trigger] levels@[k]).wf() && levels@[k].in_count()
                        == neuron_count@[k] && levels@[k].out_count() == neuron_count@[k + 1],
                forall|k: int, m: int|
                    0 <= k < i && 0 <= m < levels@[k].biases@.len()
                        ==> #[trigger] levels@[k].biases@[m] == 0,
                forall|k: int, m: int, j: int|
                    0 <= k < i && 0 <= m < levels@[k].weights@.len() && 0 <= j
                        < levels@[k].weights@[m]@.len() ==> #[trigger] levels@[k].weights@[m]@[j]
                        == 0,
        {
            let ic = neuron_count[i];
            let oc = neuron_count[i + 1];
            levels.push(Level::new(ic, oc));
        }
        NeuralNetwork { levels }
    }

    /// Draws every weight and bias of every level uniformly from one
    /// unit around zero; the topology is kept.
    pub fn randomize(&mut self)
        requires
            old(self).wf(),
        ensures
            final(self).wf(),
            final(self).levels@.len() == old(self).levels@.len(),
            forall|k: int|
                0 <= k < final(self).levels@.len() ==> (#[trigger] final(self).levels@[k]).in_count() == old(self).levels@[k].in_count() && final(self).levels@[k].out_count() == old(self).levels@[k].out_count(),
    {
        let n = self.levels.len();
        for i in 0..n
            invariant
                n == self.levels@.len(),
                self.levels@.len() == old(self).levels@.len(),
                forall|k: int|
                    0 <= k < n ==> (#[trigger] self.levels@[k]).wf() && self.levels@[k].in_count()
                        == old(self).levels@[k].in_count() && self.levels@[k].out_count() == old(self).levels@[k].out_count(),
        {
            let lv: &mut Level = &mut self.levels[i];
            lv.randomize();
        }
    }

    /// Forward evaluation: each level's output vector feeds the next
    /// level verbatim; the result is the last level's output. Given
    /// fixed weights this is a pure function of the input vector.
    pub fn feed_forward(&self, inputs: &Vec<i64>) -> (r: Vec<i64>)
        requires
            self.wf(),
            inputs@.len() == self.input_width(),
            all_milli(inputs@),
        ensures
            r@ == self.eval(inputs@),
            r@.len() == self.output_width(),
            all_milli(r@),
    {
        let n = self.levels.len();
        let first: &Level = &self.levels[0];
        let mut cur = first.feed_forward(inputs);
        let mut i: usize = 1;
        while i < n
            invariant
                self.wf(),
                n == self.levels@.len(),
                1 <= i <= n,
                all_milli(cur@),
                cur@.len() == self.levels@[i - 1].out_count(),
                eval_from(self.levels@, i as int, cur@) == self.eval(inputs@),
            decreases n - i,
        {
            let lv: &Level = &self.levels[i];
            cur = lv.feed_forward(&cur);
            i = i + 1;
        }
        cur
    }

    /// Blends every weight and bias toward the corresponding value of
    /// `base` by the factor `t / 1000`: `t == 0` keeps the network
    /// unchanged, `t == 1000` copies `base` exactly.
    pub fn prune(&mut self, base: &NeuralNetwork, t: i64)
        requires
            old(self).wf(),
            base.wf(),
            same_topology(*old(self), *base),
            0 <= t <= 1000,
        ensures
            final(self).wf(),
            same_topology(*final(self), *old(self)),
            final(self).levels@.len() == old(self).levels@.len(),
            forall|k: int, i: int|
                0 <= k < final(self).levels@.len() && 0 <= i < final(self).levels@[k].biases@.len() ==> #[trigger] final(self).levels@[k].biases@[i]
                    == spec_lerp(
                    old(self).levels@[k].biases@[i] as int,
                    base.levels@[k].biases@[i] as int,
                    t as int,
                ),
            forall|k: int, i: int, j: int|
                0 <= k < final(self).levels@.len() && 0 <= i < final(self).levels@[k].weights@.len() && 0 <= j < final(self).levels@[k].weights@[i]@.len()
                    ==> #[trigger] final(self).levels@[k].weights@[i]@[j] == spec_lerp(
                    old(self).levels@[k].weights@[i]@[j] as int,
                    base.levels@[k].weights@[i]@[j] as int,
                    t as int,
                ),
    {
        let n = self.levels.len();
        let mut k: usize = 0;
        while k < n
            invariant
                n == self.levels@.len(),
                self.levels@.len() == old(self).levels@.len(),
                base.levels@.len() == old(self).levels@.len(),
                0 <= k <= n,
                0 <= t <= 1000,
                base.wf(),
                same_topology(*old(self), *base),
                forall|m: int|
                    k <= m < n ==> #[trigger] self.levels@[m] == old(self).levels@[m],
                forall|m: int|
                    0 <= m < n ==> (#[trigger] self.levels@[m]).in_count() == old(self).levels@[m].in_count() && self.levels@[m].out_count() == old(self).levels@[m].out_count() && self.levels@[m].wf(),
                forall|m: int, i: int|
                    0 <= m < k && 0 <= i < self.levels@[m].biases@.len()
                        ==> #[trigger] self.levels@[m].biases@[i] == spec_lerp(
                        old(self).levels@[m].biases@[i] as int,
                        base.levels@[m].biases@[i] as int,
                        t as int,
                    ),
                forall|m: int, i: int, j: int|
                    0 <= m < k && 0 <= i < self.levels@[m].weights@.len() && 0 <= j
                        < self.levels@[m].weights@[i]@.len()
                        ==> #[trigger] self.levels@[m].weights@[i]@[j] == spec_lerp(
                        old(self).levels@[m].weights@[i]@[j] as int,
                        base.levels@[m].weights@[i]@[j] as int,
                        t as int,
                    ),
            decreases n - k,
        {
            let blended = blend_level(&self.levels[k], &base.levels[k], t);
            self.levels.set(k, blended);
            k = k + 1;
        }
    }
}

/// The two networks have the same topology: equally many levels, with
/// equal widths level by level.
pub open spec fn same_topology(x: NeuralNetwork, y: NeuralNetwork) -> bool {
    x.levels@.len() == y.levels@.len() && forall|k: int|
        0 <= k < x.levels@.len() ==> (#[trigger] x.levels@[k]).in_count()
            == y.levels@[k].in_count() && x.levels@[k].out_count() == y.levels@[k].out_count()
}

/// The value `x` is the blend, by factor `t / 1000`, of some in-range
/// value toward `base`: what one entry of a freshly randomized network
/// pruned toward a reference satisfies, whatever the draw was.
pub open spec fn entry_blended(x: int, base: int, t: int) -> bool {
    exists|v: int| -1000 <= v <= 1000 && x == #[trigger] spec_lerp(v, base, t)
}

/// Every weight and bias of `x` is the blend, by factor `t / 1000`, of
/// some in-range value toward the corresponding entry of `base`; for
/// `t` near one unit each entry therefore lies in the `t`-shrunk
/// interval around the reference's (see [`lemma_prune_inheritance`]).
/// This is the inheritance a respawned agent's brain owes the
/// reference brain it was blended toward.
pub open spec fn blended_toward(x: NeuralNetwork, base: NeuralNetwork, t: int) -> bool {
    &&& same_topology(x, base)
    &&& forall|k: int, i: int|
        0 <= k < x.levels@.len() && 0 <= i < x.levels@[k].biases@.len()
            ==> #[trigger] entry_blended(
            x.levels@[k].biases@[i] as int,
            base.levels@[k].biases@[i] as int,
            t,
        )
    &&& forall|k: int, i: int, j: int|
        0 <= k < x.levels@.len() && 0 <= i < x.levels@[k].weights@.len() && 0 <= j
            < x.levels@[k].weights@[i]@.len() ==> #[trigger] entry_blended(
            x.levels@[k].weights@[i]@[j] as int,
            base.levels@[k].weights@[i]@[j] as int,
            t,
        )
}

/// A well-formed network whose entries were each blended from a prior
/// well-formed network's entries toward `base` — as [`NeuralNetwork::prune`]
/// leaves them — is blended toward `base`: the prior entries are the
/// in-range witnesses.
pub proof fn lemma_pruned_is_blended(
    pre: NeuralNetwork,
    post: NeuralNetwork,
    base: NeuralNetwork,
    t: int,
)
    requires
        pre.wf(),
        post.wf(),
        same_topology(pre, base),
        same_topology(post, pre),
        forall|k: int, i: int|
            0 <= k < post.levels@.len() && 0 <= i < post.levels@[k].biases@.len()
                ==> #[trigger] post.levels@[k].biases@[i] == spec_lerp(
                pre.levels@[k].biases@[i] as int,
                base.levels@[k].biases@[i] as int,
                t,
            ),
        forall|k: int, i: int, j: int|
            0 <= k < post.levels@.len() && 0 <= i < post.levels@[k].weights@.len() && 0 <= j
                < post.levels@[k].weights@[i]@.len() ==> #[trigger] post.levels@[k].weights@[i]@[j]
                == spec_lerp(
                pre.levels@[k].weights@[i]@[j] as int,
                base.levels@[k].weights@[i]@[j] as int,
                t,
            ),
    ensures
        blended_toward(post, base, t),
{
    assert forall|k: int, i: int|
        0 <= k < post.levels@.len() && 0 <= i < post.levels@[k].biases@.len() implies #[trigger] entry_blended(
        post.levels@[k].biases@[i] as int,
        base.levels@[k].biases@[i] as int,
        t,
    ) by {
        assert(post.levels@[k].wf());
        assert(pre.levels@[k].wf());
        let v = pre.levels@[k].biases@[i] as int;
        assert(post.levels@[k].biases@[i] == spec_lerp(
            v,
            base.levels@[k].biases@[i] as int,
            t,
        ));
    }
    assert forall|k: int, i: int, j: int|
        0 <= k < post.levels@.len() && 0 <= i < post.levels@[k].weights@.len() && 0 <= j
            < post.levels@[k].weights@[i]@.len() implies #[trigger] entry_blended(
        post.levels@[k].weights@[i]@[j] as int,
        base.levels@[k].weights@[i]@[j] as int,
        t,
    ) by {
        assert(post.levels@[k].wf());
        assert(pre.levels@[k].wf());
        let v = pre.levels@[k].weights@[i]@[j] as int;
        assert(post.levels@[k].weights@[i]@[j] == spec_lerp(
            v,
            base.levels@[k].weights@[i]@[j] as int,
            t,
        ));
    }
}

/// Blends one level toward `base` by `t / 1000`, entry by entry.
fn blend_level(l: &Level, base: &Level, t: i64) -> (r: Level)
    requires
        l.wf(),
        base.wf(),
        l.in_count() == base.in_count(),
        l.out_count() == base.out_count(),
        0 <= t <= 1000,
    ensures
        r.wf(),
        r.in_count() == l.in_count(),
        r.out_count() == l.out_count(),
        forall|i: int|
            0 <= i < r.biases@.len() ==> #[trigger] r.biases@[i] == spec_lerp(
                l.biases@[i] as int,
                base.biases@[i] as int,
                t as int,
            ),
        forall|i: int, j: int|
            0 <= i < r.weights@.len() && 0 <= j < r.weights@[i]@.len() ==> #[trigger] r
                .weights@[i]@[j] == spec_lerp(
                l.weights@[i]@[j] as int,
                base.weights@[i]@[j] as int,
                t as int,
            ),
{
    let oc = l.weights.len();
    let ic = l.weights[0].len();
    let mut biases: Vec<i64> = Vec::new();
    let mut weights: Vec<Vec<i64>> = Vec::new();
    for i in 0..oc
        invariant
            l.wf(),
            base.wf(),
            l.in_count() == base.in_count(),
            l.out_count() == base.out_count(),
            0 <= t <= 1000,
            oc == l.out_count(),
            ic == l.in_count(),
            biases@.len() == i,
            weights@.len() == i,
            forall|k: int|
                0 <= k < i ==> #[trigger] biases@[k] == spec_lerp(
                    l.biases@[k] as int,
                    base.biases@[k] as int,
                    t as int,
                ) && -1000 <= biases@[k] <= 1000,
            forall|k: int| 0 <= k < i ==> (#[trigger] weights@[k])@.len() == ic,
            forall|k: int, j: int|
                0 <= k < i && 0 <= j < ic ==> #[trigger] weights@[k]@[j] == spec_lerp(
                    l.weights@[k]@[j] as int,
                    base.weights@[k]@[j] as int,
                    t as int,
                ) && -1000 <= weights@[k]@[j] <= 1000,
    {
        biases.push(lerp_milli(l.biases[i], base.biases[i], t));
        let row: &Vec<i64> = &l.weights[i];
        let base_row: &Vec<i64> = &base.weights[i];
        let mut new_row: Vec<i64> = Vec::new();
        for j in 0..ic
            invariant
                l.wf(),
                base.wf(),
                l.in_count() == base.in_count(),
                0 <= t <= 1000,
                ic == l.in_count(),
                i < l.weights@.len(),
                i < base.weights@.len(),
                row@ == l.weights@[i as int]@,
                base_row@ == base.weights@[i as int]@,
                new_row@.len() == j,
                forall|k: int|
                    0 <= k < j ==> #[trigger] new_row@[k] == spec_lerp(
                        row@[k] as int,
                        base_row@[k] as int,
                        t as int,
                    ) && -1000 <= new_row@[k] <= 1000,
        {
            new_row.push(lerp_milli(row[j], base_row[j], t));
        }
        weights.push(new_row);
    }
    Level { biases, weights }
}

/// Checks that one level record is well-formed.
fn level_check(l: &Level) -> (b: bool)
    ensures
        b == l.wf(),
{
    let oc = l.weights.len();
    if oc < 1 || oc > MAX_WIDTH {
        return false;
    }
    if l.biases.len() != oc {
        return false;
    }
    let ic = l.weights[0].len();
    if ic < 1 || ic > MAX_WIDTH {
        return false;
    }
    for i in 0..oc
        invariant
            oc == l.weights@.len(),
            1 <= oc <= MAX_WIDTH,
            l.biases@.len() == oc,
            ic == l.in_count(),
            1 <= ic <= MAX_WIDTH,
            forall|k: int|
                0 <= k < i ==> (#[trigger] l.weights@[k])@.len() == ic,
            forall|k: int, j: int|
                0 <= k < i && 0 <= j < l.weights@[k]@.len() ==> -WEIGHT_BOUND
                    <= #[trigger] l.weights@[k]@[j] <= WEIGHT_BOUND,
    {
        let row: &Vec<i64> = &l.weights[i];
        if row.len() != ic {
            return false;
        }
        for j in 0..ic
            invariant
                i < l.weights@.len(),
                row@ == l.weights@[i as int]@,
                row@.len() == ic,
                forall|k: int|
                    0 <= k < j ==> -WEIGHT_BOUND <= #[trigger] row@[k] <= WEIGHT_BOUND,
        {
            let w = row[j];
            if w < -WEIGHT_BOUND || w > WEIGHT_BOUND {
                return false;
            }
        }
    }
    for i in 0..oc
        invariant
            oc == l.weights@.len(),
            l.biases@.len() == oc,
            forall|k: int|
                0 <= k < i ==> -WEIGHT_BOUND <= #[trigger] l.biases@[k] <= WEIGHT_BOUND,
    {
        let b = l.biases[i];
        if b < -WEIGHT_BOUND || b > WEIGHT_BOUND {
            return false;
        }
    }
    true
}

impl NeuralNetwork {
    /// The serialized form of the network: a deep copy of the level
    /// records (biases and weights; evaluation keeps no other state).
    pub fn checkpoint(&self) -> (r: Vec<Level>)
        ensures
            same_content(r@, self.levels@),
    {
        let n = self.levels.len();
        let mut out: Vec<Level> = Vec::new();
        for i in 0..n
            invariant
                n == self.levels@.len(),
                out@.len() == i,
                forall|k: int|
                    0 <= k < i ==> (#[trigger] out@[k]).view_of() == self.levels@[k].view_of(),
        {
            let lv: &Level = &self.levels[i];
            out.push(lv.duplicate());
        }
        out
    }

    /// Rebuilds a network from deserialized level records. Succeeds
    /// exactly when the records form a well-formed network: at least
    /// one level, consistent shapes, values within one unit, widths
    /// chained level to level. On success the records are taken as the
    /// network's levels unchanged.
    pub fn from_levels(levels: Vec<Level>) -> (r: Option<NeuralNetwork>)
        ensures
            r is Some <==> levels_wf(levels@),
            r is Some ==> r->Some_0.levels@ == levels@ && r->Some_0.wf(),
    {
        let n = levels.len();
        if n < 1 {
            return None;
        }
        for k in 0..n
            invariant
                n == levels@.len(),
                forall|m: int| 0 <= m < k ==> (#[trigger] levels@[m]).wf(),
        {
            if !level_check(&levels[k]) {
                return None;
            }
        }
        for k in 0..n - 1
            invariant
                n == levels@.len(),
                n >= 1,
                forall|m: int| 0 <= m < n ==> (#[trigger] levels@[m]).wf(),
                forall|m: int|
                    0 <= m < k ==> (#[trigger] levels@[m]).out_count() == levels@[m
                        + 1].in_count(),
        {
            let oc = levels[k].weights.len();
            let next: &Level = &levels[k + 1];
            let ic = next.weights[0].len();
            if oc != ic {
                return None;
            }
        }
        Some(NeuralNetwork { levels })
    }
}

/// Well-formedness is a property of the record content alone, so a
/// reloaded checkpoint whose records agree with a well-formed
/// network's is again well-formed.
pub proof fn lemma_levels_wf_congruent(a: Seq<Level>, b: Seq<Level>)
    requires
        levels_wf(a),
        same_content(a, b),
    ensures
        levels_wf(b),
{
    assert forall|k: int| 0 <= k < b.len() implies (#[trigger] b[k]).wf() by {
        lemma_level_shape_congruent(a[k], b[k]);
    }
    assert forall|k: int| 0 <= k < b.len() - 1 implies (#[trigger] b[k]).out_count() == b[k
        + 1].in_count() by {
        lemma_level_shape_congruent(a[k], b[k]);
        lemma_level_shape_congruent(a[k + 1], b[k + 1]);
    }
}

/// Two levels with the same record content have the same shape,
/// values and well-formedness.
proof fn lemma_level_shape_congruent(x: Level, y: Level)
    requires
        x.view_of() == y.view_of(),
    ensures
        y.out_count() == x.out_count(),
        y.in_count() == x.in_count(),
        y.wf() == x.wf(),
{
    assert(x.view_of().1 == y.view_of().1);
    assert(x.view_of().1.len() == x.weights@.len());
    assert(y.view_of().1.len() == y.weights@.len());
    assert(x.biases@ == y.biases@);
    assert forall|i: int| 0 <= i < x.weights@.len() implies x.weights@[i]@
        == y.weights@[i]@ by {
        assert(x.view_of().1[i] == y.view_of().1[i]);
    }
    if x.weights@.len() > 0 {
        assert(x.weights@[0]@ == y.weights@[0]@);
    }
    assert(x.wf() ==> y.wf());
    assert(y.wf() ==> x.wf()) by {
        assert forall|i: int| 0 <= i < y.weights@.len() implies y.weights@[i]@
            == x.weights@[i]@ by {
            assert(x.view_of().1[i] == y.view_of().1[i]);
        }
    }
}

impl NeuralNetwork {
    /// A deep copy of the network: same level records, evaluating
    /// identically on every input.
    pub fn duplicate(&self) -> (r: NeuralNetwork)
        ensures
            same_content(r.levels@, self.levels@),
            same_content(self.levels@, r.levels@),
            r.levels@.len() == self.levels@.len(),
            forall|k: int|
                0 <= k < r.levels@.len() ==> (#[trigger] r.levels@[k]).in_count()
                    == self.levels@[k].in_count() && r.levels@[k].out_count()
                    == self.levels@[k].out_count(),
            self.wf() ==> r.wf(),
    {
        let levels = self.checkpoint();
        proof {
            assert forall|k: int|
                0 <= k < levels@.len() implies (#[trigger] levels@[k]).in_count()
                == self.levels@[k].in_count() && levels@[k].out_count()
                == self.levels@[k].out_count() by {
                lemma_level_shape_congruent(self.levels@[k], levels@[k]);
            }
            if levels_wf(self.levels@) {
                lemma_levels_wf_congruent(self.levels@, levels@);
            }
        }
        NeuralNetwork { levels }
    }
}

/// Prune boundary behavior: blending by factor 0 keeps the old value
/// exactly, and blending by the full factor copies the base value
/// exactly; applied entry by entry this is the whole of `prune`'s
/// boundary behavior.
pub proof fn lemma_prune_boundary(a: int, b: int)
    ensures
        spec_lerp(a, b, 0) == a,
        spec_lerp(a, b, 1000) == b,
{
    if b >= a {
        assert((b - a) * 0 / 1000 == 0) by (nonlinear_arith);
        assert((b - a) * 1000 / 1000 == b - a) by (nonlinear_arith);
    } else {
        assert((a - b) * 0 / 1000 == 0) by (nonlinear_arith);
        assert((a - b) * 1000 / 1000 == a - b) by (nonlinear_arith);
    }
}

/// Respawn inheritance: a value blended toward `base` by factor
/// `t / 1000` lands within `|base - a| * (1000 - t) / 1000 + 1` of the
/// base; with weights within one unit and `t = 980` that is at most 41
/// fixed-point steps, about two percent of the weight range.
pub proof fn lemma_prune_inheritance(a: int, b: int, t: int)
    requires
        -1000 <= a <= 1000,
        -1000 <= b <= 1000,
        0 <= t <= 1000,
    ensures
        b >= a ==> 0 <= b - spec_lerp(a, b, t) <= (b - a) * (1000 - t) / 1000 + 1,
        b < a ==> 0 <= spec_lerp(a, b, t) - b <= (a - b) * (1000 - t) / 1000 + 1,
{
    if b >= a {
        let d = b - a;
        let dt = d * t;
        assert(0 <= dt <= 1000 * d) by (nonlinear_arith)
            requires
                0 <= d,
                0 <= t <= 1000,
                dt == d * t,
        ;
        assert(d * (1000 - t) == 1000 * d - dt) by (nonlinear_arith)
            requires
                dt == d * t,
        ;
        assert(d - dt / 1000 <= (1000 * d - dt) / 1000 + 1);
        assert(dt / 1000 <= d);
    } else {
        let d = a - b;
        let dt = d * t;
        assert(0 <= dt <= 1000 * d) by (nonlinear_arith)
            requires
                0 <= d,
                0 <= t <= 1000,
                dt == d * t,
        ;
        assert(d * (1000 - t) == 1000 * d - dt) by (nonlinear_arith)
            requires
                dt == d * t,
        ;
        assert(d - dt / 1000 <= (1000 * d - dt) / 1000 + 1);
        assert(dt / 1000 <= d);
    }
}

/// Two levels with the same record content evaluate identically.
proof fn lemma_level_eval_congruent(x: Level, y: Level, inp: Seq<i64>)
    requires
        x.view_of() == y.view_of(),
    ensures
        level_eval(x, inp) == level_eval(y, inp),
{
    assert(x.weights@.len() == y.weights@.len()) by {
        assert(x.view_of().1 == y.view_of().1);
        assert(x.view_of().1.len() == x.weights@.len());
        assert(y.view_of().1.len() == y.weights@.len());
    }
    assert forall|i: int| 0 <= i < x.weights@.len() implies x.weights@[i]@
        == y.weights@[i]@ by {
        assert(x.view_of().1[i] == y.view_of().1[i]);
    }
    assert(x.in_count() == y.in_count());
    assert forall|i: int| 0 <= i < x.out_count() implies neuron_value(x, inp, i) == neuron_value(
        y,
        inp,
        i,
    ) by {
        assert(x.biases@ == y.biases@);
    }
    assert(level_eval(x, inp) =~= level_eval(y, inp));
}

/// Two level sequences with the same record content evaluate
/// identically from any position on.
proof fn lemma_eval_from_congruent(xs: Seq<Level>, ys: Seq<Level>, i: int, inp: Seq<i64>)
    requires
        same_content(xs, ys),
    ensures
        eval_from(xs, i, inp) == eval_from(ys, i, inp),
    decreases xs.len() - i,
{
    if 0 <= i < xs.len() {
        lemma_level_eval_congruent(xs[i], ys[i], inp);
        lemma_eval_from_congruent(xs, ys, i + 1, level_eval(xs[i], inp));
    }
}

/// Checkpoint round-trip: two networks whose serialized level records
/// agree — as a reloaded checkpoint's do with the saved network's —
/// evaluate identically on every input.
pub proof fn lemma_checkpoint_round_trip(x: NeuralNetwork, y: NeuralNetwork, inp: Seq<i64>)
    requires
        same_content(x.levels@, y.levels@),
    ensures
        x.eval(inp) == y.eval(inp),
{
    lemma_eval_from_congruent(x.levels@, y.levels@, 0, inp);
}

} // verus!
