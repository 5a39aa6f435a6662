//! The data-parallel network-evaluation path: the same dense
//! matrix-vector step as the sequential evaluator, laid out over
//! flattened weight buffers the way a compute kernel consumes them,
//! and generators for the WGSL source of such kernels. The flattened
//! evaluator is proved to produce exactly the sequential evaluator's
//! output.

use vstd::prelude::*;
use crate::network::{
    Level, NeuralNetwork, level_eval, eval_from, all_milli, neuron_value,
};
use vstd::string::StringExecFns;

verus! {

/// The flattened index of weight `(i, j)` in a buffer of rows of
/// width `ic`.
pub open spec fn flat_at(l: Level, ic: int, m: int) -> i64 {
    l.weights@[m / ic]@[m % ic]
}

impl Level {
    /// The weight matrix flattened row by row into one buffer, the
    /// layout the compute kernel reads: entry `i * ic + j` is row `i`,
    /// column `j`.
    pub fn flat_weights(&self) -> (r: Vec<i64>)
        requires
            self.wf(),
            self.out_count() * self.in_count() <= 100_000_000,
        ensures
            r@.len() == self.out_count() * self.in_count(),
            forall|m: int| 0 <= m < r@.len() ==> #[trigger] r@[m] == flat_at(*self, self.in_count(), m),
    {
        let oc = self.weights.len();
        let ic = self.weights[0].len();
        let mut flat: Vec<i64> = Vec::new();
        for i in 0..oc
            invariant
                self.wf(),
                oc == self.out_count(),
                ic == self.in_count(),
                oc * ic <= 100_000_000,
                flat@.len() == i * ic,
                forall|m: int|
                    0 <= m < flat@.len() ==> #[trigger] flat@[m] == flat_at(*self, ic as int, m),
        {
            let row: &Vec<i64> = &self.weights[i];
            assert(0 <= (i as int) * ic <= (i as int + 1) * ic <= oc * ic) by (nonlinear_arith)
                requires
                    0 <= (i as int) < oc,
                    1 <= ic,
                    oc * ic <= 100_000_000,
            ;
            let mut j: usize = 0;
            while j < ic
                invariant
                    self.wf(),
                    oc == self.out_count(),
                    ic == self.in_count(),
                    oc * ic <= 100_000_000,
                    i < oc,
                    0 <= (i as int) * ic,
                    (i as int + 1) * ic <= oc * ic,
                    row@ == self.weights@[i as int]@,
                    row@.len() == ic,
                    j <= ic,
                    flat@.len() == i * ic + j,
                    forall|m: int|
                        0 <= m < flat@.len() ==> #[trigger] flat@[m] == flat_at(*self, ic as int, m),
                decreases ic - j,
            {
                assert((i as int) * ic + j < (i as int + 1) * ic) by (nonlinear_arith)
                    requires
                        0 <= j < ic,
                ;
                assert(((i as int) * ic + j) / (ic as int) == i as int && ((i as int) * ic + j) % (
                ic as int) == j as int) by (nonlinear_arith)
                    requires
                        0 <= j < ic,
                        0 <= i as int,
                        1 <= ic,
                ;
                flat.push(row[j]);
                j = j + 1;
            }
            assert((i as int) * ic + ic == (i as int + 1) * ic) by (nonlinear_arith);
        }
        flat
    }

    /// The same per-level operation as [`Level::feed_forward`],
    /// computed the way the data-parallel kernel lays it out: one pass
    /// per output neuron over the flattened weight buffer. Produces
    /// exactly the sequential evaluator's output vector.
    pub fn gpu_feed_forward(&self, inputs: &Vec<i64>) -> (r: Vec<i64>)
        requires
            self.wf(),
            inputs@.len() == self.in_count(),
            all_milli(inputs@),
            self.out_count() * self.in_count() <= 100_000_000,
        ensures
            r@ == level_eval(*self, inputs@),
            r@.len() == self.out_count(),
            all_milli(r@),
    {
        let flat = self.flat_weights();
        let r = flat_level_eval(&flat, &self.biases, inputs, self);
        r
    }
}

/// The kernel body: for each output neuron, the dot product of its
/// row of the flattened weight buffer with the inputs, plus its bias,
/// squashed by the activation — numerically identical to the
/// sequential evaluator.
fn flat_level_eval(flat: &Vec<i64>, biases: &Vec<i64>, inputs: &Vec<i64>, level: &Level) -> (r: Vec<i64>)
    requires
        level.wf(),
        inputs@.len() == level.in_count(),
        all_milli(inputs@),
        level.out_count() * level.in_count() <= 100_000_000,
        biases@ == level.biases@,
        flat@.len() == level.out_count() * level.in_count(),
        forall|m: int|
            0 <= m < flat@.len() ==> #[trigger] flat@[m] == flat_at(
                *level,
                level.in_count(),
                m,
            ),
    ensures
        r@ == level_eval(*level, inputs@),
        r@.len() == level.out_count(),
        all_milli(r@),
{
    let oc = biases.len();
    let ic = inputs.len();
    let mut out: Vec<i64> = Vec::new();
    for i in 0..oc
        invariant
            level.wf(),
            inputs@.len() == level.in_count(),
            all_milli(inputs@),
            level.out_count() * level.in_count() <= 100_000_000,
            biases@ == level.biases@,
            flat@.len() == level.out_count() * level.in_count(),
            forall|m: int|
                0 <= m < flat@.len() ==> #[trigger] flat@[m] == flat_at(
                    *level,
                    level.in_count(),
                    m,
                ),
            oc == level.out_count(),
            ic == level.in_count(),
            out@.len() == i,
            forall|k: int|
                0 <= k < i ==> #[trigger] out@[k] == neuron_value(*level, inputs@, k) as i64,
            all_milli(out@),
    {
        assert(0 <= (i as int) * ic <= (i as int + 1) * ic <= oc * ic) by (nonlinear_arith)
            requires
                0 <= (i as int) < oc,
                1 <= ic,
        ;
        let base: usize = i * ic;
        let mut sum: i64 = 0;
        let mut j: usize = 0;
        while j < ic
            invariant
                level.wf(),
                inputs@.len() == level.in_count(),
                all_milli(inputs@),
                flat@.len() == level.out_count() * level.in_count(),
                forall|m: int|
                    0 <= m < flat@.len() ==> #[trigger] flat@[m] == flat_at(
                        *level,
                        level.in_count(),
                        m,
                    ),
                oc == level.out_count(),
                ic == level.in_count(),
                level.out_count() * level.in_count() <= 100_000_000,
                i < oc,
                base == i * ic,
                (i as int + 1) * ic <= oc * ic,
                j <= ic,
                sum == crate::network::dot(level.weights@[i as int]@, inputs@, j as int),
                -1_000_000 * (j as int) <= sum <= 1_000_000 * (j as int),
            decreases ic - j,
        {
            assert((base as int) + j < (i as int + 1) * ic) by (nonlinear_arith)
                requires
                    base == (i as int) * ic,
                    0 <= (j as int) < ic,
            ;
            assert(base + j < flat@.len());
            assert(((base + j) as int) / (ic as int) == i as int && ((base + j) as int) % (
            ic as int) == j as int) by (nonlinear_arith)
                requires
                    base == (i as int) * ic,
                    0 <= j < ic,
                    0 <= i as int,
                    1 <= ic,
            ;
            let w = flat[base + j];
            let x = inputs[j];
            assert(-1_000_000 <= (w as int) * (x as int) <= 1_000_000) by (nonlinear_arith)
                requires
                    -1000 <= (w as int) <= 1000,
                    -1000 <= (x as int) <= 1000,
            ;
            let prod: i64 = w * x;
            sum = sum + prod;
            j = j + 1;
        }
        let raw: i64 = sum + biases[i] * 1000;
        let act = crate::network::apply_activation(raw);
        out.push(act);
    }
    assert(out@ =~= level_eval(*level, inputs@));
    out
}

impl NeuralNetwork {
    /// The batched evaluation path: every level computed over
    /// flattened buffers, each level's output feeding the next, with
    /// output provably identical to [`NeuralNetwork::feed_forward`].
    pub fn gpu_feed_forward(&self, inputs: &Vec<i64>) -> (r: Vec<i64>)
        requires
            self.wf(),
            inputs@.len() == self.input_width(),
            all_milli(inputs@),
            forall|k: int|
                0 <= k < self.levels@.len() ==> (#[trigger] self.levels@[k]).out_count()
                    * self.levels@[k].in_count() <= 100_000_000,
        ensures
            r@ == self.eval(inputs@),
            r@.len() == self.output_width(),
            all_milli(r@),
    {
        let n = self.levels.len();
        let first: &Level = &self.levels[0];
        let mut cur = first.gpu_feed_forward(inputs);
        let mut i: usize = 1;
        while i < n
            invariant
                self.wf(),
                forall|k: int|
                    0 <= k < self.levels@.len() ==> (#[trigger] self.levels@[k]).out_count()
                        * self.levels@[k].in_count() <= 100_000_000,
                n == self.levels@.len(),
                1 <= i <= n,
                all_milli(cur@),
                cur@.len() == self.levels@[i - 1].out_count(),
                eval_from(self.levels@, i as int, cur@) == self.eval(inputs@),
            decreases n - i,
        {
            let lv: &Level = &self.levels[i];
            cur = lv.gpu_feed_forward(&cur);
            i = i + 1;
        }
        cur
    }
}


/// The decimal digit character for a value in `[0, 9]`.
pub open spec fn dec_digit(d: int) -> char {
    if d == 0 {
        '0'
    } else if d == 1 {
        '1'
    } else if d == 2 {
        '2'
    } else if d == 3 {
        '3'
    } else if d == 4 {
        '4'
    } else if d == 5 {
        '5'
    } else if d == 6 {
        '6'
    } else if d == 7 {
        '7'
    } else if d == 8 {
        '8'
    } else {
        '9'
    }
}

/// The decimal numeral of a nonnegative number, most significant
/// digit first.
pub open spec fn dec(n: int) -> Seq<char>
    decreases n,
{
    if n < 10 {
        seq![dec_digit(n)]
    } else {
        dec(n / 10) + seq![dec_digit(n % 10)]
    }
}

/// One decimal digit as a string slice.
fn digit_str(d: u32) -> (s: &'static str)
    requires
        d < 10,
    ensures
        s@ == seq![dec_digit(d as int)],
{
    let r: &'static str = match d {
        0 => "0",
        1 => "1",
        2 => "2",
        3 => "3",
        4 => "4",
        5 => "5",
        6 => "6",
        7 => "7",
        8 => "8",
        _ => "9",
    };
    proof {
        reveal_strlit("0");
        reveal_strlit("1");
        reveal_strlit("2");
        reveal_strlit("3");
        reveal_strlit("4");
        reveal_strlit("5");
        reveal_strlit("6");
        reveal_strlit("7");
        reveal_strlit("8");
        reveal_strlit("9");
        assert(r@ =~= seq![dec_digit(d as int)]);
    }
    r
}

/// The decimal numeral of a number as a string.
fn u32_string(n: u32) -> (s: String)
    ensures
        s@ == dec(n as int),
    decreases n,
{
    if n < 10 {
        let mut s = String::new();
        s.append(digit_str(n));
        proof {
            assert(s@ =~= dec(n as int));
        }
        s
    } else {
        let mut s = u32_string(n / 10);
        s.append(digit_str(n % 10));
        proof {
            assert(s@ =~= dec(n as int));
        }
        s
    }
}

/// The shared WGSL preamble: the four storage bindings and the entry
/// point header.
pub open spec fn shader_header() -> Seq<char> {
    "@group(0) @binding(0) var<storage, read> inputs: array<f32>;\n"@
        + "@group(0) @binding(1) var<storage, read> weights: array<f32>;\n"@
        + "@group(0) @binding(2) var<storage, read> biases: array<f32>;\n"@
        + "@group(0) @binding(3) var<storage, write> outputs: array<f32>;\n\n"@
        + "@compute @workgroup_size(64)\n"@
        + "fn main(@builtin(global_invocation_id) id: vec3<u32>) {\n"@ + "    let idx = id.x;\n"@
}

/// One layer's WGSL block: a bounds check on the neuron index, the
/// dot product over `inner` inputs at the layer's weight offset, and
/// the thresholded output write at the layer's bias offset.
pub open spec fn layer_chunk(out_size: int, inner: int, offw: int, offb: int) -> Seq<char> {
    "    if (idx < "@ + dec(out_size) + ") {\n"@ + "        var sum: f32 = 0.0;\n"@
        + "        for (var j: u32 = 0; j < "@ + dec(inner) + "; j++) {\n"@
        + "            sum += inputs[j] * weights["@ + dec(offw) + " + idx * "@ + dec(inner)
        + " + j];\n"@ + "        }\n"@
        + "        outputs[idx] = select(0.0, 1.0, sum > biases["@ + dec(offb) + " + idx]);\n"@
        + "    }\n"@
}


/// Appends one layer's WGSL block to the shader text.
fn append_layer_chunk(s: &mut String, out_size: u32, inner: u32, offw: u32, offb: u32)
    ensures
        final(s)@ == old(s)@ + layer_chunk(out_size as int, inner as int, offw as int, offb as int),
{
    let ghost s0 = s@;
    s.append("    if (idx < ");
    let t1 = u32_string(out_size);
    s.append(t1.as_str());
    s.append(") {\n");
    s.append("        var sum: f32 = 0.0;\n");
    s.append("        for (var j: u32 = 0; j < ");
    let t2 = u32_string(inner);
    s.append(t2.as_str());
    s.append("; j++) {\n");
    s.append("            sum += inputs[j] * weights[");
    let t3 = u32_string(offw);
    s.append(t3.as_str());
    s.append(" + idx * ");
    let t4 = u32_string(inner);
    s.append(t4.as_str());
    s.append(" + j];\n");
    s.append("        }\n");
    s.append("        outputs[idx] = select(0.0, 1.0, sum > biases[");
    let t5 = u32_string(offb);
    s.append(t5.as_str());
    s.append(" + idx]);\n");
    s.append("    }\n");
    proof {
        assert(s@ =~= s0 + layer_chunk(out_size as int, inner as int, offw as int, offb as int));
    }
}

/// Weight-buffer offsets accumulated over the first `k` layer sizes.
pub open spec fn weights_total(nc: Seq<u32>, k: int) -> int
    decreases k,
{
    if k <= 1 {
        0
    } else {
        weights_total(nc, k - 1) + nc[k - 2] * nc[k - 1]
    }
}

/// Bias-buffer offsets accumulated over the first `k` layer sizes.
pub open spec fn biases_total(nc: Seq<u32>, k: int) -> int
    decreases k,
{
    if k <= 1 {
        0
    } else {
        biases_total(nc, k - 1) + nc[k - 1]
    }
}

/// The offsets never shrink as layers accumulate.
proof fn lemma_totals_mono(nc: Seq<u32>, a: int, b: int)
    requires
        1 <= a <= b,
    ensures
        weights_total(nc, a) <= weights_total(nc, b),
        biases_total(nc, a) <= biases_total(nc, b),
    decreases b - a,
{
    if a < b {
        lemma_totals_mono(nc, a, b - 1);
        assert(nc[b - 2] * nc[b - 1] >= 0) by (nonlinear_arith)
            requires
                nc[b - 2] >= 0,
                nc[b - 1] >= 0,
        ;
    }
}

/// The layer blocks of the batched shader from layer `i` on, with
/// every inner loop bound fixed to the first layer size.
pub open spec fn layers1(nc: Seq<u32>, i: int, offw: int, offb: int) -> Seq<char>
    decreases nc.len() - i,
{
    if i < 1 || i >= nc.len() {
        Seq::empty()
    } else {
        layer_chunk(nc[i] as int, nc[0] as int, offw, offb) + layers1(
            nc,
            i + 1,
            offw + nc[i - 1] * nc[i],
            offb + nc[i],
        )
    }
}

/// The whole batched feed-forward shader for a layer-size list, in
/// its first form: every layer's inner loop runs over the network's
/// input width.
pub open spec fn shader1_spec(nc: Seq<u32>) -> Seq<char> {
    shader_header() + layers1(nc, 1, 0, 0) + "}\n"@
}

/// Emits the WGSL compute shader for batched feed-forward evaluation
/// of a network with the given layer sizes: one block per layer over
/// the shared flattened buffers, every inner loop bounded by the
/// first layer size.
#[verifier::rlimit(100)]
pub fn generate_feed_forward_shader(neuron_count: &[u32]) -> (s: String)
    requires
        neuron_count@.len() >= 2,
        weights_total(neuron_count@, neuron_count@.len() as int) <= u32::MAX,
        biases_total(neuron_count@, neuron_count@.len() as int) <= u32::MAX,
    ensures
        s@ == shader1_spec(neuron_count@),
{
    let n = neuron_count.len();
    let mut s = String::new();
    s.append("@group(0) @binding(0) var<storage, read> inputs: array<f32>;\n");
    s.append("@group(0) @binding(1) var<storage, read> weights: array<f32>;\n");
    s.append("@group(0) @binding(2) var<storage, read> biases: array<f32>;\n");
    s.append("@group(0) @binding(3) var<storage, write> outputs: array<f32>;\n\n");
    s.append("@compute @workgroup_size(64)\n");
    s.append("fn main(@builtin(global_invocation_id) id: vec3<u32>) {\n");
    s.append("    let idx = id.x;\n");
    assert(s@ =~= shader_header());

    let in0 = neuron_count[0];
    let mut offw: u32 = 0;
    let mut offb: u32 = 0;
    let mut i: usize = 1;
    while i < n
        invariant
            n == neuron_count@.len(),
            n >= 2,
            1 <= i <= n,
            weights_total(neuron_count@, n as int) <= u32::MAX,
            biases_total(neuron_count@, n as int) <= u32::MAX,
            in0 == neuron_count@[0],
            offw == weights_total(neuron_count@, i as int),
            offb == biases_total(neuron_count@, i as int),
            shader1_spec(neuron_count@) == s@ + layers1(
                neuron_count@,
                i as int,
                offw as int,
                offb as int,
            ) + "}\n"@,
        decreases n - i,
    {
        let ghost s0 = s@;
        append_layer_chunk(&mut s, neuron_count[i], in0, offw, offb);
        proof {
            lemma_totals_mono(neuron_count@, i as int + 1, n as int);
            assert(weights_total(neuron_count@, i as int + 1) == offw + neuron_count@[i - 1]
                * neuron_count@[i as int]);
            assert(neuron_count@[i - 1] * neuron_count@[i as int] >= 0) by (nonlinear_arith)
                requires
                    neuron_count@[i - 1] >= 0,
                    neuron_count@[i as int] >= 0,
            ;
            assert(s@ + layers1(
                neuron_count@,
                i as int + 1,
                offw + neuron_count@[i - 1] * neuron_count@[i as int],
                offb + neuron_count@[i as int],
            ) + "}\n"@ =~= s0 + layers1(neuron_count@, i as int, offw as int, offb as int)
                + "}\n"@);
        }
        let prod: u32 = neuron_count[i - 1] * neuron_count[i];
        offw = offw + prod;
        offb = offb + neuron_count[i];
        i = i + 1;
    }
    s.append("}\n");
    proof {
        assert(s@ =~= shader1_spec(neuron_count@));
    }
    s
}

/// The layer blocks of the corrected batched shader from layer `i`
/// on: each layer's inner loop runs over its own input width, and a
/// barrier chains each layer's outputs into the next layer's inputs.
pub open spec fn layers2(nc: Seq<u32>, i: int, offw: int, offb: int) -> Seq<char>
    decreases nc.len() - i,
{
    if i < 1 || i >= nc.len() {
        Seq::empty()
    } else {
        layer_chunk(nc[i] as int, nc[i - 1] as int, offw, offb) + "    barrier();\n"@
            + "    inputs = outputs;\n"@ + layers2(
            nc,
            i + 1,
            offw + nc[i - 1] * nc[i],
            offb + nc[i],
        )
    }
}

/// The whole batched feed-forward shader, second form: per-layer
/// loop bounds and an explicit barrier between layers.
pub open spec fn shader2_spec(nc: Seq<u32>) -> Seq<char> {
    shader_header() + layers2(nc, 1, 0, 0) + "}\n"@
}

/// Emits the corrected WGSL compute shader for batched feed-forward
/// evaluation: like [`generate_feed_forward_shader`] but with each
/// layer's inner loop bounded by that layer's own input width, and a
/// barrier passing outputs to the next layer's inputs.
#[verifier::rlimit(100)]
pub fn generate_feed_forward_shader_2(neuron_count: &[u32]) -> (s: String)
    requires
        neuron_count@.len() >= 2,
        weights_total(neuron_count@, neuron_count@.len() as int) <= u32::MAX,
        biases_total(neuron_count@, neuron_count@.len() as int) <= u32::MAX,
    ensures
        s@ == shader2_spec(neuron_count@),
{
    let n = neuron_count.len();
    let mut s = String::new();
    s.append("@group(0) @binding(0) var<storage, read> inputs: array<f32>;\n");
    s.append("@group(0) @binding(1) var<storage, read> weights: array<f32>;\n");
    s.append("@group(0) @binding(2) var<storage, read> biases: array<f32>;\n");
    s.append("@group(0) @binding(3) var<storage, write> outputs: array<f32>;\n\n");
    s.append("@compute @workgroup_size(64)\n");
    s.append("fn main(@builtin(global_invocation_id) id: vec3<u32>) {\n");
    s.append("    let idx = id.x;\n");
    assert(s@ =~= shader_header());

    let mut offw: u32 = 0;
    let mut offb: u32 = 0;
    let mut i: usize = 1;
    while i < n
        invariant
            n == neuron_count@.len(),
            n >= 2,
            1 <= i <= n,
            weights_total(neuron_count@, n as int) <= u32::MAX,
            biases_total(neuron_count@, n as int) <= u32::MAX,
            offw == weights_total(neuron_count@, i as int),
            offb == biases_total(neuron_count@, i as int),
            shader2_spec(neuron_count@) == s@ + layers2(
                neuron_count@,
                i as int,
                offw as int,
                offb as int,
            ) + "}\n"@,
        decreases n - i,
    {
        let ghost s0 = s@;
        let inner = neuron_count[i - 1];
        append_layer_chunk(&mut s, neuron_count[i], inner, offw, offb);
        s.append("    barrier();\n");
        s.append("    inputs = outputs;\n");
        proof {
            assert(s@ =~= s0 + (layer_chunk(
                neuron_count@[i as int] as int,
                neuron_count@[i - 1] as int,
                offw as int,
                offb as int,
            ) + "    barrier();\n"@ + "    inputs = outputs;\n"@));
            lemma_totals_mono(neuron_count@, i as int + 1, n as int);
            assert(weights_total(neuron_count@, i as int + 1) == offw + neuron_count@[i - 1]
                * neuron_count@[i as int]);
            assert(neuron_count@[i - 1] * neuron_count@[i as int] >= 0) by (nonlinear_arith)
                requires
                    neuron_count@[i - 1] >= 0,
                    neuron_count@[i as int] >= 0,
            ;
            assert(s@ + layers2(
                neuron_count@,
                i as int + 1,
                offw + neuron_count@[i - 1] * neuron_count@[i as int],
                offb + neuron_count@[i as int],
            ) + "}\n"@ =~= s0 + layers2(neuron_count@, i as int, offw as int, offb as int)
                + "}\n"@);
        }
        let prod: u32 = neuron_count[i - 1] * neuron_count[i];
        offw = offw + prod;
        offb = offb + neuron_count[i];
        i = i + 1;
    }
    s.append("}\n");
    proof {
        assert(s@ =~= shader2_spec(neuron_count@));
    }
    s
}

} // verus!
