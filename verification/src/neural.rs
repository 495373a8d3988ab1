//! The feed-forward neural controller: a stack of layers, each a row of
//! neurons holding a bias and one weight per input. A neuron's output is
//! `max(0, bias + sum(input_j * weight_j))` in saturating fixed point.
//!
//! The first declared width of a network is the raw sensor width; it has no
//! neurons of its own. Genes (biases and weights) are drawn from `[-1, 1]`
//! at creation and on mutation; crossover copies every gene verbatim from
//! one parent or the other.

use vstd::prelude::*;
use crate::fx::{fx_clip, fx_mul_spec, fx_mul, FX_ONE, FX_LIM};
use crate::rng::{rand_bool, rand_i64, rand_i64_incl};

verus! {

#[derive(Debug, Clone)]
pub struct Neuron {
    pub bias: i64,
    pub input_weights: Vec<i64>,
}

#[derive(Debug, Clone)]
pub struct Layer {
    pub neurons: Vec<Neuron>,
}

#[derive(Debug, Clone)]
pub struct Network {
    pub layers: Vec<Layer>,
}

/// The weighted sum of the first `n` input/weight pairs, each product taken
/// in saturating fixed point.
pub open spec fn wsum(ws: Seq<i64>, xs: Seq<i64>, n: int) -> int
    decreases n,
{
    if n <= 0 {
        0
    } else {
        wsum(ws, xs, n - 1) + fx_mul_spec(ws[n - 1] as int, xs[n - 1] as int)
    }
}

/// A neuron's output: the weighted sum plus the bias, clamped below at zero
/// and saturated above.
pub open spec fn neuron_out(bias: i64, ws: Seq<i64>, xs: Seq<i64>) -> int {
    let t = bias + wsum(ws, xs, ws.len() as int);
    if t < 0 {
        0
    } else {
        fx_clip(t)
    }
}

/// A layer's output vector: one `neuron_out` per neuron, in order.
pub open spec fn layer_eval(ns: Seq<Neuron>, xs: Seq<i64>) -> Seq<i64> {
    Seq::new(ns.len(), |i: int| neuron_out(ns[i].bias, ns[i].input_weights@, xs) as i64)
}

/// A network's output: the input vector fed through every layer in order.
pub open spec fn net_eval(ls: Seq<Layer>, xs: Seq<i64>) -> Seq<i64>
    decreases ls.len(),
{
    if ls.len() == 0 {
        xs
    } else {
        net_eval(ls.drop_first(), layer_eval(ls.first().neurons@, xs))
    }
}

pub open spec fn neuron_wf(n: Neuron) -> bool {
    n.input_weights@.len() >= 1
}

/// The number of inputs every neuron of the layer takes.
pub open spec fn layer_width(l: Layer) -> nat {
    l.neurons@[0].input_weights@.len()
}

pub open spec fn layer_wf(l: Layer) -> bool {
    &&& l.neurons@.len() >= 1
    &&& forall|i: int|
        0 <= i < l.neurons@.len() ==> l.neurons@[i].input_weights@.len() == layer_width(l)
    &&& layer_width(l) >= 1
}

/// Well-formed layer stack: at least one layer, every layer well-formed, and
/// each layer as wide as the previous layer's neuron count.
pub open spec fn layers_wf(ls: Seq<Layer>) -> bool {
    &&& ls.len() >= 1
    &&& forall|l: int| 0 <= l < ls.len() ==> layer_wf(#[trigger] ls[l])
    &&& forall|l: int| 1 <= l < ls.len() ==> layer_width(#[trigger] ls[l]) == ls[l - 1].neurons@.len()
}

pub open spec fn net_wf(n: Network) -> bool {
    layers_wf(n.layers@)
}

/// The sensor width the network expects.
pub open spec fn net_input_size(n: Network) -> nat {
    layer_width(n.layers@[0])
}

/// The width of the network's final output vector.
pub open spec fn net_output_size(n: Network) -> nat {
    n.layers@.last().neurons@.len()
}

/// Offspring gene law: every gene of `c` is the corresponding gene of `a` or
/// of `b`, with no third value.
pub open spec fn neuron_crossed(c: Neuron, a: Neuron, b: Neuron) -> bool {
    &&& c.input_weights@.len() == a.input_weights@.len()
    &&& (c.bias == a.bias || c.bias == b.bias)
    &&& forall|j: int|
        0 <= j < c.input_weights@.len() ==> c.input_weights@[j] == a.input_weights@[j]
            || #[trigger] c.input_weights@[j] == b.input_weights@[j]
}

pub open spec fn layer_crossed(c: Layer, a: Layer, b: Layer) -> bool {
    &&& c.neurons@.len() == a.neurons@.len()
    &&& forall|i: int|
        0 <= i < c.neurons@.len() ==> neuron_crossed(
            #[trigger] c.neurons@[i],
            a.neurons@[i],
            b.neurons@[i],
        )
}

pub open spec fn net_crossed(c: Network, a: Network, b: Network) -> bool {
    &&& c.layers@.len() == a.layers@.len()
    &&& forall|l: int|
        0 <= l < c.layers@.len() ==> layer_crossed(
            #[trigger] c.layers@[l],
            a.layers@[l],
            b.layers@[l],
        )
}

/// Mutation law: every gene is either unchanged or a fresh value in `[-1, 1]`.
pub open spec fn neuron_mutated(new: Neuron, old: Neuron) -> bool {
    &&& new.input_weights@.len() == old.input_weights@.len()
    &&& (new.bias == old.bias || -FX_ONE <= new.bias <= FX_ONE)
    &&& forall|j: int|
        0 <= j < new.input_weights@.len() ==> new.input_weights@[j] == old.input_weights@[j]
            || -FX_ONE <= #[trigger] new.input_weights@[j] <= FX_ONE
}

pub open spec fn layer_mutated(new: Layer, old: Layer) -> bool {
    &&& new.neurons@.len() == old.neurons@.len()
    &&& forall|i: int|
        0 <= i < new.neurons@.len() ==> neuron_mutated(#[trigger] new.neurons@[i], old.neurons@[i])
}

pub open spec fn net_mutated(new: Network, old: Network) -> bool {
    &&& new.layers@.len() == old.layers@.len()
    &&& forall|l: int|
        0 <= l < new.layers@.len() ==> layer_mutated(#[trigger] new.layers@[l], old.layers@[l])
}

/// Every gene of the neuron lies in `[-1, 1]`.
pub open spec fn neuron_genes_bounded(n: Neuron) -> bool {
    &&& -FX_ONE <= n.bias <= FX_ONE
    &&& forall|j: int|
        0 <= j < n.input_weights@.len() ==> -FX_ONE <= #[trigger] n.input_weights@[j] <= FX_ONE
}

pub open spec fn net_genes_bounded(n: Network) -> bool {
    forall|l: int, i: int|
        0 <= l < n.layers@.len() && 0 <= i < n.layers@[l].neurons@.len()
            ==> neuron_genes_bounded(#[trigger] n.layers@[l].neurons@[i])
}

/// Two networks share a shape: same layer count, neuron counts, and widths.
pub open spec fn same_shape(a: Network, b: Network) -> bool {
    &&& a.layers@.len() == b.layers@.len()
    &&& forall|l: int|
        0 <= l < a.layers@.len() ==> (#[trigger] a.layers@[l]).neurons@.len()
            == b.layers@[l].neurons@.len()
    &&& forall|l: int, i: int|
        0 <= l < a.layers@.len() && 0 <= i < a.layers@[l].neurons@.len()
            ==> (#[trigger] a.layers@[l].neurons@[i]).input_weights@.len()
            == b.layers@[l].neurons@[i].input_weights@.len()
}

/// A crossover offspring has its first parent's shape.
pub proof fn lemma_crossed_shape(c: Network, a: Network, b: Network)
    requires
        net_crossed(c, a, b),
    ensures
        same_shape(c, a),
{
    assert forall|l: int, i: int|
        0 <= l < c.layers@.len() && 0 <= i < c.layers@[l].neurons@.len() implies (
    #[trigger] c.layers@[l].neurons@[i]).input_weights@.len()
        == a.layers@[l].neurons@[i].input_weights@.len() by {
        assert(layer_crossed(c.layers@[l], a.layers@[l], b.layers@[l]));
        assert(neuron_crossed(c.layers@[l].neurons@[i], a.layers@[l].neurons@[i], b.layers@[l].neurons@[i]));
    }
    assert forall|l: int| 0 <= l < c.layers@.len() implies (#[trigger] c.layers@[l]).neurons@.len()
        == a.layers@[l].neurons@.len() by {
        assert(layer_crossed(c.layers@[l], a.layers@[l], b.layers@[l]));
    }
}

/// A mutated network keeps its shape.
pub proof fn lemma_mutated_shape(new: Network, old: Network)
    requires
        net_mutated(new, old),
    ensures
        same_shape(new, old),
{
    assert forall|l: int, i: int|
        0 <= l < new.layers@.len() && 0 <= i < new.layers@[l].neurons@.len() implies (
    #[trigger] new.layers@[l].neurons@[i]).input_weights@.len()
        == old.layers@[l].neurons@[i].input_weights@.len() by {
        assert(layer_mutated(new.layers@[l], old.layers@[l]));
        assert(neuron_mutated(new.layers@[l].neurons@[i], old.layers@[l].neurons@[i]));
    }
    assert forall|l: int| 0 <= l < new.layers@.len() implies (
    #[trigger] new.layers@[l]).neurons@.len() == old.layers@[l].neurons@.len() by {
        assert(layer_mutated(new.layers@[l], old.layers@[l]));
    }
}

/// Sharing a shape with a well-formed network makes a network well-formed,
/// with the same input width.
pub proof fn lemma_same_shape_wf(a: Network, b: Network)
    requires
        same_shape(a, b),
        net_wf(b),
    ensures
        net_wf(a),
        net_input_size(a) == net_input_size(b),
        net_output_size(a) == net_output_size(b),
{
    assert forall|l: int| 0 <= l < a.layers@.len() implies layer_wf(#[trigger] a.layers@[l]) by {
        assert(layer_wf(b.layers@[l]));
        assert(a.layers@[l].neurons@.len() == b.layers@[l].neurons@.len());
        assert forall|i: int|
            0 <= i < a.layers@[l].neurons@.len() implies (
        #[trigger] a.layers@[l].neurons@[i]).input_weights@.len() == layer_width(a.layers@[l]) by {
            assert(a.layers@[l].neurons@[i].input_weights@.len()
                == b.layers@[l].neurons@[i].input_weights@.len());
            assert(a.layers@[l].neurons@[0].input_weights@.len()
                == b.layers@[l].neurons@[0].input_weights@.len());
        }
    }
    assert forall|l: int|
        1 <= l < a.layers@.len() implies layer_width(#[trigger] a.layers@[l])
        == a.layers@[l - 1].neurons@.len() by {
        assert(layer_width(b.layers@[l]) == b.layers@[l - 1].neurons@.len());
        assert(a.layers@[l].neurons@[0].input_weights@.len()
            == b.layers@[l].neurons@[0].input_weights@.len());
    }
    assert(a.layers@[0].neurons@[0].input_weights@.len()
        == b.layers@[0].neurons@[0].input_weights@.len());
    assert(a.layers@[a.layers@.len() - 1].neurons@.len() == b.layers@[b.layers@.len()
        - 1].neurons@.len());
}

/// Shape sharing is symmetric and transitive.
pub proof fn lemma_same_shape_sym(a: Network, b: Network)
    requires
        same_shape(a, b),
    ensures
        same_shape(b, a),
{
}

pub proof fn lemma_same_shape_trans(a: Network, b: Network, c: Network)
    requires
        same_shape(a, b),
        same_shape(b, c),
    ensures
        same_shape(a, c),
{
}

proof fn lemma_wsum_bound(ws: Seq<i64>, xs: Seq<i64>, n: int)
    requires
        0 <= n <= ws.len(),
    ensures
        -(n * FX_LIM) <= wsum(ws, xs, n) <= n * FX_LIM,
    decreases n,
{
    if n <= 0 {
    } else {
        lemma_wsum_bound(ws, xs, n - 1);
        assert((n - 1) * FX_LIM + FX_LIM == n * FX_LIM) by (nonlinear_arith);
    }
}

impl Neuron {
    pub fn new(bias: i64, input_weights: Vec<i64>) -> (r: Neuron)
        requires
            input_weights@.len() >= 1,
        ensures
            r.bias == bias,
            r.input_weights@ == input_weights@,
            neuron_wf(r),
    {
        Neuron { bias, input_weights }
    }

    /// Feed an input vector to the neuron.
    pub fn propagate(&self, inputs: &Vec<i64>) -> (r: i64)
        requires
            neuron_wf(*self),
            inputs@.len() == self.input_weights@.len(),
        ensures
            r == neuron_out(self.bias, self.input_weights@, inputs@),
            0 <= r <= FX_LIM,
    {
        let n = self.input_weights.len();
        let mut acc: i128 = 0;
        let mut i: usize = 0;
        while i < n
            invariant
                i <= n,
                n == self.input_weights@.len() == inputs@.len(),
                acc == wsum(self.input_weights@, inputs@, i as int),
                -((i as int) * FX_LIM) <= acc <= (i as int) * FX_LIM,
            decreases n - i,
        {
            let term = fx_mul(self.input_weights[i], inputs[i]);
            proof {
                assert((i as int) * FX_LIM + FX_LIM == (i + 1) * FX_LIM) by (nonlinear_arith);
            }
            acc = acc + (term as i128);
            i = i + 1;
        }
        let t: i128 = acc + (self.bias as i128);
        if t <= 0 {
            0
        } else if t > FX_LIM as i128 {
            FX_LIM
        } else {
            t as i64
        }
    }

    /// Offspring whose every gene is copied from `self` or from `b`, chosen
    /// independently per gene.
    pub fn crossover_uniform(&self, rng: &mut rand::rngs::StdRng, b: &Neuron) -> (c: Neuron)
        requires
            self.input_weights@.len() == b.input_weights@.len(),
        ensures
            neuron_crossed(c, *self, *b),
    {
        let n = self.input_weights.len();
        let bias = if rand_bool(rng) {
            self.bias
        } else {
            b.bias
        };
        let mut ws: Vec<i64> = Vec::new();
        let mut j: usize = 0;
        while j < n
            invariant
                j <= n,
                n == self.input_weights@.len() == b.input_weights@.len(),
                ws@.len() == j,
                forall|k: int|
                    0 <= k < j ==> ws@[k] == self.input_weights@[k] || #[trigger] ws@[k]
                        == b.input_weights@[k],
            decreases n - j,
        {
            let w = if rand_bool(rng) {
                self.input_weights[j]
            } else {
                b.input_weights[j]
            };
            ws.push(w);
            j = j + 1;
        }
        Neuron { bias, input_weights: ws }
    }

    /// Replace each gene, independently with the given probability (in fixed
    /// point, `FX_ONE` standing for certainty), by a fresh draw from `[-1, 1]`.
    pub fn mutate_uniform(&mut self, rng: &mut rand::rngs::StdRng, probability: i64)
        requires
            0 <= probability <= FX_ONE,
        ensures
            neuron_mutated(*final(self), *old(self)),
    {
        if rand_i64(rng, 0, FX_ONE) < probability {
            self.bias = rand_i64_incl(rng, -FX_ONE, FX_ONE);
        }
        let n = self.input_weights.len();
        let ghost orig = self.input_weights@;
        let mut j: usize = 0;
        while j < n
            invariant
                j <= n,
                0 <= probability <= FX_ONE,
                n == self.input_weights@.len() == orig.len(),
                orig == old(self).input_weights@,
                self.bias == old(self).bias || -FX_ONE <= self.bias <= FX_ONE,
                forall|k: int|
                    j <= k < n ==> #[trigger] self.input_weights@[k] == orig[k],
                forall|k: int|
                    0 <= k < j ==> self.input_weights@[k] == orig[k] || -FX_ONE
                        <= #[trigger] self.input_weights@[k] <= FX_ONE,
            decreases n - j,
        {
            if rand_i64(rng, 0, FX_ONE) < probability {
                let w = rand_i64_incl(rng, -FX_ONE, FX_ONE);
                self.input_weights.set(j, w);
            }
            j = j + 1;
        }
    }
}

impl Layer {
    pub fn new(neurons: Vec<Neuron>) -> (r: Layer)
        requires
            neurons@.len() >= 1,
            neurons@[0].input_weights@.len() >= 1,
            forall|i: int|
                0 <= i < neurons@.len() ==> (#[trigger] neurons@[i]).input_weights@.len()
                    == neurons@[0].input_weights@.len(),
        ensures
            r.neurons@ == neurons@,
            layer_wf(r),
    {
        Layer { neurons }
    }

    /// Feed an input vector to every neuron of the layer.
    pub fn propagate(&self, inputs: &Vec<i64>) -> (r: Vec<i64>)
        requires
            layer_wf(*self),
            inputs@.len() == layer_width(*self),
        ensures
            r@ == layer_eval(self.neurons@, inputs@),
    {
        let n = self.neurons.len();
        let mut out: Vec<i64> = Vec::new();
        let mut i: usize = 0;
        while i < n
            invariant
                i <= n,
                n == self.neurons@.len(),
                layer_wf(*self),
                inputs@.len() == layer_width(*self),
                out@.len() == i,
                forall|k: int|
                    0 <= k < i ==> out@[k] == neuron_out(
                        self.neurons@[k].bias,
                        self.neurons@[k].input_weights@,
                        inputs@,
                    ),
            decreases n - i,
        {
            let v = self.neurons[i].propagate(inputs);
            out.push(v);
            i = i + 1;
        }
        proof {
            assert(out@ =~= layer_eval(self.neurons@, inputs@));
        }
        out
    }

    /// Pairwise uniform crossover of the two layers' neurons.
    pub fn crossover_uniform(&self, rng: &mut rand::rngs::StdRng, b: &Layer) -> (c: Layer)
        requires
            self.neurons@.len() == b.neurons@.len(),
            forall|i: int|
                0 <= i < self.neurons@.len() ==> (#[trigger] self.neurons@[i]).input_weights@.len()
                    == b.neurons@[i].input_weights@.len(),
        ensures
            layer_crossed(c, *self, *b),
    {
        let n = self.neurons.len();
        let mut out: Vec<Neuron> = Vec::new();
        let mut i: usize = 0;
        while i < n
            invariant
                i <= n,
                n == self.neurons@.len() == b.neurons@.len(),
                forall|k: int|
                    0 <= k < n ==> (#[trigger] self.neurons@[k]).input_weights@.len()
                        == b.neurons@[k].input_weights@.len(),
                out@.len() == i,
                forall|k: int|
                    0 <= k < i ==> neuron_crossed(
                        #[trigger] out@[k],
                        self.neurons@[k],
                        b.neurons@[k],
                    ),
            decreases n - i,
        {
            let c = self.neurons[i].crossover_uniform(rng, &b.neurons[i]);
            out.push(c);
            i = i + 1;
        }
        Layer { neurons: out }
    }

    /// Mutate every neuron of the layer.
    pub fn mutate_uniform(&mut self, rng: &mut rand::rngs::StdRng, probability: i64)
        requires
            0 <= probability <= FX_ONE,
        ensures
            layer_mutated(*final(self), *old(self)),
    {
        let n = self.neurons.len();
        let mut out: Vec<Neuron> = Vec::new();
        let mut i: usize = 0;
        while i < n
            invariant
                i <= n,
                0 <= probability <= FX_ONE,
                n == old(self).neurons@.len(),
                self.neurons@ == old(self).neurons@.skip(i as int),
                out@.len() == i,
                forall|k: int|
                    0 <= k < i ==> neuron_mutated(#[trigger] out@[k], old(self).neurons@[k]),
            decreases n - i,
        {
            let mut nrn = self.neurons.remove(0);
            proof {
                assert(old(self).neurons@.skip(i as int).drop_first() =~= old(
                    self,
                ).neurons@.skip(i as int + 1));
            }
            nrn.mutate_uniform(rng, probability);
            out.push(nrn);
            i = i + 1;
        }
        self.neurons = out;
    }
}

/// Feeding a stack extended by one layer equals feeding the stack and then
/// the extra layer.
proof fn lemma_net_eval_push(ls: Seq<Layer>, l: Layer, xs: Seq<i64>)
    ensures
        net_eval(ls.push(l), xs) == layer_eval(l.neurons@, net_eval(ls, xs)),
    decreases ls.len(),
{
    if ls.len() == 0 {
        assert(ls.push(l).drop_first() =~= Seq::<Layer>::empty());
        assert(ls.push(l).first() == l);
        assert(net_eval(ls.push(l), xs) == net_eval(
            Seq::<Layer>::empty(),
            layer_eval(l.neurons@, xs),
        ));
        assert(net_eval(Seq::<Layer>::empty(), layer_eval(l.neurons@, xs)) == layer_eval(
            l.neurons@,
            xs,
        ));
        assert(net_eval(ls, xs) == xs);
    } else {
        assert(ls.push(l).drop_first() =~= ls.drop_first().push(l));
        assert(ls.push(l).first() == ls.first());
        assert(net_eval(ls.push(l), xs) == net_eval(
            ls.drop_first().push(l),
            layer_eval(ls.first().neurons@, xs),
        ));
        lemma_net_eval_push(ls.drop_first(), l, layer_eval(ls.first().neurons@, xs));
        assert(net_eval(ls, xs) == net_eval(ls.drop_first(), layer_eval(ls.first().neurons@, xs)));
    }
}

impl Network {
    pub fn from_layers(layers: Vec<Layer>) -> (r: Network)
        requires
            layers_wf(layers@),
        ensures
            r.layers@ == layers@,
            net_wf(r),
    {
        Network { layers }
    }

    pub fn input_size(&self) -> (r: usize)
        requires
            net_wf(*self),
        ensures
            r == net_input_size(*self),
    {
        self.layers[0].neurons[0].input_weights.len()
    }

    pub fn output_size(&self) -> (r: usize)
        requires
            net_wf(*self),
        ensures
            r == net_output_size(*self),
    {
        self.layers[self.layers.len() - 1].neurons.len()
    }

    /// Feed an input vector through every layer in order.
    pub fn propagate(&self, inputs: &Vec<i64>) -> (r: Vec<i64>)
        requires
            net_wf(*self),
            inputs@.len() == net_input_size(*self),
        ensures
            r@ == net_eval(self.layers@, inputs@),
            r@.len() == net_output_size(*self),
    {
        let count = self.layers.len();
        let mut cur: Vec<i64> = Vec::new();
        let mut j: usize = 0;
        let width = inputs.len();
        while j < width
            invariant
                j <= width,
                width == inputs@.len(),
                cur@ == inputs@.subrange(0, j as int),
            decreases width - j,
        {
            cur.push(inputs[j]);
            proof {
                assert(cur@ =~= inputs@.subrange(0, j as int + 1));
            }
            j = j + 1;
        }
        proof {
            assert(cur@ =~= inputs@);
        }
        let mut i: usize = 0;
        while i < count
            invariant
                i <= count,
                count == self.layers@.len(),
                net_wf(*self),
                inputs@.len() == net_input_size(*self),
                cur@ == net_eval(self.layers@.subrange(0, i as int), inputs@),
                cur@.len() == if i == 0 {
                    inputs@.len()
                } else {
                    self.layers@[i as int - 1].neurons@.len()
                },
            decreases count - i,
        {
            let next = self.layers[i].propagate(&cur);
            proof {
                assert(self.layers@.subrange(0, i as int + 1) =~= self.layers@.subrange(
                    0,
                    i as int,
                ).push(self.layers@[i as int]));
                lemma_net_eval_push(self.layers@.subrange(0, i as int), self.layers@[i as int], inputs@);
            }
            cur = next;
            i = i + 1;
        }
        proof {
            assert(self.layers@.subrange(0, count as int) =~= self.layers@);
        }
        cur
    }

    /// A fresh network of the given shape: `shape[0]` is the sensor width,
    /// `shape[i]` for `i >= 1` the neuron count of layer `i`; every gene is
    /// drawn from `[-1, 1]`.
    pub fn random(rng: &mut rand::rngs::StdRng, shape: &Vec<usize>) -> (r: Network)
        requires
            shape@.len() >= 2,
            forall|i: int| 0 <= i < shape@.len() ==> 1 <= #[trigger] shape@[i],
        ensures
            net_wf(r),
            net_genes_bounded(r),
            r.layers@.len() == shape@.len() - 1,
            forall|l: int|
                0 <= l < r.layers@.len() ==> (#[trigger] r.layers@[l]).neurons@.len() == shape@[l
                    + 1],
            forall|l: int|
                0 <= l < r.layers@.len() ==> layer_width(#[trigger] r.layers@[l]) == shape@[l],
            net_input_size(r) == shape@[0],
            net_output_size(r) == shape@.last(),
    {
        let depth = shape.len();
        let mut layers: Vec<Layer> = Vec::new();
        let mut l: usize = 1;
        while l < depth
            invariant
                1 <= l <= depth,
                depth == shape@.len() >= 2,
                forall|i: int| 0 <= i < shape@.len() ==> 1 <= #[trigger] shape@[i],
                layers@.len() == l - 1,
                forall|k: int|
                    0 <= k < l - 1 ==> (#[trigger] layers@[k]).neurons@.len() == shape@[k + 1],
                forall|k: int| 0 <= k < l - 1 ==> layer_wf(#[trigger] layers@[k]),
                forall|k: int|
                    0 <= k < l - 1 ==> layer_width(#[trigger] layers@[k]) == shape@[k],
                forall|k: int, i: int|
                    0 <= k < l - 1 && 0 <= i < layers@[k].neurons@.len() ==> neuron_genes_bounded(
                        #[trigger] layers@[k].neurons@[i],
                    ),
            decreases depth - l,
        {
            let n_neurons = shape[l];
            let n_weights = shape[l - 1];
            let mut neurons: Vec<Neuron> = Vec::new();
            let mut i: usize = 0;
            while i < n_neurons
                invariant
                    i <= n_neurons,
                    1 <= n_weights,
                    neurons@.len() == i,
                    forall|k: int|
                        0 <= k < i ==> (#[trigger] neurons@[k]).input_weights@.len() == n_weights,
                    forall|k: int| 0 <= k < i ==> neuron_genes_bounded(#[trigger] neurons@[k]),
                decreases n_neurons - i,
            {
                let bias = rand_i64_incl(rng, -FX_ONE, FX_ONE);
                let mut ws: Vec<i64> = Vec::new();
                let mut w: usize = 0;
                while w < n_weights
                    invariant
                        w <= n_weights,
                        ws@.len() == w,
                        forall|k: int| 0 <= k < w ==> -FX_ONE <= #[trigger] ws@[k] <= FX_ONE,
                    decreases n_weights - w,
                {
                    let g = rand_i64_incl(rng, -FX_ONE, FX_ONE);
                    ws.push(g);
                    w = w + 1;
                }
                neurons.push(Neuron { bias, input_weights: ws });
                i = i + 1;
            }
            layers.push(Layer { neurons });
            l = l + 1;
        }
        Network { layers }
    }

    /// Offspring whose every gene is copied from `self` or from `b`.
    pub fn crossover_uniform(&self, rng: &mut rand::rngs::StdRng, b: &Network) -> (c: Network)
        requires
            same_shape(*self, *b),
        ensures
            net_crossed(c, *self, *b),
            same_shape(c, *self),
    {
        let n = self.layers.len();
        let mut out: Vec<Layer> = Vec::new();
        let mut l: usize = 0;
        while l < n
            invariant
                l <= n,
                n == self.layers@.len(),
                same_shape(*self, *b),
                out@.len() == l,
                forall|k: int|
                    0 <= k < l ==> layer_crossed(
                        #[trigger] out@[k],
                        self.layers@[k],
                        b.layers@[k],
                    ),
            decreases n - l,
        {
            let c = self.layers[l].crossover_uniform(rng, &b.layers[l]);
            out.push(c);
            l = l + 1;
        }
        Network { layers: out }
    }

    /// Mutate every gene of the network, independently with the given
    /// probability, to a fresh draw from `[-1, 1]`.
    pub fn mutate_uniform(&mut self, rng: &mut rand::rngs::StdRng, probability: i64)
        requires
            0 <= probability <= FX_ONE,
        ensures
            net_mutated(*final(self), *old(self)),
    {
        let n = self.layers.len();
        let mut out: Vec<Layer> = Vec::new();
        let mut l: usize = 0;
        while l < n
            invariant
                l <= n,
                0 <= probability <= FX_ONE,
                n == old(self).layers@.len(),
                self.layers@ == old(self).layers@.skip(l as int),
                out@.len() == l,
                forall|k: int|
                    0 <= k < l ==> layer_mutated(#[trigger] out@[k], old(self).layers@[k]),
            decreases n - l,
        {
            let mut layer = self.layers.remove(0);
            proof {
                assert(old(self).layers@.skip(l as int).drop_first() =~= old(self).layers@.skip(
                    l as int + 1,
                ));
            }
            layer.mutate_uniform(rng, probability);
            out.push(layer);
            l = l + 1;
        }
        self.layers = out;
    }
}

} // verus!
