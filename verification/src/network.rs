//! A feed-forward network: an ordered sequence of layers.
//!
//! The canonical serialization order — layer by layer, neuron by neuron,
//! bias first and then each weight — is captured by `net_flat`, and the
//! round-trip and length laws of that order are proved below.

use vstd::prelude::*;

use crate::layer::{layer_in_range, layer_out_s, layer_uniform, Layer};
use crate::neuron::{Neuron, NeuronView};

verus! {

/// One entry of a topology: how many neurons the layer holds.
#[derive(Clone, Copy, PartialEq, Eq, Structural, Debug)]
pub struct LayerTopology {
    pub neurons: usize,
}

pub struct Network {
    layers: Vec<Layer>,
}

pub open spec fn layers_view(ls: Seq<Layer>) -> Seq<Seq<NeuronView>> {
    Seq::new(ls.len(), |i: int| ls[i]@)
}

impl View for Network {
    type V = Seq<Seq<NeuronView>>;

    closed spec fn view(&self) -> Seq<Seq<NeuronView>> {
        layers_view(self.layers@)
    }
}

/// Each layer after the first expects exactly one input per neuron of the
/// layer before it.
pub open spec fn net_wf(n: Seq<Seq<NeuronView>>) -> bool {
    forall|i: int| 1 <= i < n.len() ==> layer_uniform(#[trigger] n[i], n[i - 1].len() as int)
}

pub open spec fn topo_sizes(ts: Seq<LayerTopology>) -> Seq<usize> {
    Seq::new(ts.len(), |i: int| ts[i].neurons)
}

/// The network has the given shape: one layer per adjacent pair of sizes,
/// with `sizes[j + 1]` neurons of `sizes[j]` weights each.
pub open spec fn net_matches(n: Seq<Seq<NeuronView>>, sizes: Seq<usize>) -> bool {
    &&& n.len() + 1 == sizes.len()
    &&& forall|j: int| 0 <= j < n.len() ==> #[trigger] n[j].len() == sizes[j + 1]
    &&& forall|j: int| 0 <= j < n.len() ==> layer_uniform(#[trigger] n[j], sizes[j] as int)
}

/// Every bias and weight of the network lies within `[-1, 1]`.
pub open spec fn net_in_range(n: Seq<Seq<NeuronView>>) -> bool {
    forall|i: int| 0 <= i < n.len() ==> layer_in_range(#[trigger] n[i])
}

/// What the network returns: the input vector folded through the layers in
/// order.
pub open spec fn net_out_s(n: Seq<Seq<NeuronView>>, inputs: Seq<i64>) -> Seq<i64>
    decreases n.len(),
{
    if n.len() == 0 {
        inputs
    } else {
        net_out_s(n.drop_first(), layer_out_s(n[0], inputs))
    }
}

/// One neuron's serialization: its bias, then its weights in order.
pub open spec fn neuron_flat(nv: NeuronView) -> Seq<i64> {
    seq![nv.bias] + nv.weights
}

/// One layer's serialization: its neurons' serializations, concatenated.
pub open spec fn layer_flat(l: Seq<NeuronView>) -> Seq<i64>
    decreases l.len(),
{
    if l.len() == 0 {
        Seq::empty()
    } else {
        layer_flat(l.drop_last()) + neuron_flat(l.last())
    }
}

/// The whole network's serialization: its layers' serializations,
/// concatenated.
pub open spec fn net_flat(n: Seq<Seq<NeuronView>>) -> Seq<i64>
    decreases n.len(),
{
    if n.len() == 0 {
        Seq::empty()
    } else {
        net_flat(n.drop_last()) + layer_flat(n.last())
    }
}

/// The number of scalars the first `j` layer gaps of a topology call for.
pub open spec fn count_upto(sizes: Seq<usize>, j: int) -> int
    decreases j,
{
    if j <= 0 {
        0
    } else {
        count_upto(sizes, j - 1) + (1 + sizes[j - 1]) * sizes[j]
    }
}

/// The total number of scalars a topology calls for:
/// the sum of `(1 + input_width) * output_width` over all layers.
pub open spec fn net_count(sizes: Seq<usize>) -> int {
    count_upto(sizes, sizes.len() - 1)
}

proof fn lemma_count_agree(s1: Seq<usize>, s2: Seq<usize>, j: int)
    requires
        0 <= j < s1.len(),
        j < s2.len(),
        forall|k: int| 0 <= k <= j ==> s1[k] == s2[k],
    ensures
        count_upto(s1, j) == count_upto(s2, j),
    decreases j,
{
    if j > 0 {
        lemma_count_agree(s1, s2, j - 1);
    }
}

proof fn lemma_count_mono(sizes: Seq<usize>, a: int, b: int)
    requires
        0 <= a <= b,
    ensures
        count_upto(sizes, a) <= count_upto(sizes, b),
    decreases b - a,
{
    if a < b {
        lemma_count_mono(sizes, a, b - 1);
        assert((1 + sizes[b - 1]) * sizes[b] >= 0) by (nonlinear_arith)
            requires
                sizes[b - 1] >= 0,
                sizes[b] >= 0,
        ;
    }
}

proof fn lemma_layer_flat_len(l: Seq<NeuronView>, w: int)
    requires
        layer_uniform(l, w),
        0 <= w,
    ensures
        layer_flat(l).len() == l.len() * (1 + w),
    decreases l.len(),
{
    if l.len() == 0 {
    } else {
        lemma_layer_flat_len(l.drop_last(), w);
        assert((l.len() - 1) * (1 + w) + (1 + w) == l.len() * (1 + w)) by (nonlinear_arith);
    }
}

/// The length law of the serialization order: a network of a given topology
/// flattens to exactly `net_count` scalars, the sum of
/// `(1 + input_width) * output_width` over its layers.
pub proof fn lemma_flat_len(n: Seq<Seq<NeuronView>>, sizes: Seq<usize>)
    requires
        net_matches(n, sizes),
    ensures
        net_flat(n).len() == net_count(sizes),
    decreases n.len(),
{
    if n.len() == 0 {
    } else {
        let n2 = n.drop_last();
        let s2 = sizes.drop_last();
        assert(net_matches(n2, s2));
        lemma_flat_len(n2, s2);
        lemma_layer_flat_len(n.last(), sizes[n.len() - 1] as int);
        lemma_count_agree(sizes, s2, sizes.len() - 2);
        assert(n.last().len() * (1 + sizes[n.len() - 1]) == (1 + sizes[n.len() - 1])
            * sizes[n.len() as int]) by (nonlinear_arith)
            requires
                n.last().len() == sizes[n.len() as int],
        ;
    }
}

/// The round-trip law of the serialization pair. A network of a given
/// topology flattens to exactly the scalar count that `from_weights`
/// demands for that topology, so rebuilding from its own flattened
/// weights succeeds; and whatever network that rebuild returns — any
/// network of the same topology with the same flattened weights — is the
/// original network itself.
pub proof fn lemma_weights_round_trip(
    n: Seq<Seq<NeuronView>>,
    rebuilt: Seq<Seq<NeuronView>>,
    sizes: Seq<usize>,
)
    requires
        net_matches(n, sizes),
        net_matches(rebuilt, sizes),
        net_flat(rebuilt) == net_flat(n),
    ensures
        net_flat(n).len() == net_count(sizes),
        rebuilt == n,
{
    lemma_flat_len(n, sizes);
    lemma_flat_inj(n, rebuilt, sizes);
}

/// A network of a given shape is well formed, and each of its layers
/// expects the width that the shape gives it.
pub proof fn lemma_matches_wf(n: Seq<Seq<NeuronView>>, sizes: Seq<usize>)
    requires
        net_matches(n, sizes),
    ensures
        net_wf(n),
        forall|j: int| 0 <= j < n.len() ==> layer_uniform(#[trigger] n[j], sizes[j] as int),
{
    assert forall|i: int| 1 <= i < n.len() implies layer_uniform(
        #[trigger] n[i],
        n[i - 1].len() as int,
    ) by {
        assert(n[i - 1].len() == sizes[i]);
        assert(layer_uniform(n[i], sizes[i] as int));
    }
}

proof fn lemma_split_concat(p1: Seq<i64>, s1: Seq<i64>, p2: Seq<i64>, s2: Seq<i64>)
    requires
        p1 + s1 == p2 + s2,
        p1.len() == p2.len(),
    ensures
        p1 == p2,
        s1 == s2,
{
    assert(p1 =~= p2) by {
        assert(forall|i: int| 0 <= i < p1.len() ==> p1[i] == (p1 + s1)[i] && p2[i] == (p2 + s2)[i]);
    }
    assert((p1 + s1).len() == p1.len() + s1.len());
    assert((p2 + s2).len() == p2.len() + s2.len());
    assert(s1.len() == s2.len());
    assert forall|i: int| 0 <= i < s1.len() implies s1[i] == s2[i] by {
        assert((p1 + s1)[p1.len() + i] == s1[i]);
        assert((p2 + s2)[p2.len() + i] == s2[i]);
    }
    assert(s1 =~= s2);
}

proof fn lemma_layer_flat_inj(a: Seq<NeuronView>, b: Seq<NeuronView>, w: int)
    requires
        layer_uniform(a, w),
        layer_uniform(b, w),
        a.len() == b.len(),
        0 <= w,
        layer_flat(a) == layer_flat(b),
    ensures
        a == b,
    decreases a.len(),
{
    if a.len() == 0 {
        assert(a =~= b);
    } else {
        lemma_layer_flat_len(a.drop_last(), w);
        lemma_layer_flat_len(b.drop_last(), w);
        lemma_split_concat(
            layer_flat(a.drop_last()),
            neuron_flat(a.last()),
            layer_flat(b.drop_last()),
            neuron_flat(b.last()),
        );
        lemma_layer_flat_inj(a.drop_last(), b.drop_last(), w);
        lemma_split_concat(
            seq![a.last().bias],
            a.last().weights,
            seq![b.last().bias],
            b.last().weights,
        );
        assert(a.last().bias == b.last().bias) by {
            assert(seq![a.last().bias][0] == seq![b.last().bias][0]);
        }
        assert(a.last() == b.last());
        assert(a =~= a.drop_last().push(a.last()));
        assert(b =~= b.drop_last().push(b.last()));
    }
}

/// The injectivity law of the serialization order: two networks of the same
/// topology with the same flattened weights are the same network. Together
/// with the exact contracts of `weights` and `from_weights`, this is the
/// round trip: rebuilding a network from its own flattened weights, against
/// its own topology, yields it back unchanged.
pub proof fn lemma_flat_inj(a: Seq<Seq<NeuronView>>, b: Seq<Seq<NeuronView>>, sizes: Seq<usize>)
    requires
        net_matches(a, sizes),
        net_matches(b, sizes),
        net_flat(a) == net_flat(b),
    ensures
        a == b,
    decreases a.len(),
{
    if a.len() == 0 {
        assert(a =~= b);
    } else {
        let ja = a.len() - 1;
        lemma_flat_len(a.drop_last(), sizes.drop_last());
        lemma_flat_len(b.drop_last(), sizes.drop_last());
        lemma_split_concat(net_flat(a.drop_last()), layer_flat(a.last()), net_flat(b.drop_last()), layer_flat(b.last()));
        lemma_flat_inj(a.drop_last(), b.drop_last(), sizes.drop_last());
        lemma_layer_flat_inj(a.last(), b.last(), sizes[ja] as int);
        assert(a =~= a.drop_last().push(a.last()));
        assert(b =~= b.drop_last().push(b.last()));
    }
}

impl Network {
    /// A fresh network of the given topology, all biases and weights drawn
    /// uniformly from `[-1, 1]`. A topology needs at least an input and an
    /// output layer.
    pub fn random(rng: &mut rand_chacha::ChaCha8Rng, topology: &Vec<LayerTopology>) -> (r: Self)
        requires
            topology@.len() >= 2,
        ensures
            net_matches(r@, topo_sizes(topology@)),
            net_in_range(r@),
    {
        let nl = topology.len() - 1;
        let mut layers: Vec<Layer> = Vec::new();
        let mut j: usize = 0;
        while j < nl
            invariant
                j <= nl,
                nl + 1 == topology@.len(),
                layers@.len() == j,
                forall|k: int| 0 <= k < j ==> (#[trigger] layers@[k]@).len()
                    == topology@[k + 1].neurons,
                forall|k: int| 0 <= k < j ==> layer_uniform(
                    #[trigger] layers@[k]@,
                    topology@[k].neurons as int,
                ),
                forall|k: int| 0 <= k < j ==> layer_in_range(#[trigger] layers@[k]@),
            decreases nl - j,
        {
            let l = Layer::random(rng, topology[j].neurons, topology[j + 1].neurons);
            layers.push(l);
            j = j + 1;
        }
        let r = Self { layers };
        proof {
            assert(forall|k: int| 0 <= k < r@.len() ==> #[trigger] r@[k] == r.layers@[k]@);
        }
        r
    }

    /// The network's response: the input vector folded through the layers
    /// in order.
    pub fn propagate(&self, inputs: Vec<i64>) -> (r: Vec<i64>)
        requires
            self@.len() >= 1,
            net_wf(self@),
            layer_uniform(self@[0], inputs@.len() as int),
        ensures
            r@ == net_out_s(self@, inputs@),
            r@.len() == self@[self@.len() - 1].len(),
    {
        let ghost inp0 = inputs@;
        let n = self.layers.len();
        let mut cur = inputs;
        let mut i: usize = 0;
        proof {
            assert(self@.skip(0) =~= self@);
        }
        while i < n
            invariant
                i <= n,
                n == self.layers@.len(),
                n == self@.len(),
                n >= 1,
                net_wf(self@),
                i < n ==> layer_uniform(self@[i as int], cur@.len() as int),
                i >= 1 ==> cur@.len() == self@[i - 1].len(),
                net_out_s(self@.skip(i as int), cur@) == net_out_s(self@, inp0),
            decreases n - i,
        {
            proof {
                assert(self@[i as int] == self.layers@[i as int]@);
                assert(self@.skip(i as int)[0] == self@[i as int]);
                assert(self@.skip(i as int).drop_first() =~= self@.skip(i + 1));
            }
            let next = self.layers[i].propagate(&cur);
            cur = next;
            i = i + 1;
        }
        proof {
            assert(self@.skip(n as int) =~= Seq::<Seq<NeuronView>>::empty());
        }
        cur
    }

    /// The canonical serialization: layers in order, within each layer its
    /// neurons in order, each neuron's bias first and then its weights.
    #[verifier::loop_isolation(false)]
    pub fn weights(&self) -> (r: Vec<i64>)
        ensures
            r@ == net_flat(self@),
    {
        let mut out: Vec<i64> = Vec::new();
        let nl = self.layers.len();
        let mut i: usize = 0;
        proof {
            assert(self@.take(0) =~= Seq::<Seq<NeuronView>>::empty());
        }
        while i < nl
            invariant
                i <= nl,
                out@ == net_flat(self@.take(i as int)),
            decreases nl - i,
        {
            let l = &self.layers[i];
            let ghost lv = self@[i as int];
            proof {
                assert(lv == l@);
                assert(lv.take(0) =~= Seq::<NeuronView>::empty());
                assert(out@ =~= net_flat(self@.take(i as int)) + layer_flat(lv.take(0)));
            }
            let nn = l.num_neurons();
            let mut k: usize = 0;
            while k < nn
                invariant
                    k <= nn,
                    nn == lv.len(),
                    out@ == net_flat(self@.take(i as int)) + layer_flat(lv.take(k as int)),
                decreases nn - k,
            {
                let nrn = l.neuron(k);
                out.push(nrn.bias());
                let wsv = nrn.weights();
                let nw = wsv.len();
                let mut w: usize = 0;
                proof {
                    assert(lv[k as int].weights.take(0) =~= Seq::<i64>::empty());
                    assert(out@ =~= net_flat(self@.take(i as int)) + layer_flat(lv.take(k as int))
                        + seq![lv[k as int].bias] + lv[k as int].weights.take(0));
                }
                while w < nw
                    invariant
                        w <= nw,
                        nw == lv[k as int].weights.len(),
                        k < nn,
                        out@ == net_flat(self@.take(i as int)) + layer_flat(lv.take(k as int))
                            + seq![lv[k as int].bias] + lv[k as int].weights.take(w as int),
                    decreases nw - w,
                {
                    out.push(wsv[w]);
                    proof {
                        assert(lv[k as int].weights.take(w + 1) =~= lv[k as int].weights.take(
                            w as int,
                        ).push(lv[k as int].weights[w as int]));
                        assert(out@ =~= net_flat(self@.take(i as int)) + layer_flat(
                            lv.take(k as int),
                        ) + seq![lv[k as int].bias] + lv[k as int].weights.take(w + 1));
                    }
                    w = w + 1;
                }
                proof {
                    assert(lv[k as int].weights.take(nw as int) =~= lv[k as int].weights);
                    assert(lv.take(k + 1).drop_last() =~= lv.take(k as int));
                    assert(lv.take(k + 1).last() == lv[k as int]);
                    assert(out@ =~= net_flat(self@.take(i as int)) + layer_flat(lv.take(k + 1)));
                }
                k = k + 1;
            }
            proof {
                assert(lv.take(nn as int) =~= lv);
                assert(self@.take(i + 1).drop_last() =~= self@.take(i as int));
                assert(self@.take(i + 1).last() == self@[i as int]);
            }
            i = i + 1;
        }
        proof {
            assert(self@.take(nl as int) =~= self@);
        }
        out
    }

    /// The scalar count the topology calls for, or `None` where it exceeds
    /// the machine's index range.
    #[verifier::loop_isolation(false)]
    fn compute_count(topology: &Vec<LayerTopology>) -> (r: Option<usize>)
        requires
            topology@.len() >= 1,
        ensures
            r matches Some(c) ==> c == net_count(topo_sizes(topology@)),
            r is None ==> net_count(topo_sizes(topology@)) > usize::MAX,
    {
        let ghost sizes = topo_sizes(topology@);
        let nl = topology.len() - 1;
        let mut c: usize = 0;
        let mut j: usize = 0;
        while j < nl
            invariant
                j <= nl,
                c == count_upto(sizes, j as int),
            decreases nl - j,
        {
            let in_sz = topology[j].neurons;
            let out_sz = topology[j + 1].neurons;
            let ghost term = (1 + sizes[j as int]) * sizes[j + 1];
            if out_sz > 0 {
                let per = match in_sz.checked_add(1) {
                    Some(p) => p,
                    None => {
                        proof {
                            assert(term >= (1 + sizes[j as int]) * 1) by (nonlinear_arith)
                                requires
                                    sizes[j + 1] >= 1,
                                    sizes[j as int] + 1 >= 0,
                                    term == (1 + sizes[j as int]) * sizes[j + 1],
                            ;
                            lemma_count_mono(sizes, j + 1, nl as int);
                        }
                        return None;
                    },
                };
                let t = match per.checked_mul(out_sz) {
                    Some(t) => t,
                    None => {
                        proof {
                            lemma_count_mono(sizes, j + 1, nl as int);
                        }
                        return None;
                    },
                };
                let nc = match c.checked_add(t) {
                    Some(x) => x,
                    None => {
                        proof {
                            lemma_count_mono(sizes, j + 1, nl as int);
                        }
                        return None;
                    },
                };
                c = nc;
            } else {
                proof {
                    assert(term == 0) by (nonlinear_arith)
                        requires
                            sizes[j + 1] == 0,
                            term == (1 + sizes[j as int]) * sizes[j + 1],
                    ;
                }
            }
            j = j + 1;
        }
        Some(c)
    }

    /// The inverse of `weights`: rebuild a network of the given topology
    /// from a flat scalar sequence, consuming it in serialization order.
    /// The rebuild succeeds exactly when the topology has at least two
    /// entries and the sequence holds exactly the expected scalar count;
    /// a short or overlong sequence is rejected whole.
    #[verifier::loop_isolation(false)]
    pub fn from_weights(topology: &Vec<LayerTopology>, ws: &Vec<i64>) -> (r: Option<Network>)
        ensures
            r is Some <==> topology@.len() >= 2 && ws@.len() == net_count(topo_sizes(topology@)),
            r matches Some(net) ==> net_matches(net@, topo_sizes(topology@)) && net_flat(net@)
                == ws@,
    {
        if topology.len() < 2 {
            return None;
        }
        let wl = ws.len();
        let total = match Self::compute_count(topology) {
            Some(c) => c,
            None => {
                return None;
            },
        };
        if wl != total {
            return None;
        }
        let ghost sizes = topo_sizes(topology@);
        let nl = topology.len() - 1;
        let mut layers: Vec<Layer> = Vec::new();
        let mut pos: usize = 0;
        let mut j: usize = 0;
        proof {
            assert(layers_view(layers@) =~= Seq::<Seq<NeuronView>>::empty());
            assert(ws@.take(0) =~= Seq::<i64>::empty());
            assert(net_flat(layers_view(layers@)) == ws@.take(0));
        }
        while j < nl
            invariant
                j <= nl,
                pos == count_upto(sizes, j as int),
                pos <= ws@.len(),
                layers@.len() == j,
                forall|k: int| 0 <= k < j ==> (#[trigger] layers@[k]@).len() == sizes[k + 1],
                forall|k: int| 0 <= k < j ==> layer_uniform(
                    #[trigger] layers@[k]@,
                    sizes[k] as int,
                ),
                net_flat(layers_view(layers@)) == ws@.take(pos as int),
            decreases nl - j,
        {
            let in_sz = topology[j].neurons;
            let out_sz = topology[j + 1].neurons;
            let mut neurons: Vec<Neuron> = Vec::new();
            let mut k: usize = 0;
            let ghost flat_before = net_flat(layers_view(layers@));
            let ghost pos0 = pos as int;
            proof {
                assert(neurons_view(neurons@) =~= Seq::<NeuronView>::empty());
                assert(flat_before + layer_flat(neurons_view(neurons@)) =~= ws@.take(pos as int));
            }
            while k < out_sz
                invariant
                    k <= out_sz,
                    neurons@.len() == k,
                    pos0 == count_upto(sizes, j as int),
                    pos == pos0 + k * (1 + in_sz),
                    pos <= ws@.len(),
                    j < nl,
                    in_sz == sizes[j as int],
                    out_sz == sizes[j + 1],
                    forall|nk: int| 0 <= nk < k ==> (#[trigger] neurons@[nk]@).weights.len()
                        == in_sz,
                    flat_before == net_flat(layers_view(layers@)),
                    flat_before + layer_flat(neurons_view(neurons@)) == ws@.take(pos as int),
                decreases out_sz - k,
            {
                proof {
                    assert(count_upto(sizes, j + 1) == pos0 + (1 + in_sz) * out_sz);
                    assert(k * (1 + in_sz) + (1 + in_sz) <= out_sz * (1 + in_sz))
                        by (nonlinear_arith)
                        requires
                            0 <= k < out_sz,
                            0 <= in_sz,
                    ;
                    assert(out_sz * (1 + in_sz) == (1 + in_sz) * out_sz) by (nonlinear_arith);
                    lemma_count_mono(sizes, j + 1, nl as int);
                    assert(pos + 1 + in_sz <= ws@.len());
                }
                let bias = ws[pos];
                let mut wts: Vec<i64> = Vec::new();
                let mut w: usize = 0;
                while w < in_sz
                    invariant
                        w <= in_sz,
                        wts@.len() == w,
                        pos + 1 + in_sz <= ws@.len(),
                        forall|x: int| 0 <= x < w ==> #[trigger] wts@[x] == ws@[pos + 1 + x],
                    decreases in_sz - w,
                {
                    let v = ws[pos + 1 + w];
                    wts.push(v);
                    w = w + 1;
                }
                let nrn = Neuron::new(bias, wts);
                let ghost pre_n = neurons@;
                neurons.push(nrn);
                proof {
                    assert(neuron_flat(nrn@) =~= ws@.subrange(pos as int, pos + 1 + in_sz));
                    assert(neurons@.drop_last() =~= pre_n);
                    assert(neurons_view(neurons@).drop_last() =~= neurons_view(pre_n));
                    assert(neurons_view(neurons@).last() == nrn@);
                    assert(layer_flat(neurons_view(neurons@)) == layer_flat(
                        neurons_view(neurons@).drop_last(),
                    ) + neuron_flat(nrn@));
                    assert(ws@.take(pos as int) + ws@.subrange(pos as int, pos + 1 + in_sz)
                        =~= ws@.take(pos + 1 + in_sz));
                    assert(flat_before + layer_flat(neurons_view(neurons@)) =~= (flat_before
                        + layer_flat(neurons_view(pre_n))) + neuron_flat(nrn@));
                    assert(flat_before + layer_flat(neurons_view(neurons@)) == ws@.take(
                        pos + 1 + in_sz,
                    ));
                    assert((k + 1) * (1 + in_sz) == k * (1 + in_sz) + (1 + in_sz))
                        by (nonlinear_arith);
                }
                pos = pos + 1 + in_sz;
                k = k + 1;
            }
            let layer = Layer::new(neurons);
            let ghost lv = layer@;
            let ghost pre_layers = layers@;
            layers.push(layer);
            proof {
                assert(lv =~= neurons_view(neurons@));
                assert(layer_uniform(lv, in_sz as int));
                assert(layers@.drop_last() =~= pre_layers);
                assert(layers_view(layers@).drop_last() =~= layers_view(pre_layers));
                assert(layers_view(layers@).last() == lv);
                assert(net_flat(layers_view(layers@)) == net_flat(layers_view(layers@).drop_last())
                    + layer_flat(lv));
                assert(net_flat(layers_view(layers@)) == flat_before + layer_flat(
                    neurons_view(neurons@),
                ));
                assert(count_upto(sizes, j + 1) == count_upto(sizes, j as int) + (1 + in_sz)
                    * out_sz);
                assert(out_sz * (1 + in_sz) == (1 + in_sz) * out_sz) by (nonlinear_arith);
                assert(forall|k: int|
                    0 <= k < layers@.len() - 1 ==> layers@[k] == #[trigger] pre_layers[k]);
            }
            j = j + 1;
        }
        let net = Network { layers };
        proof {
            assert(net@ == layers_view(net.layers@));
            assert(net_matches(net@, sizes));
            assert(ws@.take(pos as int) =~= ws@);
        }
        Some(net)
    }
}

/// The mathematical contents of a row of neurons, in order.
pub open spec fn neurons_view(ns: Seq<Neuron>) -> Seq<NeuronView> {
    Seq::new(ns.len(), |i: int| ns[i]@)
}

} // verus!
