//! The whole network: an input vector and the layers it passes through.

use crate::layer::{
    layer_accepts, layer_drawn_for, layer_fault, layer_output, lemma_drawn_layer_accepts,
    lemma_layer_fault_none_iff_accepts, NodeLayer,
};
use crate::node::NodeView;
use crate::numeric::{copy_values, NodeAble};
use crate::shape::ShapeError;
use vstd::prelude::*;

verus! {

/// A type representing a layer of input nodes.
pub type InputLayer<T> = Vec<T>;

/// A type representing a layer of output nodes.
pub type OutputLayer<T> = Vec<T>;

/// The mathematical content of a network: its input values and, layer by
/// layer from the input onward, the content of its nodes.
pub struct NetworkView<T> {
    pub input: Seq<T>,
    pub layers: Seq<Seq<NodeView<T>>>,
}

impl<T> NetworkView<T> {
    /// The number of values that layer `index` reads: the length of the input
    /// for the first layer, the node count of the layer before for the others.
    pub open spec fn input_len_of(self, index: int) -> nat {
        if index <= 0 {
            self.input.len()
        } else {
            self.layers[index - 1].len()
        }
    }

    /// Whether the network can be evaluated: it has a layer, and every layer
    /// accepts what the stage before it hands over.
    pub open spec fn valid(self) -> bool {
        &&& self.layers.len() >= 1
        &&& forall|i: int|
            0 <= i < self.layers.len() ==> layer_accepts(
                #[trigger] self.layers[i],
                self.input_len_of(i),
            )
    }

    /// The fault of the first layer, among the first `upto`, that cannot take
    /// what the stage before it hands over.
    pub open spec fn fault_within(self, upto: nat) -> Option<ShapeError>
        decreases upto,
    {
        if upto == 0 {
            None
        } else {
            match self.fault_within((upto - 1) as nat) {
                Some(error) => Some(error),
                None => layer_fault(self.layers[upto - 1], self.input_len_of(upto - 1)),
            }
        }
    }

    /// Why the network cannot be evaluated, if it cannot: it has no layer, or
    /// else the fault of its first layer that has one.
    pub open spec fn fault(self) -> Option<ShapeError> {
        if self.layers.len() == 0 {
            Some(ShapeError::NoLayers)
        } else {
            self.fault_within(self.layers.len())
        }
    }

    /// A fault that was found among the first `found_at` layers is the fault
    /// among any larger number of them.
    pub proof fn lemma_fault_persists(self, found_at: nat, upto: nat)
        requires
            found_at <= upto,
            self.fault_within(found_at) is Some,
        ensures
            self.fault_within(upto) == self.fault_within(found_at),
        decreases upto,
    {
        if found_at < upto {
            self.lemma_fault_persists(found_at, (upto - 1) as nat);
        }
    }

    /// No fault among the first `upto` layers means that each of them accepts
    /// what it is handed, and the other way round.
    pub proof fn lemma_fault_within_none(self, upto: nat)
        requires
            upto <= self.layers.len(),
        ensures
            self.fault_within(upto) is None <==> forall|i: int|
                0 <= i < upto ==> layer_accepts(#[trigger] self.layers[i], self.input_len_of(i)),
        decreases upto,
    {
        if upto > 0 {
            self.lemma_fault_within_none((upto - 1) as nat);
            lemma_layer_fault_none_iff_accepts(self.layers[upto - 1], self.input_len_of(upto - 1));
        }
    }

    /// A network has no fault exactly when it is valid.
    pub proof fn lemma_fault_none_iff_valid(self)
        ensures
            self.fault() is None <==> self.valid(),
    {
        self.lemma_fault_within_none(self.layers.len());
    }

    /// A network without layers is never valid: its fault says so.
    pub proof fn lemma_no_layers_rejected(self)
        requires
            self.layers.len() == 0,
        ensures
            self.fault() == Some(ShapeError::NoLayers),
            !self.valid(),
    {
    }
}

impl<T: NodeAble<T>> NetworkView<T> {
    /// What the first `count` layers make of the input: the input itself for
    /// no layer, else the output of layer `count - 1` on what the layers
    /// before it produced.
    pub open spec fn output_after(self, count: nat) -> Seq<T>
        decreases count,
    {
        if count == 0 {
            self.input
        } else {
            layer_output(self.layers[count - 1], self.output_after((count - 1) as nat))
        }
    }

    /// The output of the network: what all its layers make of the input.
    pub open spec fn output(self) -> Seq<T> {
        self.output_after(self.layers.len())
    }

    /// Whether the network may have come from a random draw over `input`:
    /// it keeps the input, has `layer_count` layers of `node_count` nodes,
    /// the first drawn for the input's length, the others for `node_count`.
    pub open spec fn drawn_for(self, input: Seq<T>, layer_count: nat, node_count: nat) -> bool {
        &&& self.input == input
        &&& self.layers.len() == layer_count
        &&& forall|i: int|
            0 <= i < self.layers.len() ==> layer_drawn_for(
                #[trigger] self.layers[i],
                if i == 0 {
                    input.len()
                } else {
                    node_count
                },
                node_count,
            )
    }

    /// Each stage hands over as many values as the next layer reads.
    pub proof fn lemma_output_after_len(self, count: nat)
        requires
            count <= self.layers.len(),
        ensures
            self.output_after(count).len() == self.input_len_of(count as int),
        decreases count,
    {
        if count > 0 {
            self.lemma_output_after_len((count - 1) as nat);
        }
    }

    /// The output of a network with a layer has one value for each node of
    /// its last layer.
    pub proof fn lemma_output_len(self)
        requires
            self.layers.len() >= 1,
        ensures
            self.output().len() == self.layers.last().len(),
    {
        self.lemma_output_after_len(self.layers.len());
    }

    /// A drawn network is valid when it has a layer, its input is not empty
    /// and, if it has more than one layer, its layers are not empty.
    pub proof fn lemma_drawn_network_valid(self, input: Seq<T>, layer_count: nat, node_count: nat)
        requires
            self.drawn_for(input, layer_count, node_count),
            layer_count >= 1,
            input.len() > 0,
            layer_count == 1 || node_count > 0,
        ensures
            self.valid(),
    {
        assert forall|i: int| 0 <= i < self.layers.len() implies layer_accepts(
            #[trigger] self.layers[i],
            self.input_len_of(i),
        ) by {
            if i == 0 {
                lemma_drawn_layer_accepts(self.layers[i], input.len(), node_count);
            } else {
                assert(layer_drawn_for(self.layers[i - 1], if i - 1 == 0 {
                    input.len()
                } else {
                    node_count
                }, node_count));
                lemma_drawn_layer_accepts(self.layers[i], node_count, node_count);
            }
        }
    }

    /// The output depends on nothing but the input values, the weights and
    /// the biases: two networks that agree on each of them, value by value,
    /// have the same output.
    pub proof fn lemma_output_deterministic(self, other: Self)
        requires
            self.input.len() == other.input.len(),
            forall|k: int| 0 <= k < self.input.len() ==> self.input[k] == other.input[k],
            self.layers.len() == other.layers.len(),
            forall|i: int|
                0 <= i < self.layers.len() ==> (#[trigger] self.layers[i]).len()
                    == other.layers[i].len(),
            forall|i: int, j: int|
                0 <= i < self.layers.len() && 0 <= j < self.layers[i].len() ==> {
                    let mine = #[trigger] self.layers[i][j];
                    let theirs = other.layers[i][j];
                    &&& mine.weights.len() == theirs.weights.len()
                    &&& mine.biases.len() == theirs.biases.len()
                    &&& forall|k: int|
                        0 <= k < mine.weights.len() ==> mine.weights[k] == theirs.weights[k]
                    &&& forall|k: int|
                        0 <= k < mine.biases.len() ==> mine.biases[k] == theirs.biases[k]
                },
        ensures
            self.output() == other.output(),
    {
        assert(self.input =~= other.input);
        assert forall|i: int| 0 <= i < self.layers.len() implies self.layers[i]
            == other.layers[i] by {
            assert forall|j: int| 0 <= j < self.layers[i].len() implies self.layers[i][j]
                == other.layers[i][j] by {
                let mine = self.layers[i][j];
                let theirs = other.layers[i][j];
                assert(mine.weights =~= theirs.weights);
                assert(mine.biases =~= theirs.biases);
            }
            assert(self.layers[i] =~= other.layers[i]);
        }
        assert(self.layers =~= other.layers);
    }
}

/// A struct representing an entire network.
/// This struct holds both an input layer and multiple evaluation layers.
pub struct LayerList<T> where T: NodeAble<T> {
    /// This is the input layer that gets fed into the network.
    pub input_layer: InputLayer<T>,
    /// These are the inner layers or "hidden layers" that make up the network.
    pub layers: Vec<NodeLayer<T>>,
}

impl<T: NodeAble<T>> View for LayerList<T> {
    type V = NetworkView<T>;

    open spec fn view(&self) -> NetworkView<T> {
        NetworkView {
            input: self.input_layer@,
            layers: Seq::new(self.layers@.len(), |i: int| self.layers@[i]@),
        }
    }
}

impl<T: NodeAble<T>> LayerList<T> {
    /// Creates a network from its input and its layers, as they are.
    pub fn new(input_layer: InputLayer<T>, layers: Vec<NodeLayer<T>>) -> (network: Self)
        ensures
            network.input_layer == input_layer,
            network.layers == layers,
    {
        Self { input_layer, layers }
    }

    /// Creates a network over `input_layer` with `amnt_of_layers` layers of
    /// `node_count` nodes each, all weights and biases drawn at random.
    pub fn new_random(
        input_layer: InputLayer<T>,
        amnt_of_layers: usize,
        node_count: usize,
    ) -> (network: Self)
        requires
            amnt_of_layers != 0,
        ensures
            network@.drawn_for(input_layer@, amnt_of_layers as nat, node_count as nat),
            input_layer@.len() > 0 && (amnt_of_layers == 1 || node_count > 0) ==> network@.valid(),
    {
        let input_len = input_layer.len();
        let mut this = Self { input_layer, layers: Vec::with_capacity(amnt_of_layers) };
        this.push(NodeLayer::new_random(input_len, node_count));
        let mut i: usize = 1;
        while i < amnt_of_layers
            invariant
                1 <= i <= amnt_of_layers,
                input_len == input_layer@.len(),
                this@.drawn_for(input_layer@, i as nat, node_count as nat),
            decreases amnt_of_layers - i,
        {
            let ghost before = this@;
            this.push(NodeLayer::new_random(node_count, node_count));
            proof {
                assert forall|k: int| 0 <= k < this@.layers.len() implies layer_drawn_for(
                    #[trigger] this@.layers[k],
                    if k == 0 {
                        input_layer@.len()
                    } else {
                        node_count as nat
                    },
                    node_count as nat,
                ) by {
                    if k < i {
                        assert(this@.layers[k] == before.layers[k]);
                    }
                }
            }
            i += 1;
        }
        proof {
            if input_layer@.len() > 0 && (amnt_of_layers == 1 || node_count > 0) {
                this@.lemma_drawn_network_valid(
                    input_layer@,
                    amnt_of_layers as nat,
                    node_count as nat,
                );
            }
        }
        this
    }

    /// Creates a network as `new_random` does, and reports a layer count of
    /// zero instead of demanding another.
    pub fn try_new_random(
        input_layer: InputLayer<T>,
        amnt_of_layers: usize,
        node_count: usize,
    ) -> (result: Result<Self, ShapeError>)
        ensures
            result is Err <==> amnt_of_layers == 0,
            result matches Err(error) ==> error == ShapeError::NoLayers,
            result matches Ok(network) ==> {
                &&& network@.drawn_for(input_layer@, amnt_of_layers as nat, node_count as nat)
                &&& input_layer@.len() > 0 && (amnt_of_layers == 1 || node_count > 0)
                    ==> network@.valid()
            },
    {
        if amnt_of_layers == 0 {
            Err(ShapeError::NoLayers)
        } else {
            Ok(Self::new_random(input_layer, amnt_of_layers, node_count))
        }
    }

    /// Adds a layer behind the layers that are there.
    pub fn push(&mut self, value: NodeLayer<T>)
        ensures
            final(self).input_layer == old(self).input_layer,
            final(self).layers@ == old(self).layers@.push(value),
            final(self)@.input == old(self)@.input,
            final(self)@.layers == old(self)@.layers.push(value@),
    {
        self.layers.push(value);
        assert(self@.layers =~= old(self)@.layers.push(value@));
    }

    /// Tells whether the network can be evaluated, and if not, what is wrong
    /// with the first layer that cannot take what it is handed.
    pub fn check(&self) -> (result: Result<(), ShapeError>)
        ensures
            result == match self@.fault() {
                Some(error) => Err::<(), ShapeError>(error),
                None => Ok(()),
            },
            result is Ok <==> self@.valid(),
    {
        proof {
            self@.lemma_fault_none_iff_valid();
        }
        if self.layers.len() == 0 {
            return Err(ShapeError::NoLayers);
        }
        let mut expected: usize = self.input_layer.len();
        let mut i: usize = 0;
        while i < self.layers.len()
            invariant
                i <= self.layers@.len(),
                expected == self@.input_len_of(i as int),
                self@.fault_within(i as nat) is None,
            decreases self.layers@.len() - i,
        {
            match self.layers[i].check_input(expected) {
                Err(error) => {
                    proof {
                        assert(self@.fault_within((i + 1) as nat) == Some(error));
                        self@.lemma_fault_persists((i + 1) as nat, self@.layers.len());
                    }
                    return Err(error);
                },
                Ok(()) => {},
            }
            expected = self.layers[i].nodes.len();
            i += 1;
        }
        Ok(())
    }

    /// Evaluates the network: the input goes through the layers in order,
    /// each layer reading what the one before it produced.
    pub fn evaluate(&self) -> (output: OutputLayer<T>)
        requires
            self@.valid(),
        ensures
            output@ == self@.output(),
            output@.len() == self@.layers.last().len(),
    {
        let mut tmp_values = copy_values(&self.input_layer);
        let mut i: usize = 0;
        while i < self.layers.len()
            invariant
                i <= self.layers@.len(),
                self@.valid(),
                tmp_values@ == self@.output_after(i as nat),
                tmp_values@.len() == self@.input_len_of(i as int),
            decreases self.layers@.len() - i,
        {
            assert(layer_accepts(self@.layers[i as int], self@.input_len_of(i as int)));
            tmp_values = self.layers[i].evaluate(&tmp_values);
            i += 1;
        }
        tmp_values
    }

    /// Evaluates the network as `evaluate` does, and reports a malformed
    /// topology instead of demanding a valid one.
    pub fn try_evaluate(&self) -> (result: Result<OutputLayer<T>, ShapeError>)
        ensures
            match self@.fault() {
                Some(error) => result == Err::<OutputLayer<T>, ShapeError>(error),
                None => result matches Ok(output) && output@ == self@.output(),
            },
    {
        match self.check() {
            Err(error) => Err(error),
            Ok(()) => Ok(self.evaluate()),
        }
    }
}

} // verus!
