//! A layer: nodes that read the same input, one output value each.

use crate::node::{Node, NodeView};
use crate::numeric::NodeAble;
use crate::shape::ShapeError;
use vstd::prelude::*;

verus! {

/// Whether every node of `layer` can be evaluated on an input of `input_len`
/// values.
pub open spec fn layer_accepts<T>(layer: Seq<NodeView<T>>, input_len: nat) -> bool {
    forall|j: int| 0 <= j < layer.len() ==> (#[trigger] layer[j]).accepts(input_len)
}

/// The fault of the first node, among the first `upto` of `layer`, that cannot
/// be evaluated on an input of `input_len` values.
pub open spec fn layer_fault_within<T>(
    layer: Seq<NodeView<T>>,
    input_len: nat,
    upto: nat,
) -> Option<ShapeError>
    decreases upto,
{
    if upto == 0 {
        None
    } else {
        match layer_fault_within(layer, input_len, (upto - 1) as nat) {
            Some(error) => Some(error),
            None => layer[upto - 1].fault(input_len),
        }
    }
}

/// The fault of the first node of `layer` that cannot be evaluated on an input
/// of `input_len` values.
pub open spec fn layer_fault<T>(layer: Seq<NodeView<T>>, input_len: nat) -> Option<ShapeError> {
    layer_fault_within(layer, input_len, layer.len())
}

/// The output of `layer` on `input`: the output of each node, in the order of
/// the nodes.
pub open spec fn layer_output<T: NodeAble<T>>(layer: Seq<NodeView<T>>, input: Seq<T>) -> Seq<T> {
    Seq::new(layer.len(), |j: int| layer[j].output(input))
}

/// Whether `layer` may have come from a random draw of `capacity` nodes for
/// `previous_node_count` inputs.
pub open spec fn layer_drawn_for<T: NodeAble<T>>(
    layer: Seq<NodeView<T>>,
    previous_node_count: nat,
    capacity: nat,
) -> bool {
    &&& layer.len() == capacity
    &&& forall|j: int| 0 <= j < layer.len() ==> (#[trigger] layer[j]).drawn_for(previous_node_count)
}

/// A fault that was found among the first `found_at` nodes is the fault among
/// any larger number of them.
pub proof fn lemma_layer_fault_persists<T>(
    layer: Seq<NodeView<T>>,
    input_len: nat,
    found_at: nat,
    upto: nat,
)
    requires
        found_at <= upto,
        layer_fault_within(layer, input_len, found_at) is Some,
    ensures
        layer_fault_within(layer, input_len, upto) == layer_fault_within(layer, input_len, found_at),
    decreases upto,
{
    if found_at < upto {
        lemma_layer_fault_persists(layer, input_len, found_at, (upto - 1) as nat);
    }
}

/// No fault among the first `upto` nodes means that each of them accepts the
/// input length, and the other way round.
pub proof fn lemma_layer_fault_within_none<T>(layer: Seq<NodeView<T>>, input_len: nat, upto: nat)
    requires
        upto <= layer.len(),
    ensures
        layer_fault_within(layer, input_len, upto) is None <==> forall|j: int|
            0 <= j < upto ==> (#[trigger] layer[j]).accepts(input_len),
    decreases upto,
{
    if upto > 0 {
        lemma_layer_fault_within_none(layer, input_len, (upto - 1) as nat);
        if layer_fault_within(layer, input_len, (upto - 1) as nat) is None {
            assert(layer[upto - 1].fault(input_len) is None <==> layer[upto - 1].accepts(input_len));
        }
    }
}

/// A layer has no fault for an input length exactly when it accepts it.
pub proof fn lemma_layer_fault_none_iff_accepts<T>(layer: Seq<NodeView<T>>, input_len: nat)
    ensures
        layer_fault(layer, input_len) is None <==> layer_accepts(layer, input_len),
{
    lemma_layer_fault_within_none(layer, input_len, layer.len());
}

/// A layer with a node whose fan-in is not the input length has a fault for
/// that length, and so does not accept it.
pub proof fn lemma_length_mismatch_rejected<T>(layer: Seq<NodeView<T>>, input_len: nat, j: int)
    requires
        0 <= j < layer.len(),
        layer[j].fan_in() != input_len,
    ensures
        layer[j].fault(input_len) is Some,
        layer_fault(layer, input_len) is Some,
        !layer_accepts(layer, input_len),
{
    assert(!layer[j].accepts(input_len));
    lemma_layer_fault_none_iff_accepts(layer, input_len);
}

/// A layer that was drawn for a nonzero number of inputs accepts that number.
pub proof fn lemma_drawn_layer_accepts<T: NodeAble<T>>(
    layer: Seq<NodeView<T>>,
    previous_node_count: nat,
    capacity: nat,
)
    requires
        layer_drawn_for(layer, previous_node_count, capacity),
        previous_node_count > 0,
    ensures
        layer_accepts(layer, previous_node_count),
{
    assert forall|j: int| 0 <= j < layer.len() implies (#[trigger] layer[j]).accepts(
        previous_node_count,
    ) by {
        assert(layer[j].drawn_for(previous_node_count));
    }
}

/// A struct that represents a layer of nodes.
#[derive(Debug)]
pub struct NodeLayer<T> where T: NodeAble<T> {
    /// All the nodes on the layer.
    pub nodes: Vec<Node<T>>,
}

impl<T: NodeAble<T>> View for NodeLayer<T> {
    type V = Seq<NodeView<T>>;

    open spec fn view(&self) -> Seq<NodeView<T>> {
        Seq::new(self.nodes@.len(), |j: int| self.nodes@[j]@)
    }
}

impl<T: NodeAble<T>> Clone for NodeLayer<T> {
    /// A layer with the same nodes in the same order.
    fn clone(&self) -> (copy: Self)
        ensures
            copy@ == self@,
    {
        let mut nodes: Vec<Node<T>> = Vec::with_capacity(self.nodes.len());
        let mut j: usize = 0;
        while j < self.nodes.len()
            invariant
                j <= self.nodes@.len(),
                nodes@.len() == j,
                forall|k: int| 0 <= k < j ==> (#[trigger] nodes@[k])@ == self.nodes@[k]@,
            decreases self.nodes@.len() - j,
        {
            nodes.push(self.nodes[j].clone());
            j += 1;
        }
        let copy = Self { nodes };
        assert(copy@ =~= self@);
        copy
    }
}

impl<T: NodeAble<T>> NodeLayer<T> {
    /// Creates a layer from a vector of nodes.
    pub fn new_from_nodes(nodes: Vec<Node<T>>) -> (layer: Self)
        ensures
            layer.nodes == nodes,
    {
        Self { nodes }
    }

    /// Creates a layer of `capacity` nodes, each with `previous_node_count`
    /// incoming connections and with weights and biases drawn at random.
    pub fn new_random(previous_node_count: usize, capacity: usize) -> (layer: Self)
        ensures
            layer_drawn_for(layer@, previous_node_count as nat, capacity as nat),
            previous_node_count > 0 ==> layer_accepts(layer@, previous_node_count as nat),
    {
        let mut nodes: Vec<Node<T>> = Vec::with_capacity(capacity);
        let mut j: usize = 0;
        while j < capacity
            invariant
                j <= capacity,
                nodes@.len() == j,
                forall|k: int|
                    0 <= k < j ==> (#[trigger] nodes@[k])@.drawn_for(previous_node_count as nat),
            decreases capacity - j,
        {
            nodes.push(Node::new_random(previous_node_count));
            j += 1;
        }
        let layer = Self { nodes };
        proof {
            if previous_node_count > 0 {
                lemma_drawn_layer_accepts(layer@, previous_node_count as nat, capacity as nat);
            }
        }
        layer
    }

    /// Evaluates every node of the layer on `input` and collects the results
    /// in the order of the nodes.
    pub fn evaluate(&self, input: &Vec<T>) -> (output: Vec<T>)
        requires
            layer_accepts(self@, input@.len()),
        ensures
            output@ == layer_output(self@, input@),
            output@.len() == self.nodes@.len(),
    {
        let mut output: Vec<T> = Vec::with_capacity(self.nodes.len());
        let mut j: usize = 0;
        while j < self.nodes.len()
            invariant
                j <= self.nodes@.len(),
                layer_accepts(self@, input@.len()),
                output@.len() == j,
                forall|k: int| 0 <= k < j ==> output@[k] == (#[trigger] self@[k]).output(input@),
            decreases self.nodes@.len() - j,
        {
            assert(self@[j as int].accepts(input@.len()));
            output.push(self.nodes[j].evalute(input));
            j += 1;
        }
        assert(output@ =~= layer_output(self@, input@));
        output
    }

    /// Tells whether the layer can be evaluated on an input of `input_len`
    /// values, and if not, what is wrong with the first node that cannot.
    pub fn check_input(&self, input_len: usize) -> (result: Result<(), ShapeError>)
        ensures
            result == match layer_fault(self@, input_len as nat) {
                Some(error) => Err::<(), ShapeError>(error),
                None => Ok(()),
            },
            result is Ok <==> layer_accepts(self@, input_len as nat),
    {
        let mut j: usize = 0;
        while j < self.nodes.len()
            invariant
                j <= self.nodes@.len(),
                layer_fault_within(self@, input_len as nat, j as nat) is None,
            decreases self.nodes@.len() - j,
        {
            match self.nodes[j].check_input(input_len) {
                Err(error) => {
                    proof {
                        assert(self@[j as int] == self.nodes@[j as int]@);
                        assert(layer_fault_within(self@, input_len as nat, (j + 1) as nat) == Some(
                            error,
                        ));
                        lemma_layer_fault_persists(
                            self@,
                            input_len as nat,
                            (j + 1) as nat,
                            self@.len(),
                        );
                        lemma_layer_fault_none_iff_accepts(self@, input_len as nat);
                    }
                    return Err(error);
                },
                Ok(()) => {
                    assert(self@[j as int] == self.nodes@[j as int]@);
                },
            }
            j += 1;
        }
        proof {
            lemma_layer_fault_none_iff_accepts(self@, input_len as nat);
        }
        Ok(())
    }

    /// Evaluates the layer as `evaluate` does, and reports an input that some
    /// node cannot take instead of demanding a fitting one.
    pub fn try_evaluate(&self, input: &Vec<T>) -> (result: Result<Vec<T>, ShapeError>)
        ensures
            match layer_fault(self@, input@.len()) {
                Some(error) => result == Err::<Vec<T>, ShapeError>(error),
                None => result matches Ok(output) && output@ == layer_output(self@, input@),
            },
    {
        match self.check_input(input.len()) {
            Err(error) => Err(error),
            Ok(()) => Ok(self.evaluate(input)),
        }
    }
}

} // verus!
