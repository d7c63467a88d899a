//! A single node: one weight and one bias for each incoming connection.

use crate::numeric::{copy_values, NodeAble};
use crate::shape::ShapeError;
use vstd::prelude::*;

verus! {

/// The mathematical content of a node: its weights and its biases, one of
/// each for every incoming connection.
pub struct NodeView<T> {
    pub weights: Seq<T>,
    pub biases: Seq<T>,
}

impl<T> NodeView<T> {
    /// The number of inputs that the node takes.
    pub open spec fn fan_in(self) -> nat {
        self.weights.len()
    }

    /// Whether the node can be evaluated on an input of `input_len` values:
    /// the length is its fan-in, and the fan-in is not zero.
    pub open spec fn accepts(self, input_len: nat) -> bool {
        self.fan_in() == input_len && input_len > 0
    }

    /// Why the node cannot be evaluated on an input of `input_len` values, if
    /// it cannot. A wrong length is reported before an empty fan-in.
    pub open spec fn fault(self, input_len: nat) -> Option<ShapeError> {
        if self.fan_in() != input_len {
            Some(
                ShapeError::InputLength {
                    expected: self.fan_in() as usize,
                    found: input_len as usize,
                },
            )
        } else if input_len == 0 {
            Some(ShapeError::ZeroFanIn)
        } else {
            None
        }
    }
}

impl<T: NodeAble<T>> NodeView<T> {
    /// Whether the node may have come from a random draw for `fan_in`
    /// connections: it has that many weights and biases, each of them in the
    /// unit interval.
    pub open spec fn drawn_for(self, fan_in: nat) -> bool {
        &&& self.weights.len() == fan_in
        &&& self.biases.len() == fan_in
        &&& all_in_unit_interval(self.weights)
        &&& all_in_unit_interval(self.biases)
    }

    /// The sum of `weight * input + bias` over the first `n` connections,
    /// accumulated from the first connection onward, starting at zero.
    pub open spec fn partial_sum(self, input: Seq<T>, n: nat) -> T
        decreases n,
    {
        if n == 0 {
            T::zero_spec()
        } else {
            self.partial_sum(input, (n - 1) as nat).plus_spec(
                self.weights[n - 1].times_spec(input[n - 1]).plus_spec(self.biases[n - 1]),
            )
        }
    }

    /// The node's output: the sum over all connections, divided by their
    /// number.
    pub open spec fn output(self, input: Seq<T>) -> T {
        self.partial_sum(input, self.fan_in()).divided_by_spec(
            T::from_usize_spec(self.fan_in() as usize),
        )
    }
}

/// The sequence of `count` zeros.
pub open spec fn zeros<T: NodeAble<T>>(count: nat) -> Seq<T> {
    Seq::new(count, |i: int| T::zero_spec())
}

/// Whether every value of `values` lies in the unit interval.
pub open spec fn all_in_unit_interval<T: NodeAble<T>>(values: Seq<T>) -> bool {
    forall|i: int| 0 <= i < values.len() ==> (#[trigger] values[i]).in_unit_interval()
}

/// A vector of `count` zeros.
fn zero_values<T: NodeAble<T>>(count: usize) -> (values: Vec<T>)
    ensures
        values@ == zeros::<T>(count as nat),
{
    let mut values: Vec<T> = Vec::with_capacity(count);
    let mut i: usize = 0;
    while i < count
        invariant
            i <= count,
            values@ == zeros::<T>(i as nat),
        decreases count - i,
    {
        values.push(T::new_zero());
        i += 1;
    }
    values
}

/// A vector of `count` values, each drawn independently.
fn random_values<T: NodeAble<T>>(count: usize) -> (values: Vec<T>)
    ensures
        values@.len() == count,
        all_in_unit_interval(values@),
{
    let mut values: Vec<T> = Vec::with_capacity(count);
    let mut i: usize = 0;
    while i < count
        invariant
            i <= count,
            values@.len() == i,
            all_in_unit_interval(values@),
        decreases count - i,
    {
        values.push(T::get_random());
        i += 1;
    }
    values
}

/// A struct that represents a node in the network.
#[derive(Debug)]
pub struct Node<T> where T: NodeAble<T> {
    /// The weights of the node, one for each node of the previous layer.
    weights: Vec<T>,
    /// The biases of the node, one for each node of the previous layer.
    biases: Vec<T>,
}

impl<T: NodeAble<T>> View for Node<T> {
    type V = NodeView<T>;

    closed spec fn view(&self) -> NodeView<T> {
        NodeView { weights: self.weights@, biases: self.biases@ }
    }
}

impl<T: NodeAble<T>> Clone for Node<T> {
    /// A node with the same weights and biases.
    fn clone(&self) -> (copy: Self)
        ensures
            copy@ == self@,
    {
        proof {
            use_type_invariant(self);
        }
        Self { weights: copy_values(&self.weights), biases: copy_values(&self.biases) }
    }
}

impl<T: NodeAble<T>> Node<T> {
    /// Every node has as many biases as weights.
    #[verifier::type_invariant]
    spec fn well_formed(self) -> bool {
        self.weights@.len() == self.biases@.len()
    }

    /// Creates a node with `capacity` incoming connections. A vector that is
    /// left out is filled with zeros; one that is given must have `capacity`
    /// values.
    pub fn new(
        capacity: usize,
        weights_maybe: Option<Vec<T>>,
        biases_maybe: Option<Vec<T>>,
    ) -> (node: Self)
        requires
            weights_maybe matches Some(weights) ==> weights@.len() == capacity,
            biases_maybe matches Some(biases) ==> biases@.len() == capacity,
        ensures
            node@.fan_in() == capacity,
            node@.biases.len() == capacity,
            node@.weights == match weights_maybe {
                Some(weights) => weights@,
                None => zeros::<T>(capacity as nat),
            },
            node@.biases == match biases_maybe {
                Some(biases) => biases@,
                None => zeros::<T>(capacity as nat),
            },
    {
        let weights = match weights_maybe {
            Some(weights) => weights,
            None => zero_values(capacity),
        };
        let biases = match biases_maybe {
            Some(biases) => biases,
            None => zero_values(capacity),
        };
        Self { weights, biases }
    }

    /// Creates a node as `new` does, and reports a vector of the wrong length
    /// instead of demanding the right one. The weights are looked at first.
    pub fn try_new(
        capacity: usize,
        weights_maybe: Option<Vec<T>>,
        biases_maybe: Option<Vec<T>>,
    ) -> (result: Result<Self, ShapeError>)
        ensures
            match result {
                Ok(node) => {
                    &&& weights_maybe matches Some(weights) ==> weights@.len() == capacity
                    &&& biases_maybe matches Some(biases) ==> biases@.len() == capacity
                    &&& node@.weights == match weights_maybe {
                        Some(weights) => weights@,
                        None => zeros::<T>(capacity as nat),
                    }
                    &&& node@.biases == match biases_maybe {
                        Some(biases) => biases@,
                        None => zeros::<T>(capacity as nat),
                    }
                },
                Err(error) => {
                    if weights_maybe matches Some(weights) && weights@.len() != capacity {
                        error == (ShapeError::WeightCount {
                            expected: capacity,
                            found: weights_maybe->0@.len() as usize,
                        })
                    } else {
                        &&& biases_maybe matches Some(biases)
                        &&& biases@.len() != capacity
                        &&& error == (ShapeError::BiasCount {
                            expected: capacity,
                            found: biases@.len() as usize,
                        })
                    }
                },
            },
    {
        if let Some(weights) = &weights_maybe {
            if weights.len() != capacity {
                return Err(ShapeError::WeightCount { expected: capacity, found: weights.len() });
            }
        }
        if let Some(biases) = &biases_maybe {
            if biases.len() != capacity {
                return Err(ShapeError::BiasCount { expected: capacity, found: biases.len() });
            }
        }
        Ok(Self::new(capacity, weights_maybe, biases_maybe))
    }

    /// Creates a node with `capacity` incoming connections whose weights and
    /// biases are drawn at random from the unit interval.
    pub fn new_random(capacity: usize) -> (node: Self)
        ensures
            node@.drawn_for(capacity as nat),
    {
        let weights: Vec<T> = random_values(capacity);
        let biases: Vec<T> = random_values(capacity);
        Self { weights, biases }
    }

    /// The number of inputs that the node takes, which is the number of its
    /// weights and the number of its biases.
    pub fn fan_in(&self) -> (count: usize)
        ensures
            count == self@.fan_in(),
            count == self@.weights.len(),
            count == self@.biases.len(),
    {
        proof {
            use_type_invariant(self);
        }
        self.weights.len()
    }

    /// The weights, in the order of the incoming connections.
    pub fn weights(&self) -> (weights: &Vec<T>)
        ensures
            weights@ == self@.weights,
    {
        &self.weights
    }

    /// The biases, in the order of the incoming connections.
    pub fn biases(&self) -> (biases: &Vec<T>)
        ensures
            biases@ == self@.biases,
    {
        &self.biases
    }

    /// Evaluates the node on `input`: the mean, over the incoming
    /// connections, of `weight * input + bias`.
    pub fn evalute(&self, input: &Vec<T>) -> (output: T)
        requires
            self@.accepts(input@.len()),
        ensures
            output == self@.output(input@),
    {
        proof {
            use_type_invariant(self);
        }
        let mut output = T::new_zero();
        let output_count = input.len();
        let mut i: usize = 0;
        while i < output_count
            invariant
                i <= output_count,
                output_count == input@.len(),
                output_count == self.weights@.len(),
                output_count == self.biases@.len(),
                output == self@.partial_sum(input@, i as nat),
            decreases output_count - i,
        {
            output.plus_assign(self.weights[i].times(input[i]).plus(self.biases[i]));
            i += 1;
        }
        output.divided_by(T::from_usize(output_count))
    }

    /// Tells whether the node can be evaluated on an input of `input_len`
    /// values, and why not if it cannot.
    pub fn check_input(&self, input_len: usize) -> (result: Result<(), ShapeError>)
        ensures
            result == match self@.fault(input_len as nat) {
                Some(error) => Err::<(), ShapeError>(error),
                None => Ok(()),
            },
            result is Ok <==> self@.accepts(input_len as nat),
    {
        let fan_in = self.fan_in();
        if input_len != fan_in {
            Err(ShapeError::InputLength { expected: fan_in, found: input_len })
        } else if fan_in == 0 {
            Err(ShapeError::ZeroFanIn)
        } else {
            Ok(())
        }
    }

    /// Evaluates the node as `evalute` does, and reports an input that the
    /// node cannot take instead of demanding a fitting one.
    pub fn try_evalute(&self, input: &Vec<T>) -> (result: Result<T, ShapeError>)
        ensures
            result == match self@.fault(input@.len()) {
                Some(error) => Err(error),
                None => Ok(self@.output(input@)),
            },
    {
        match self.check_input(input.len()) {
            Err(error) => Err(error),
            Ok(()) => Ok(self.evalute(input)),
        }
    }
}

} // verus!
