//! The ways in which a topology or an input can be malformed.

use vstd::prelude::*;

verus! {

/// A violation that makes a construction or an evaluation impossible.
#[derive(Debug, Clone, Copy, PartialEq, Eq, Structural)]
pub enum ShapeError {
    /// A weight vector whose length is not the declared fan-in.
    WeightCount { expected: usize, found: usize },
    /// A bias vector whose length is not the declared fan-in.
    BiasCount { expected: usize, found: usize },
    /// An input vector whose length is not the fan-in of the node it meets.
    InputLength { expected: usize, found: usize },
    /// A node without incoming connections, whose mean would divide by zero.
    ZeroFanIn,
    /// A network without layers.
    NoLayers,
}

} // verus!
