//! A holder for data points: inputs paired with the outputs expected of them.

use crate::network::{InputLayer, OutputLayer};
use crate::numeric::NodeAble;
use vstd::prelude::*;

verus! {

/// The mathematical content of a list of data points: for each point, the
/// input values and the output values.
pub open spec fn datapoints_view<T, O>(datapoints: Seq<(Vec<T>, Vec<O>)>) -> Seq<(Seq<T>, Seq<O>)> {
    Seq::new(datapoints.len(), |i: int| (datapoints[i].0@, datapoints[i].1@))
}

/// This struct represents a dataset of inputs and the outputs that belong to
/// them.
pub struct NumberDataSet<T, O> where T: NodeAble<T>, O: NodeAble<O> {
    /// The data points, each an input and its output.
    datapoints: Vec<(InputLayer<T>, OutputLayer<O>)>,
}

impl<T: NodeAble<T>, O: NodeAble<O>> View for NumberDataSet<T, O> {
    type V = Seq<(Seq<T>, Seq<O>)>;

    closed spec fn view(&self) -> Seq<(Seq<T>, Seq<O>)> {
        datapoints_view(self.datapoints@)
    }
}

impl<T: NodeAble<T>, O: NodeAble<O>> NumberDataSet<T, O> {
    /// Creates a dataset that holds `datapoints` in the order given.
    pub fn new(datapoints: Vec<(InputLayer<T>, OutputLayer<O>)>) -> (set: Self)
        ensures
            set@ == datapoints_view(datapoints@),
    {
        Self { datapoints }
    }

    /// The data points, in the order in which they were given.
    pub fn datapoints(&self) -> (datapoints: &Vec<(InputLayer<T>, OutputLayer<O>)>)
        ensures
            datapoints_view(datapoints@) == self@,
    {
        &self.datapoints
    }
}

} // verus!
