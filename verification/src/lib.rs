//! A feed-forward network evaluator, generic over its scalar type.
//!
//! A [`node::Node`] averages `weight * input + bias` over its incoming
//! connections, a [`layer::NodeLayer`] evaluates its nodes side by side, and a
//! [`network::LayerList`] feeds an input vector through its layers in order.
//! Every contract is stated over the views of these types and over the model
//! functions of [`numeric::NodeAble`].

pub mod dataset;
pub mod layer;
pub mod network;
pub mod node;
pub mod numeric;
pub mod shape;
