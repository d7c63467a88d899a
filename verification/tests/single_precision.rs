use feedforward::layer::NodeLayer;
use feedforward::network::LayerList;
use feedforward::node::Node;
use feedforward::numeric::NodeAble;
use feedforward::shape::ShapeError;
use rand::Rng;

/// A 32-bit float as the scalar of the engine.
#[derive(Clone, Copy, Debug, PartialEq)]
struct Single(f32);

impl NodeAble<Single> for Single {
    fn plus_spec(self, rhs: Self) -> Self {
        Single(self.0 + rhs.0)
    }

    fn minus_spec(self, rhs: Self) -> Self {
        Single(self.0 - rhs.0)
    }

    fn times_spec(self, rhs: Self) -> Self {
        Single(self.0 * rhs.0)
    }

    fn divided_by_spec(self, rhs: Self) -> Self {
        Single(self.0 / rhs.0)
    }

    fn zero_spec() -> Self {
        Single(0.0)
    }

    fn from_usize_spec(n: usize) -> Self {
        Single(n as f32)
    }

    fn in_unit_interval(self) -> bool {
        0.0 <= self.0 && self.0 < 1.0
    }

    fn get_random() -> Self {
        Single(rand::thread_rng().gen_range(0.0..1.0))
    }

    fn from_usize(n: usize) -> Self {
        Single(n as f32)
    }

    fn new_zero() -> Self {
        Single(0.0)
    }

    fn plus(self, rhs: Self) -> Self {
        Single(self.0 + rhs.0)
    }

    fn minus(self, rhs: Self) -> Self {
        Single(self.0 - rhs.0)
    }

    fn times(self, rhs: Self) -> Self {
        Single(self.0 * rhs.0)
    }

    fn divided_by(self, rhs: Self) -> Self {
        Single(self.0 / rhs.0)
    }
}

fn singles(values: &[f32]) -> Vec<Single> {
    values.iter().map(|v| Single(*v)).collect()
}

#[test]
fn single_precision_node_evaluates() {
    let n = Node::new(2, Some(singles(&[2.0, 3.0])), Some(singles(&[1.0, 1.0])));
    assert_eq!(n.evalute(&singles(&[1.0, 1.0])), Single(3.5));
}

#[test]
fn single_precision_rounds_as_its_type_does() {
    // 16777216 is 2^24: adding one to it is lost in 32 bits.
    let n = Node::new(2, Some(singles(&[16777216.0, 1.0])), Some(singles(&[0.0, 0.0])));
    assert_eq!(n.evalute(&singles(&[1.0, 1.0])), Single(8388608.0));
}

#[test]
fn single_precision_network_evaluates() {
    let layer = NodeLayer::new_from_nodes(vec![
        Node::new(2, Some(singles(&[1.0, 1.0])), None),
        Node::new(2, None, Some(singles(&[4.0, 6.0]))),
    ]);
    let network = LayerList::new(singles(&[2.0, 4.0]), vec![layer]);
    assert_eq!(network.evaluate(), singles(&[3.0, 5.0]));
}

#[test]
fn single_precision_random_network() {
    let network: LayerList<Single> = LayerList::new_random(singles(&[0.5, 0.5, 0.5]), 3, 4);
    assert_eq!(network.check(), Ok(()));
    let output = network.evaluate();
    assert_eq!(output.len(), 4);
    assert!(output.iter().all(|v| 0.0 <= v.0 && v.0 < 2.0));
}

#[test]
fn single_precision_rejects_length_mismatch() {
    let n = Node::new(2, Some(singles(&[2.0, 3.0])), None);
    assert_eq!(
        n.try_evalute(&singles(&[1.0])),
        Err(ShapeError::InputLength { expected: 2, found: 1 })
    );
}
