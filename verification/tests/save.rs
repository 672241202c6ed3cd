use bullet_kan::graph::save::{QuantTarget, Source, StoredWeights, WeightStore};
use bullet_kan::nn::kan_lut::{kan_lut_save_format, sample_kan_lut};
use bullet_kan::nn::relu_kan_lut::{relu_kan_lut_save_format, sample_relu_kan_lut};
use bullet_kan::scalar::{Algebra, Scalar};

#[derive(Clone, Copy, Debug, PartialEq, PartialOrd)]
struct F32(f32);

impl Algebra for F32 {
    fn of_count(n: usize) -> F32 {
        F32(n as f32)
    }

    fn plus(self, other: F32) -> F32 {
        F32(self.0 + other.0)
    }

    fn minus(self, other: F32) -> F32 {
        F32(self.0 - other.0)
    }

    fn times(self, other: F32) -> F32 {
        F32(self.0 * other.0)
    }

    fn over(self, other: F32) -> F32 {
        F32(self.0 / other.0)
    }

    fn negated(self) -> F32 {
        F32(-self.0)
    }

    fn exponential(self) -> F32 {
        F32(self.0.exp())
    }

    fn root(self) -> F32 {
        F32(self.0.sqrt())
    }

    fn larger(self, other: F32) -> F32 {
        F32(self.0.max(other.0))
    }

    fn limited(self, low: F32, high: F32) -> F32 {
        F32(self.0.clamp(low.0, high.0))
    }

    fn same(self, other: F32) -> bool {
        self.0 == other.0
    }

    fn less(self, other: F32) -> bool {
        self.0 < other.0
    }

    fn at_most(self, other: F32) -> bool {
        self.0 <= other.0
    }
}

impl Scalar for F32 {
    fn from_count(n: usize) -> F32 {
        F32(n as f32)
    }

    fn add(self, other: F32) -> F32 {
        F32(self.0 + other.0)
    }

    fn sub(self, other: F32) -> F32 {
        F32(self.0 - other.0)
    }

    fn mul(self, other: F32) -> F32 {
        F32(self.0 * other.0)
    }

    fn div(self, other: F32) -> F32 {
        F32(self.0 / other.0)
    }

    fn neg(self) -> F32 {
        F32(-self.0)
    }

    fn exp(self) -> F32 {
        F32(self.0.exp())
    }

    fn sqrt(self) -> F32 {
        F32(self.0.sqrt())
    }

    fn max(self, other: F32) -> F32 {
        F32(self.0.max(other.0))
    }

    fn clamp(self, low: F32, high: F32) -> F32 {
        F32(self.0.clamp(low.0, high.0))
    }

    fn is_same(self, other: F32) -> bool {
        self.0 == other.0
    }

    fn is_less(self, other: F32) -> bool {
        self.0 < other.0
    }

    fn is_at_most(self, other: F32) -> bool {
        self.0 <= other.0
    }
}

fn numbers(vals: &[f32]) -> Vec<F32> {
    vals.iter().map(|&v| F32(v)).collect()
}

const UNIT: (F32, F32) = (F32(0.0), F32(1.0));

fn store(entries: Vec<(&str, Vec<f32>)>) -> WeightStore<F32> {
    let entries = entries
        .into_iter()
        .map(|(name, vals)| StoredWeights { name: name.to_string(), values: numbers(&vals) })
        .collect();
    WeightStore { entries }
}

#[test]
fn kan_export_samples_the_stored_weights() {
    let format = kan_lut_save_format("kan1", 2, 1, 2, 1, UNIT, UNIT, 4, 64);
    assert!(format.round);
    assert_eq!(format.quant, QuantTarget::I16(64));
    let sw = vec![1.0, 2.0, 3.0, 4.0, 5.0, 6.0];
    let bw = vec![0.5, -0.5];
    let store = store(vec![
        ("kan2_sw", vec![]),
        ("kan1_bw", bw.clone()),
        ("kan1_sw", sw.clone()),
        ("kan1_sw", vec![0.0]),
    ]);
    let expected = sample_kan_lut(&numbers(&sw), &numbers(&bw), 2, 1, 2, 1, UNIT, UNIT, 4);
    assert_eq!(format.values(&store), expected);
    assert_eq!(expected.len(), 8);
}

#[test]
fn relu_kan_export_limits_its_entries() {
    // One support (0, 1), sampled in the middle, where it is one.
    let middle = (F32(0.5), F32(0.5));
    let format = relu_kan_lut_save_format("out", 4, 1, 1, 0, UNIT, middle, 1, 64);
    assert!(format.round);
    assert_eq!(format.quant, QuantTarget::I8(64));
    let sw = vec![1.0, -1.5, 5.0, -5.0];
    let store = store(vec![("out_sw", sw.clone())]);
    let free = sample_relu_kan_lut(&numbers(&sw), 4, 1, 1, 0, UNIT, middle, 1);
    assert_eq!(free, numbers(&sw));
    let limit = 127.0 / 64.0;
    let values = format.values(&store);
    assert_eq!(values, numbers(&[1.0, -1.5, limit, -limit]));
    for v in values {
        assert!((v.0 * 64.0).abs() <= 127.0);
    }
}

#[test]
fn export_of_the_output_layer() {
    let format = relu_kan_lut_save_format("kan_out", 2048, 1, 5, 3, UNIT, UNIT, 64, 64);
    match &format.source {
        Source::ReluKanLut { id, in_features, out_features, num_samples, limit, .. } => {
            assert_eq!(id, "kan_out");
            assert_eq!((*in_features, *out_features, *num_samples), (2048, 1, 64));
            assert_eq!(limit.0, 1.984375);
        }
        _ => panic!("another table"),
    }
    let weights = vec![0.25; 2048 * 8];
    let store = store(vec![("kan_out_sw", weights)]);
    assert_eq!(format.values(&store).len(), 2048 * 64);
}

#[test]
fn a_negative_scale_has_a_negative_limit() {
    let format = relu_kan_lut_save_format("x", 1, 1, 1, 0, UNIT, UNIT, 1, -64);
    match format.source {
        Source::ReluKanLut { limit, .. } => assert_eq!(limit.0, -127.0 / 64.0),
        _ => panic!("another table"),
    }
    assert_eq!(format.quant, QuantTarget::I8(-64));
    let format = relu_kan_lut_save_format::<F32>("x", 1, 1, 1, 0, UNIT, UNIT, 1, i16::MIN);
    match format.source {
        Source::ReluKanLut { limit, .. } => assert_eq!(limit.0, -127.0 / 32768.0),
        _ => panic!("another table"),
    }
}
