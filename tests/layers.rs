use neuron::{ActivationFn, Dense, Layer, Matrix, ReLU, Vector};

#[test]
fn relu() {
    let inputs = Matrix::new(vec![vec![0, 2, -2]]);
    assert_eq!(Matrix::new(vec![vec![0, 2, 0]]), ReLU.apply(&inputs));
}

#[test]
fn relu_keeps_non_negative_and_clears_negative() {
    let inputs = Matrix::new(vec![vec![5, -1], vec![-9, 0], vec![3, 4]]);
    let out = ReLU.apply(&inputs);
    assert_eq!(Matrix::new(vec![vec![5, 0], vec![0, 0], vec![3, 4]]), out);
}

#[test]
fn forward() {
    let weights = Matrix::new(vec![vec![1, 2, 3], vec![4, 5, 6]]);
    let biases = Vector(vec![1, -1]);
    let layer = Dense::new(&weights, biases);

    let inputs = Matrix::new(vec![vec![4, 3, 2]]);
    let outputs = layer.forward(&inputs);

    assert_eq!(
        Matrix::new(vec![vec![4 + 6 + 6 + 1, 16 + 15 + 12 - 1]]),
        outputs
    );
}

#[test]
fn forward_stores_weights_transposed() {
    let weights = Matrix::new(vec![vec![1, 2, 3], vec![4, 5, 6]]);
    let layer = Dense::new(&weights, Vector(vec![0, 0]));
    assert_eq!(weights.transpose(), layer.weights);
}

#[test]
fn forward_batch_then_relu() {
    let weights = Matrix::new(vec![vec![1, -1], vec![-2, 3]]);
    let layer = Dense::new(&weights, Vector(vec![0, 1]));
    let inputs = Matrix::new(vec![vec![1, 2], vec![3, 1]]);
    let hidden = layer.forward(&inputs);
    assert_eq!(Matrix::new(vec![vec![-1, 5], vec![2, -2]]), hidden);
    assert_eq!(Matrix::new(vec![vec![0, 5], vec![2, 0]]), ReLU.apply(&hidden));
}
