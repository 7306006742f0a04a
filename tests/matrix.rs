use neuron::tensor::Tensor;
use neuron::{Matrix, Tensor3, Vector};

#[test]
fn matrix_zero() {
    let m = Matrix::zero(2, 3);
    assert_eq!(Matrix::new(vec![vec![0, 0, 0], vec![0, 0, 0]]), m);
}

#[test]
fn matrix_transpose() {
    let m = Matrix::new(vec![vec![1, 2, 3], vec![4, 5, 6]]);
    assert_eq!(
        Matrix::new(vec![vec![1, 4], vec![2, 5], vec![3, 6]]),
        m.transpose()
    );
}

#[test]
fn matrix_transpose_twice() {
    let m = Matrix::new(vec![vec![1, -2, 3, 0], vec![4, 5, -6, 7]]);
    assert_eq!(m.clone(), m.transpose().transpose());
    let e = Matrix::zero(0, 3);
    let t = e.transpose();
    assert_eq!([3, 0], t.shape());
    assert_eq!(e, t.transpose());
}

#[test]
fn matrix_mul_matrix() {
    let m1 = Matrix::new(vec![vec![3, 3, 3, 3], vec![4, 4, 4, 4]]);
    let m2 = Matrix::new(vec![vec![2, 2], vec![3, 3], vec![4, 4], vec![5, 5]]);
    let m3 = m1.mul(&m2);
    let m4 = m2.mul(&m1);

    assert_eq!(
        Matrix::new(vec![vec![3 * 2 + 3 * 3 + 3 * 4 + 3 * 5, 42], vec![56, 56]]),
        m3
    );
    assert_eq!(
        Matrix::new(vec![
            vec![14, 14, 14, 14],
            vec![21, 21, 21, 21],
            vec![28, 28, 28, 28],
            vec![35, 35, 35, 35]
        ]),
        m4
    );
}

#[test]
fn matrix_mul_is_associative() {
    let a = Matrix::new(vec![vec![1, 2], vec![-3, 4], vec![0, 5]]);
    let b = Matrix::new(vec![vec![2, 0, -1], vec![1, 3, 2]]);
    let c = Matrix::new(vec![vec![1, -2], vec![0, 4], vec![3, 1]]);
    let left = a.mul(&b).mul(&c);
    let right = a.mul(&b.mul(&c));
    assert_eq!(left, right);
    assert_eq!(Matrix::new(vec![vec![13, 19], vec![31, 63], vec![35, 60]]), left);
}

#[test]
fn matrix_mul_empty_inner_dimension() {
    let a = Matrix::zero(2, 0);
    let b = Matrix::zero(0, 3);
    assert_eq!(Matrix::zero(2, 3), a.mul(&b));
}

#[test]
fn matrix_mul_vector() {
    let m = Matrix::new(vec![vec![2, 2, 2], vec![3, 3, 3]]);
    let v = Vector(vec![1, 2, 3]);
    assert_eq!(Vector(vec![2 + 4 + 6, 3 + 6 + 9]), m.mul_vector(&v));
}

#[test]
fn matrix_mul_scalar() {
    let m = Matrix::new(vec![vec![1, 2, 3], vec![4, 5, 6]]);
    let s = 3;
    assert_eq!(
        Matrix::new(vec![vec![3, 6, 9], vec![12, 15, 18]]),
        m.mul_scalar(s)
    );
}

#[test]
fn matrix_add_vector() {
    let m = Matrix::new(vec![vec![1, 2, 3], vec![4, 5, 6]]);
    let v = Vector::new(vec![2, 2, 2]);
    assert_eq!(
        Matrix::new(vec![vec![3, 4, 5], vec![6, 7, 8]]),
        m.add_vector(&v)
    );
}

#[test]
fn matrix_tensor_access() {
    let mut m = Matrix::new(vec![vec![1, 2, 3], vec![4, 5, 6]]);
    assert_eq!([2, 3], m.shape());
    assert_eq!(6, m.get([1, 2]));
    m.set([0, 1], -7);
    assert_eq!(Matrix::new(vec![vec![1, -7, 3], vec![4, 5, 6]]), m);
}

#[test]
fn tensor3_zero_and_access() {
    let mut t = Tensor3::zero(2, 3, 4);
    assert_eq!([2, 3, 4], t.shape());
    assert_eq!(0, t.get([1, 2, 3]));
    t.set([1, 2, 3], 5);
    t.set([0, 1, 2], -4);
    assert_eq!(5, t.get([1, 2, 3]));
    assert_eq!(-4, t.get([0, 1, 2]));
    assert_eq!(0, t.get([1, 1, 2]));
    assert_eq!(0, t.get([0, 2, 3]));
}
