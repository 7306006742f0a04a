use neuron::scalar::{abs, div, max};
use neuron::tensor::Tensor;
use neuron::Vector;

#[test]
fn vector_zero() {
    let v = Vector::zero(4);
    assert_eq!(Vector(vec![0, 0, 0, 0]), v);
}

#[test]
fn vector_plus_vector() {
    let a = Vector(vec![1, 2, 3, 4]);
    let b = Vector(vec![4, 3, 2, 1]);
    assert_eq!(Vector(vec![5, 5, 5, 5]), a.add(&b));
}

#[test]
fn vector_abs() {
    let a = Vector(vec![-1, 2, -3]);
    assert_eq!(Vector(vec![1, 2, 3]), a.clone().abs());
    assert_eq!(Vector(vec![-1, 2, -3]), a);
}

#[test]
fn vector_sum() {
    let a = Vector(vec![1, 2, 3]);
    assert_eq!(6, a.sum());
    assert_eq!(Vector(vec![1, 2, 3]), a);
}

#[test]
fn vector_sum_empty_is_zero() {
    assert_eq!(0, Vector(vec![]).sum());
}

#[test]
fn vector_plus_zero_is_unchanged() {
    let v = Vector(vec![7, -3, 0, 12]);
    assert_eq!(v.clone(), v.clone().add(&Vector::zero(4)));
}

#[test]
fn vector_norm_divides_by_sum_of_abs() {
    let a = Vector(vec![0, -5, 0]);
    assert_eq!(Vector(vec![0, -1, 0]), a.norm());
    let b = Vector(vec![12, -4, 8]);
    assert_eq!(Vector(vec![0, 0, 0]), b.norm());
    let c = Vector(vec![9]);
    assert_eq!(Vector(vec![1]), c.norm());
}

#[test]
fn vector_norm_zero_sum_unchanged() {
    let a = Vector(vec![0, 0, 0]);
    assert_eq!(Vector(vec![0, 0, 0]), a.norm());
    let e = Vector(vec![]);
    assert_eq!(Vector(vec![]), e.norm());
}

#[test]
fn vector_mean() {
    assert_eq!(2, Vector(vec![1, 2, 3]).mean());
    assert_eq!(0, Vector(vec![]).mean());
    assert_eq!(-2, Vector(vec![-1, -2, -4]).mean());
}

#[test]
fn vector_clip() {
    let a = Vector(vec![-5, 0, 3, 9]);
    assert_eq!(Vector(vec![-2, 0, 3, 4]), a.clip(-2, 4));
}

#[test]
fn vector_tensor_access() {
    let mut v = Vector(vec![1, 2, 3]);
    assert_eq!([3], v.shape());
    assert_eq!(2, v.get([1]));
    v.set([1], 9);
    assert_eq!(Vector(vec![1, 9, 3]), v);
}

#[test]
fn scalar_rank_zero_access() {
    let mut x: i64 = 5;
    assert_eq!(0, <i64 as Tensor<0>>::shape(&x).len());
    assert_eq!(5, <i64 as Tensor<0>>::get(&x, []));
    <i64 as Tensor<0>>::set(&mut x, [], 8);
    assert_eq!(8, x);
}

#[test]
fn scalar_max_prefers_left_on_tie() {
    assert_eq!(3, max(3, 2));
    assert_eq!(4, max(3, 4));
    assert_eq!(0, max(0, 0));
}

#[test]
fn scalar_abs_and_div() {
    assert_eq!(7, abs(-7));
    assert_eq!(7, abs(7));
    assert_eq!(-3, div(-7, 2));
    assert_eq!(3, div(7, 2));
}
