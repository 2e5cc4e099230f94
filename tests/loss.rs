use llm_rs::loss::{backward_shape, check_targets, crossentropy_shape, mask_split, softmax_shape, LossShape};
use llm_rs::shape::{DataType, KernelError};

const F: DataType = DataType::F32;
const U: DataType = DataType::U16;

#[test]
fn softmax_shape_checks() {
    let s = softmax_shape(F, F, &vec![2, 3, 5], &vec![2, 3, 5], 4).unwrap();
    assert_eq!(s, LossShape { batch_size: 2, n_seq: 3, n_voc: 5 });
    assert_eq!(softmax_shape(F, U, &vec![2, 3, 5], &vec![2, 3, 5], 4), Err(KernelError::Unsupported));
    assert_eq!(softmax_shape(F, F, &vec![2, 3, 5], &vec![2, 3, 6], 4), Err(KernelError::ShapeMismatch));
    assert_eq!(softmax_shape(F, F, &vec![2, 3, 5], &vec![2, 3, 5], 6), Err(KernelError::IndexOutOfRange));
    assert_eq!(softmax_shape(F, F, &vec![2, 3, 5], &vec![2, 3, 5], 0), Err(KernelError::IndexOutOfRange));
}

#[test]
fn masked_tail() {
    assert_eq!(mask_split(3, 5), (3, 2));
    assert_eq!(mask_split(5, 5), (5, 0));
}

#[test]
fn crossentropy_shape_checks() {
    let s = crossentropy_shape(F, F, U, &vec![2, 3], &vec![2, 3, 5], &vec![2, 3]).unwrap();
    assert_eq!(s, LossShape { batch_size: 2, n_seq: 3, n_voc: 5 });
    assert_eq!(crossentropy_shape(F, F, F, &vec![2, 3], &vec![2, 3, 5], &vec![2, 3]), Err(KernelError::Unsupported));
    assert_eq!(crossentropy_shape(F, F, U, &vec![2, 4], &vec![2, 3, 5], &vec![2, 3]), Err(KernelError::ShapeMismatch));
    let big = usize::MAX / 2;
    assert_eq!(crossentropy_shape(F, F, U, &vec![big, 4], &vec![big, 4, 1], &vec![big, 4]), Err(KernelError::Overflow));
}

#[test]
fn backward_shape_checks() {
    let s = backward_shape(F, F, F, U, &vec![1, 2, 3], &vec![1, 2], &vec![1, 2, 3], &vec![1, 2]).unwrap();
    assert_eq!(s, LossShape { batch_size: 1, n_seq: 2, n_voc: 3 });
    assert_eq!(
        backward_shape(F, F, F, U, &vec![1, 2, 3], &vec![1, 2], &vec![1, 2, 4], &vec![1, 2]),
        Err(KernelError::ShapeMismatch)
    );
}

#[test]
fn targets_bounded() {
    assert_eq!(check_targets(&[0, 4, 2], 5), Ok(()));
    assert_eq!(check_targets(&[0, 5, 2], 5), Err(KernelError::IndexOutOfRange));
    assert_eq!(check_targets(&[], 0), Ok(()));
}

#[test]
fn row_and_position_indices() {
    let s = LossShape { batch_size: 2, n_seq: 3, n_voc: 5 };
    assert_eq!(s.row_index(1, 2), 25);
    assert_eq!(s.pos_index(1, 2), 5);
}
