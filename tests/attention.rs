use llm_rs::attention::{backward_shape, causal_split, forward_shape, AttnShape};
use llm_rs::shape::{DataType, KernelError};

const F: DataType = DataType::F32;

#[test]
fn forward_shape_resolves() {
    let s = forward_shape(&[F, F, F, F], &vec![2, 3, 4], &vec![2, 2, 3, 3], &vec![2, 2, 3, 3], &vec![2, 3, 12]).unwrap();
    assert_eq!(s, AttnShape { batch_size: 2, n_seq: 3, nh: 2, d: 4, dh: 2 });
}

#[test]
fn forward_shape_rejects() {
    assert_eq!(
        forward_shape(&[F, DataType::U16, F, F], &vec![2, 3, 4], &vec![2, 2, 3, 3], &vec![2, 2, 3, 3], &vec![2, 3, 12]),
        Err(KernelError::Unsupported)
    );
    assert_eq!(
        forward_shape(&[F; 4], &vec![2, 3, 4], &vec![2, 2, 3, 3], &vec![2, 2, 3, 3], &vec![2, 3, 13]),
        Err(KernelError::ShapeMismatch)
    );
    assert_eq!(
        forward_shape(&[F; 4], &vec![2, 3, 4], &vec![2, 2, 3, 3], &vec![2, 2, 3, 2], &vec![2, 3, 12]),
        Err(KernelError::ShapeMismatch)
    );
    assert_eq!(
        forward_shape(&[F; 4], &vec![2, 3, 4], &vec![2, 3, 3, 3], &vec![2, 3, 3, 3], &vec![2, 3, 12]),
        Err(KernelError::ShapeMismatch)
    );
    assert_eq!(
        forward_shape(&[F; 4], &vec![2, 3, 4], &vec![2, 0, 3, 3], &vec![2, 0, 3, 3], &vec![2, 3, 12]),
        Err(KernelError::ShapeMismatch)
    );
    let big = usize::MAX / 2;
    assert_eq!(
        forward_shape(&[F; 4], &vec![big, big, 1], &vec![big, 1, big, big], &vec![big, 1, big, big], &vec![big, big, 3]),
        Err(KernelError::Overflow)
    );
}

#[test]
fn backward_shape_resolves() {
    let s = backward_shape(
        &[F; 6],
        &vec![1, 3, 6],
        &vec![1, 1, 3, 3],
        &vec![1, 1, 3, 3],
        &vec![1, 3, 2],
        &vec![1, 3, 6],
        &vec![1, 1, 3, 3],
    )
    .unwrap();
    assert_eq!(s, AttnShape { batch_size: 1, n_seq: 3, nh: 1, d: 2, dh: 2 });
    assert_eq!(
        backward_shape(
            &[F; 6],
            &vec![1, 3, 6],
            &vec![1, 1, 3, 3],
            &vec![1, 1, 3, 3],
            &vec![1, 3, 2],
            &vec![1, 2, 6],
            &vec![1, 1, 3, 3],
        ),
        Err(KernelError::ShapeMismatch)
    );
}

#[test]
fn packed_and_output_indices() {
    let s = AttnShape { batch_size: 2, n_seq: 3, nh: 2, d: 4, dh: 2 };
    assert_eq!(s.packed_index(0, 0, 0, 0), 0);
    assert_eq!(s.packed_index(0, 0, 1, 0), 4);
    assert_eq!(s.packed_index(0, 1, 2, 1), 12 + 8 + 2);
    assert_eq!(s.packed_index(1, 2, 2, 1), 5 * 12 + 8 + 2);
    assert_eq!(s.out_index(1, 2, 1), 5 * 4 + 2);
    assert_eq!(s.weight_row(1, 1, 2), ((2 + 1) * 3 + 2) * 3);
}

#[test]
fn causal_rows() {
    assert_eq!(causal_split(0, 3), (1, 2));
    assert_eq!(causal_split(2, 3), (3, 0));
}
