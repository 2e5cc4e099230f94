use llm_rs::embedding::{build_pos, BatchIter, Embedding, TokenBatch};
use llm_rs::shape::{DataType, KernelError};

#[test]
fn batch_iter_cycles_positions() {
    let mut it = BatchIter::new(2, 3);
    let mut got = Vec::new();
    while let Some(p) = it.next() {
        got.push(p);
    }
    assert_eq!(got, vec![0, 1, 2, 0, 1, 2]);
    assert_eq!(it.next(), None);
}

#[test]
fn positions_repeat_per_sequence() {
    assert_eq!(build_pos(3, 2), vec![0u16, 1, 0, 1, 0, 1]);
    assert_eq!(build_pos(0, 4), Vec::<u16>::new());
}

fn layer() -> Embedding {
    Embedding::init(DataType::F32, 2, 4, 2, 4)
}

#[test]
fn concrete_forward_backward() {
    let te: Vec<f32> = vec![1., 1., 1., 1., 2., 2., 2., 2.];
    let pe: Vec<f32> = vec![0., 0., 0., 0., 10., 10., 10., 10.];
    let d = 4;
    let mut e = layer();
    let plan = e
        .forward(TokenBatch { batch_size: 1, n_seq: 2, ids: vec![0, 1] })
        .unwrap();
    assert_eq!(plan, vec![(0, 0), (1, 1)]);
    let mut y = vec![0f32; 8];
    for (i, &(r1, r2)) in plan.iter().enumerate() {
        for k in 0..d {
            y[i * d + k] = te[r1 * d + k] + pe[r2 * d + k];
        }
    }
    assert_eq!(y, vec![1., 1., 1., 1., 12., 12., 12., 12.]);

    let dy = vec![1f32; 8];
    let back = e.backward(2, 4).unwrap();
    assert_eq!(back, plan);
    let mut dte = vec![0f32; 8];
    let mut dpe = vec![0f32; 8];
    for (i, &(r1, r2)) in back.iter().enumerate() {
        for k in 0..d {
            dte[r1 * d + k] += dy[i * d + k];
            dpe[r2 * d + k] += dy[i * d + k];
        }
    }
    assert_eq!(dte, vec![1f32; 8]);
    assert_eq!(dpe, vec![1f32; 8]);
}

#[test]
fn scatter_sums_repeated_rows() {
    let mut e = Embedding::init(DataType::F32, 3, 2, 2, 2);
    e.forward(TokenBatch { batch_size: 2, n_seq: 2, ids: vec![2, 2, 0, 2] }).unwrap();
    let plan = e.backward(4, 2).unwrap();
    assert_eq!(plan, vec![(2, 0), (2, 1), (0, 0), (2, 1)]);
    let token_hits: Vec<usize> = (0..3).map(|r| plan.iter().filter(|p| p.0 == r).count()).collect();
    let pos_hits: Vec<usize> = (0..2).map(|r| plan.iter().filter(|p| p.1 == r).count()).collect();
    assert_eq!(token_hits, vec![1, 0, 3]);
    assert_eq!(pos_hits, vec![2, 2]);
    assert_eq!(token_hits.iter().sum::<usize>(), 4);
    assert_eq!(pos_hits.iter().sum::<usize>(), 4);
}

#[test]
fn backward_before_forward() {
    let mut e = layer();
    assert_eq!(e.backward(2, 4), Err(KernelError::InvalidCallSequence));
}

#[test]
fn backward_twice() {
    let mut e = layer();
    e.forward(TokenBatch { batch_size: 1, n_seq: 2, ids: vec![1, 0] }).unwrap();
    assert!(e.backward(2, 4).is_ok());
    assert_eq!(e.backward(2, 4), Err(KernelError::InvalidCallSequence));
}

#[test]
fn backward_gradient_shape() {
    let mut e = layer();
    e.forward(TokenBatch { batch_size: 1, n_seq: 2, ids: vec![1, 0] }).unwrap();
    assert_eq!(e.backward(3, 4), Err(KernelError::ShapeMismatch));
    assert_eq!(e.backward(2, 5), Err(KernelError::ShapeMismatch));
    assert!(e.backward(2, 4).is_ok());
}

#[test]
fn forward_rejects() {
    let mut e = layer();
    assert_eq!(
        e.forward(TokenBatch { batch_size: 1, n_seq: 2, ids: vec![0] }),
        Err(KernelError::ShapeMismatch)
    );
    assert_eq!(
        e.forward(TokenBatch { batch_size: 1, n_seq: 2, ids: vec![0, 2] }),
        Err(KernelError::IndexOutOfRange)
    );
    assert_eq!(
        e.forward(TokenBatch { batch_size: 1, n_seq: 3, ids: vec![0, 1, 1] }),
        Err(KernelError::IndexOutOfRange)
    );
    assert!(e.tokens.is_none());
    let mut w = Embedding::init(DataType::F32, 2, 4, 2, 3);
    assert_eq!(
        w.forward(TokenBatch { batch_size: 1, n_seq: 2, ids: vec![0, 1] }),
        Err(KernelError::ShapeMismatch)
    );
    let mut u = Embedding::init(DataType::U16, 2, 4, 2, 4);
    assert_eq!(
        u.forward(TokenBatch { batch_size: 1, n_seq: 2, ids: vec![0, 1] }),
        Err(KernelError::Unsupported)
    );
}
