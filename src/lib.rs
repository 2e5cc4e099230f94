//! Shape resolution, addressing and index plans for the embedding, causal
//! attention and softmax cross-entropy kernels of a transformer trainer.

pub mod attention;
pub mod embedding;
pub mod loss;
pub mod shape;
