use vstd::prelude::*;
use crate::shape::{DataType, KernelError};

verus! {

/// The extents shared by the operands of a softmax or cross-entropy call.
#[derive(Debug, Clone, Copy, PartialEq, Eq, Structural)]
pub struct LossShape {
    pub batch_size: usize,
    pub n_seq: usize,
    pub n_voc: usize,
}

impl LossShape {
    /// Every buffer's element count, and each partial product, fits the
    /// machine's integers.
    pub open spec fn wf(&self) -> bool {
        &&& self.batch_size * self.n_seq <= usize::MAX
        &&& self.batch_size * self.n_seq * self.n_voc <= usize::MAX
    }

    pub open spec fn row_dims(&self) -> Seq<usize> {
        seq![self.batch_size, self.n_seq, self.n_voc]
    }

    pub open spec fn pos_dims(&self) -> Seq<usize> {
        seq![self.batch_size, self.n_seq]
    }

    /// Element index of the first vocabulary entry of position `t` of batch `b`.
    pub open spec fn spec_row_index(&self, b: int, t: int) -> int {
        (b * self.n_seq + t) * self.n_voc
    }

    /// Index of the scalar (loss or target) of position `t` of batch `b`.
    pub open spec fn spec_pos_index(&self, b: int, t: int) -> int {
        b * self.n_seq + t
    }

    /// Where the vocabulary row of position `t` of batch `b` starts; the row
    /// holds `n_voc` entries.
    pub fn row_index(&self, b: usize, t: usize) -> (r: usize)
        requires
            self.wf(),
            b < self.batch_size,
            t < self.n_seq,
        ensures
            r == self.spec_row_index(b as int, t as int),
            r + self.n_voc <= self.batch_size * self.n_seq * self.n_voc,
    {
        proof {
            lemma_rows(b as int, self.batch_size as int, t as int, self.n_seq as int, self.n_voc as int);
        }
        (b * self.n_seq + t) * self.n_voc
    }

    /// Index of the loss and of the target of position `t` of batch `b`.
    pub fn pos_index(&self, b: usize, t: usize) -> (r: usize)
        requires
            self.wf(),
            b < self.batch_size,
            t < self.n_seq,
        ensures
            r == self.spec_pos_index(b as int, t as int),
            r < self.batch_size * self.n_seq,
    {
        proof {
            lemma_rows(b as int, self.batch_size as int, t as int, self.n_seq as int, self.n_voc as int);
        }
        b * self.n_seq + t
    }
}

proof fn lemma_rows(b: int, nb: int, t: int, n: int, w: int)
    requires
        0 <= b < nb,
        0 <= t < n,
        0 <= w,
    ensures
        0 <= b * n + t < nb * n,
        0 <= (b * n + t) * w,
        (b * n + t) * w + w <= nb * n * w,
{
    assert(b * n + t < nb * n) by (nonlinear_arith)
        requires 0 <= b < nb, 0 <= t < n;
    assert(b * n >= 0) by (nonlinear_arith)
        requires 0 <= b, 0 <= n;
    let row = b * n + t;
    assert(row * w + w <= nb * n * w) by (nonlinear_arith)
        requires 0 <= row < nb * n, 0 <= w;
    assert(row * w >= 0) by (nonlinear_arith)
        requires 0 <= row, 0 <= w;
}

fn dims3(v: &Vec<usize>) -> (r: Option<LossShape>)
    ensures
        r.is_some() <==> v@.len() == 3,
        r.is_some() ==> r.unwrap().row_dims() == v@,
{
    if v.len() != 3 {
        return None;
    }
    let s = LossShape { batch_size: v[0], n_seq: v[1], n_voc: v[2] };
    proof {
        assert(s.row_dims() =~= v@);
    }
    Some(s)
}

fn is_pos_dims(v: &Vec<usize>, s: &LossShape) -> (r: bool)
    ensures
        r == (v@ == s.pos_dims()),
{
    let r = v.len() == 2 && v[0] == s.batch_size && v[1] == s.n_seq;
    proof {
        if r {
            assert(v@ =~= s.pos_dims());
        }
    }
    r
}

fn is_row_dims(v: &Vec<usize>, s: &LossShape) -> (r: bool)
    ensures
        r == (v@ == s.row_dims()),
{
    let r = v.len() == 3 && v[0] == s.batch_size && v[1] == s.n_seq && v[2] == s.n_voc;
    proof {
        if r {
            assert(v@ =~= s.row_dims());
        }
    }
    r
}

fn check_size(s: LossShape) -> (r: Result<LossShape, KernelError>)
    ensures
        r.is_ok() <==> s.wf(),
        r.is_ok() ==> r == Ok::<LossShape, KernelError>(s),
        r.is_err() ==> r == Err::<LossShape, KernelError>(KernelError::Overflow),
{
    match s.batch_size.checked_mul(s.n_seq) {
        Some(x) => match x.checked_mul(s.n_voc) {
            Some(_) => Ok(s),
            None => Err(KernelError::Overflow),
        },
        None => Err(KernelError::Overflow),
    }
}

/// The outcome owed by a softmax call over output `y` and logits `x`, whose
/// element types are `y_dt` and `x_dt`, keeping the first `mask` entries of
/// each row.
pub open spec fn softmax_result(y_dt: DataType, x_dt: DataType, y: Seq<usize>, x: Seq<usize>, mask: usize) -> Result<LossShape, KernelError> {
    if y_dt != x_dt || y_dt != DataType::F32 {
        Err(KernelError::Unsupported)
    } else if y.len() != 3 || x != y {
        Err(KernelError::ShapeMismatch)
    } else if mask == 0 || mask > y[2] {
        Err(KernelError::IndexOutOfRange)
    } else {
        let s = LossShape { batch_size: y[0], n_seq: y[1], n_voc: y[2] };
        if s.wf() { Ok(s) } else { Err(KernelError::Overflow) }
    }
}

/// Checks the operands of a softmax call: both tagged 32-bit float, of one
/// shape batch x sequence x vocabulary, with `0 < mask <= vocabulary`.
pub fn softmax_shape(y_dt: DataType, x_dt: DataType, y: &Vec<usize>, x: &Vec<usize>, mask: usize) -> (r: Result<LossShape, KernelError>)
    ensures
        r == softmax_result(y_dt, x_dt, y@, x@, mask),
{
    if y_dt != x_dt || y_dt != DataType::F32 {
        return Err(KernelError::Unsupported);
    }
    let s = match dims3(y) {
        Some(s) => s,
        None => return Err(KernelError::ShapeMismatch),
    };
    if !is_row_dims(x, &s) {
        return Err(KernelError::ShapeMismatch);
    }
    if mask == 0 || mask > s.n_voc {
        return Err(KernelError::IndexOutOfRange);
    }
    check_size(s)
}

/// Of a row of `n_voc` entries, the first `r.0` are normalized and the next
/// `r.1` are filled with zero.
pub fn mask_split(mask: usize, n_voc: usize) -> (r: (usize, usize))
    requires
        mask <= n_voc,
    ensures
        r.0 == mask,
        r.0 + r.1 == n_voc,
{
    (mask, n_voc - mask)
}

/// The outcome owed by a cross-entropy call over losses, probabilities and
/// targets of these types and extents.
pub open spec fn crossentropy_result(
    losses_dt: DataType,
    probs_dt: DataType,
    targets_dt: DataType,
    losses: Seq<usize>,
    probs: Seq<usize>,
    targets: Seq<usize>,
) -> Result<LossShape, KernelError> {
    if losses_dt != probs_dt || losses_dt != DataType::F32 || targets_dt != DataType::U16 {
        Err(KernelError::Unsupported)
    } else if probs.len() != 3 {
        Err(KernelError::ShapeMismatch)
    } else {
        let s = LossShape { batch_size: probs[0], n_seq: probs[1], n_voc: probs[2] };
        if losses != s.pos_dims() || targets != s.pos_dims() {
            Err(KernelError::ShapeMismatch)
        } else if s.wf() {
            Ok(s)
        } else {
            Err(KernelError::Overflow)
        }
    }
}

/// Checks the operands of a cross-entropy call: losses and probabilities
/// tagged 32-bit float, targets 16-bit unsigned, losses and targets of
/// batch x sequence, probabilities of batch x sequence x vocabulary.
pub fn crossentropy_shape(
    losses_dt: DataType,
    probs_dt: DataType,
    targets_dt: DataType,
    losses: &Vec<usize>,
    probs: &Vec<usize>,
    targets: &Vec<usize>,
) -> (r: Result<LossShape, KernelError>)
    ensures
        r == crossentropy_result(losses_dt, probs_dt, targets_dt, losses@, probs@, targets@),
{
    if losses_dt != probs_dt || losses_dt != DataType::F32 || targets_dt != DataType::U16 {
        return Err(KernelError::Unsupported);
    }
    let s = match dims3(probs) {
        Some(s) => s,
        None => return Err(KernelError::ShapeMismatch),
    };
    if !is_pos_dims(losses, &s) || !is_pos_dims(targets, &s) {
        return Err(KernelError::ShapeMismatch);
    }
    check_size(s)
}

/// The outcome owed by a loss backward call over logit gradients, loss
/// gradients, probabilities and targets of these types and extents.
pub open spec fn backward_result(
    dlogits_dt: DataType,
    dlosses_dt: DataType,
    probs_dt: DataType,
    targets_dt: DataType,
    dlogits: Seq<usize>,
    dlosses: Seq<usize>,
    probs: Seq<usize>,
    targets: Seq<usize>,
) -> Result<LossShape, KernelError> {
    if dlogits_dt != DataType::F32 || dlosses_dt != DataType::F32 || probs_dt != DataType::F32
        || targets_dt != DataType::U16 {
        Err(KernelError::Unsupported)
    } else if dlogits.len() != 3 || probs != dlogits {
        Err(KernelError::ShapeMismatch)
    } else {
        let s = LossShape { batch_size: dlogits[0], n_seq: dlogits[1], n_voc: dlogits[2] };
        if dlosses != s.pos_dims() || targets != s.pos_dims() {
            Err(KernelError::ShapeMismatch)
        } else if s.wf() {
            Ok(s)
        } else {
            Err(KernelError::Overflow)
        }
    }
}

/// Checks the operands of a loss backward call.
pub fn backward_shape(
    dlogits_dt: DataType,
    dlosses_dt: DataType,
    probs_dt: DataType,
    targets_dt: DataType,
    dlogits: &Vec<usize>,
    dlosses: &Vec<usize>,
    probs: &Vec<usize>,
    targets: &Vec<usize>,
) -> (r: Result<LossShape, KernelError>)
    ensures
        r == backward_result(dlogits_dt, dlosses_dt, probs_dt, targets_dt, dlogits@, dlosses@, probs@, targets@),
{
    if dlogits_dt != DataType::F32 || dlosses_dt != DataType::F32 || probs_dt != DataType::F32
        || targets_dt != DataType::U16 {
        return Err(KernelError::Unsupported);
    }
    let s = match dims3(dlogits) {
        Some(s) => s,
        None => return Err(KernelError::ShapeMismatch),
    };
    if !is_row_dims(probs, &s) {
        return Err(KernelError::ShapeMismatch);
    }
    if !is_pos_dims(dlosses, &s) || !is_pos_dims(targets, &s) {
        return Err(KernelError::ShapeMismatch);
    }
    check_size(s)
}

/// Every target names an entry of a row of `n_voc`.
pub open spec fn targets_in_range(targets: Seq<u16>, n_voc: usize) -> bool {
    forall|i: int| 0 <= i < targets.len() ==> (#[trigger] targets[i]) < n_voc
}

/// Checks that every target lies in `[0, n_voc)`, so that reading the
/// probability it names stays inside the row.
pub fn check_targets(targets: &[u16], n_voc: usize) -> (r: Result<(), KernelError>)
    ensures
        r.is_ok() <==> targets_in_range(targets@, n_voc),
        r.is_err() ==> r == Err::<(), KernelError>(KernelError::IndexOutOfRange),
{
    let mut i: usize = 0;
    while i < targets.len()
        invariant
            i <= targets@.len(),
            forall|j: int| 0 <= j < i ==> (#[trigger] targets@[j]) < n_voc,
        decreases targets@.len() - i,
    {
        if targets[i] as usize >= n_voc {
            return Err(KernelError::IndexOutOfRange);
        }
        i += 1;
    }
    Ok(())
}

} // verus!
