use vstd::prelude::*;
use crate::shape::{DataType, KernelError};

verus! {

/// The extents shared by the operands of one causal attention call.
#[derive(Debug, Clone, Copy, PartialEq, Eq, Structural)]
pub struct AttnShape {
    pub batch_size: usize,
    pub n_seq: usize,
    pub nh: usize,
    pub d: usize,
    pub dh: usize,
}

/// Every operand is tagged with 32-bit floats.
pub open spec fn all_f32(dts: Seq<DataType>) -> bool {
    forall|i: int| 0 <= i < dts.len() ==> #[trigger] dts[i] == DataType::F32
}

impl AttnShape {
    /// The heads split the model width evenly and every buffer's element
    /// count, and each partial product of its extents, fits the machine's
    /// integers.
    pub open spec fn wf(&self) -> bool {
        &&& self.nh > 0
        &&& self.d == self.nh * self.dh
        &&& self.batch_size * self.n_seq <= usize::MAX
        &&& self.batch_size * self.n_seq * 3 <= usize::MAX
        &&& self.batch_size * self.n_seq * 3 * self.d <= usize::MAX
        &&& self.batch_size * self.nh <= usize::MAX
        &&& self.batch_size * self.nh * self.n_seq <= usize::MAX
        &&& self.batch_size * self.nh * self.n_seq * self.n_seq <= usize::MAX
    }

    /// Extents of an output (or output gradient): batch x sequence x width.
    pub open spec fn out_dims(&self) -> Seq<usize> {
        seq![self.batch_size, self.n_seq, self.d]
    }

    /// Extents of the packed query/key/value input: batch x sequence x 3 width.
    pub open spec fn packed_dims(&self) -> Seq<int> {
        seq![self.batch_size as int, self.n_seq as int, 3 * self.d]
    }

    /// Extents of a score or weight tensor: batch x heads x sequence x sequence.
    pub open spec fn weight_dims(&self) -> Seq<usize> {
        seq![self.batch_size, self.nh, self.n_seq, self.n_seq]
    }

    /// Element index of the first of the `dh` values of head `h` in part
    /// `part` (0 query, 1 key, 2 value) of position `t` of batch `b`.
    pub open spec fn spec_packed_index(&self, b: int, t: int, part: int, h: int) -> int {
        ((b * self.n_seq + t) * 3 + part) * self.d + h * self.dh
    }

    /// Element index of the first of the `dh` outputs of head `h` at `(b, t)`.
    pub open spec fn spec_out_index(&self, b: int, t: int, h: int) -> int {
        (b * self.n_seq + t) * self.d + h * self.dh
    }

    /// Element index of the weight row of query position `t`, head `h`, batch `b`.
    pub open spec fn spec_weight_row(&self, b: int, h: int, t: int) -> int {
        ((b * self.nh + h) * self.n_seq + t) * self.n_seq
    }
}

/// `s` is the one shape the listed operands agree on.
pub open spec fn fits(s: AttnShape, outs: Seq<Seq<usize>>, packed: Seq<Seq<usize>>, weights: Seq<Seq<usize>>) -> bool {
    &&& s.nh > 0
    &&& s.d == s.nh * s.dh
    &&& forall|i: int| 0 <= i < outs.len() ==> (#[trigger] outs[i]) == s.out_dims()
    &&& forall|i: int| 0 <= i < packed.len() ==> (#[trigger] packed[i]).map_values(|x: usize| x as int) == s.packed_dims()
    &&& forall|i: int| 0 <= i < weights.len() ==> (#[trigger] weights[i]) == s.weight_dims()
}

/// The shape the operands agree on, read off the first weight tensor and the
/// first output.
pub open spec fn candidate(out0: Seq<usize>, w0: Seq<usize>) -> AttnShape {
    let nh = w0[1];
    let d = out0[2];
    AttnShape {
        batch_size: w0[0],
        n_seq: w0[2],
        nh,
        d,
        dh: if nh == 0 { 0 } else { (d / nh) as usize },
    }
}

/// At most one shape fits a set of operands with an output and a weight
/// tensor: the one read off them. So a call refused with a shape mismatch
/// has operands that no shape fits.
pub proof fn lemma_fits_unique(s: AttnShape, outs: Seq<Seq<usize>>, packed: Seq<Seq<usize>>, weights: Seq<Seq<usize>>)
    requires
        outs.len() > 0,
        weights.len() > 0,
        fits(s, outs, packed, weights),
    ensures
        s == candidate(outs[0], weights[0]),
{
    assert(outs[0] == s.out_dims());
    assert(weights[0] == s.weight_dims());
    assert(outs[0][2] == s.d);
    assert(weights[0][1] == s.nh);
    assert(s.d / s.nh == s.dh) by (nonlinear_arith)
        requires s.nh > 0, s.d == s.nh * s.dh;
}

fn dims_eq(v: &Vec<usize>, e0: usize, e1: usize, e2: usize) -> (r: bool)
    ensures
        r == (v@ == seq![e0, e1, e2]),
{
    if v.len() != 3 {
        return false;
    }
    let r = v[0] == e0 && v[1] == e1 && v[2] == e2;
    proof {
        if r {
            assert(v@ =~= seq![e0, e1, e2]);
        }
    }
    r
}

fn dims_eq4(v: &Vec<usize>, s: &AttnShape) -> (r: bool)
    ensures
        r == (v@ == s.weight_dims()),
{
    if v.len() != 4 {
        return false;
    }
    let r = v[0] == s.batch_size && v[1] == s.nh && v[2] == s.n_seq && v[3] == s.n_seq;
    proof {
        if r {
            assert(v@ =~= s.weight_dims());
        }
    }
    r
}

fn packed_eq(v: &Vec<usize>, s: &AttnShape) -> (r: bool)
    ensures
        r == (v@.map_values(|x: usize| x as int) == s.packed_dims()),
{
    let r = v.len() == 3 && v[0] == s.batch_size && v[1] == s.n_seq && v[2] / 3 == s.d && v[2] % 3 == 0;
    proof {
        let m = v@.map_values(|x: usize| x as int);
        if r {
            assert(m =~= s.packed_dims());
        } else if m == s.packed_dims() {
            assert(m.len() == 3);
            assert(m[2] == v@[2] as int);
            assert(m[0] == v@[0] as int);
            assert(m[1] == v@[1] as int);
        }
    }
    r
}

/// Resolves the shape of one attention call from the extents of its
/// outputs (`outs`, batch x sequence x width), its packed inputs and its
/// score and weight tensors.
#[verifier::loop_isolation(false)]
fn resolve(dts: &[DataType], outs: &[&Vec<usize>], packed: &[&Vec<usize>], weights: &[&Vec<usize>]) -> (r: Result<AttnShape, KernelError>)
    requires
        outs@.len() > 0,
        weights@.len() > 0,
    ensures
        !all_f32(dts@) ==> r == Err::<AttnShape, KernelError>(KernelError::Unsupported),
        all_f32(dts@) ==> match r {
            Ok(s) => s.wf() && fits(s, outs@.map_values(|v: &Vec<usize>| v@), packed@.map_values(|v: &Vec<usize>| v@), weights@.map_values(|v: &Vec<usize>| v@)),
            Err(e) => {
                let c = candidate(outs@[0]@, weights@[0]@);
                ||| (e == KernelError::ShapeMismatch && !fits(c, outs@.map_values(|v: &Vec<usize>| v@), packed@.map_values(|v: &Vec<usize>| v@), weights@.map_values(|v: &Vec<usize>| v@)))
                ||| (e == KernelError::Overflow && fits(c, outs@.map_values(|v: &Vec<usize>| v@), packed@.map_values(|v: &Vec<usize>| v@), weights@.map_values(|v: &Vec<usize>| v@)) && !c.wf())
            },
        },
{
    let mut k: usize = 0;
    while k < dts.len()
        invariant
            k <= dts@.len(),
            forall|j: int| 0 <= j < k ==> #[trigger] dts@[j] == DataType::F32,
        decreases dts@.len() - k,
    {
        if dts[k] != DataType::F32 {
            return Err(KernelError::Unsupported);
        }
        k += 1;
    }
    let ghost os = outs@.map_values(|v: &Vec<usize>| v@);
    let ghost ps = packed@.map_values(|v: &Vec<usize>| v@);
    let ghost ws = weights@.map_values(|v: &Vec<usize>| v@);
    let w0 = weights[0];
    let o0 = outs[0];
    if w0.len() != 4 || o0.len() != 3 {
        proof {
            assert(os[0] == o0@);
            assert(ws[0] == w0@);
        }
        return Err(KernelError::ShapeMismatch);
    }
    let nh = w0[1];
    let d = o0[2];
    if nh == 0 || d % nh != 0 {
        proof {
            assert(os[0] == o0@);
            assert(ws[0] == w0@);
            let c = candidate(o0@, w0@);
            if fits(c, os, ps, ws) {
                assert(d == nh * (d / nh) as usize);
                assert(d as int == (nh as int) * (d as int / nh as int) + d as int % nh as int) by (nonlinear_arith)
                    requires nh > 0;
            }
        }
        return Err(KernelError::ShapeMismatch);
    }
    let s = AttnShape { batch_size: w0[0], n_seq: w0[2], nh, d, dh: d / nh };
    proof {
        assert(s == candidate(o0@, w0@));
        assert(s.d == s.nh * s.dh) by (nonlinear_arith)
            requires s.nh > 0, s.dh == s.d / s.nh, s.d % s.nh == 0;
    }
    let mut i: usize = 0;
    while i < outs.len()
        invariant
            i <= outs@.len(),
            os == outs@.map_values(|v: &Vec<usize>| v@),
            forall|j: int| 0 <= j < i ==> (#[trigger] os[j]) == s.out_dims(),
        decreases outs@.len() - i,
    {
        if !dims_eq(outs[i], s.batch_size, s.n_seq, s.d) {
            proof {
                assert(os[i as int] == outs@[i as int]@);
            }
            return Err(KernelError::ShapeMismatch);
        }
        proof {
            assert(os[i as int] == outs@[i as int]@);
        }
        i += 1;
    }
    let mut i: usize = 0;
    while i < packed.len()
        invariant
            i <= packed@.len(),
            ps == packed@.map_values(|v: &Vec<usize>| v@),
            forall|j: int| 0 <= j < i ==> (#[trigger] ps[j]).map_values(|x: usize| x as int) == s.packed_dims(),
        decreases packed@.len() - i,
    {
        let ok = packed_eq(packed[i], &s);
        proof {
            assert(ps[i as int] == packed@[i as int]@);
        }
        if !ok {
            return Err(KernelError::ShapeMismatch);
        }
        i += 1;
    }
    let mut i: usize = 0;
    while i < weights.len()
        invariant
            i <= weights@.len(),
            ws == weights@.map_values(|v: &Vec<usize>| v@),
            forall|j: int| 0 <= j < i ==> (#[trigger] ws[j]) == s.weight_dims(),
        decreases weights@.len() - i,
    {
        let ok = dims_eq4(weights[i], &s);
        proof {
            assert(ws[i as int] == weights@[i as int]@);
        }
        if !ok {
            return Err(KernelError::ShapeMismatch);
        }
        i += 1;
    }
    let n_packed = match s.batch_size.checked_mul(s.n_seq) {
        Some(x) => match x.checked_mul(3) {
            Some(y) => y.checked_mul(s.d),
            None => None,
        },
        None => None,
    };
    let n_weights = match s.batch_size.checked_mul(s.nh) {
        Some(x) => match x.checked_mul(s.n_seq) {
            Some(y) => y.checked_mul(s.n_seq),
            None => None,
        },
        None => None,
    };
    if n_packed.is_none() || n_weights.is_none() {
        return Err(KernelError::Overflow);
    }
    Ok(s)
}

/// Resolves the shape of a forward call: output `y`, scores `preatt`,
/// weights `att` and packed input `x`.
pub fn forward_shape(dts: &[DataType], y: &Vec<usize>, preatt: &Vec<usize>, att: &Vec<usize>, x: &Vec<usize>) -> (r: Result<AttnShape, KernelError>)
    ensures
        !all_f32(dts@) ==> r == Err::<AttnShape, KernelError>(KernelError::Unsupported),
        all_f32(dts@) ==> match r {
            Ok(s) => s.wf() && fits(s, seq![y@], seq![x@], seq![preatt@, att@]),
            Err(e) => {
                let c = candidate(y@, preatt@);
                ||| (e == KernelError::ShapeMismatch && !fits(c, seq![y@], seq![x@], seq![preatt@, att@]))
                ||| (e == KernelError::Overflow && fits(c, seq![y@], seq![x@], seq![preatt@, att@]) && !c.wf())
            },
        },
{
    let outs: [&Vec<usize>; 1] = [y];
    let packed: [&Vec<usize>; 1] = [x];
    let weights: [&Vec<usize>; 2] = [preatt, att];
    let r = resolve(dts, outs.as_slice(), packed.as_slice(), weights.as_slice());
    proof {
        assert(outs@.map_values(|v: &Vec<usize>| v@) =~= seq![y@]);
        assert(packed@.map_values(|v: &Vec<usize>| v@) =~= seq![x@]);
        assert(weights@.map_values(|v: &Vec<usize>| v@) =~= seq![preatt@, att@]);
    }
    r
}

/// Resolves the shape of a backward call: packed input gradient `dx`, score
/// and weight gradients `dpreatt` and `datt`, output gradient `dy`, packed
/// input `x` and the weights `att` of the forward call.
pub fn backward_shape(
    dts: &[DataType],
    dx: &Vec<usize>,
    dpreatt: &Vec<usize>,
    datt: &Vec<usize>,
    dy: &Vec<usize>,
    x: &Vec<usize>,
    att: &Vec<usize>,
) -> (r: Result<AttnShape, KernelError>)
    ensures
        !all_f32(dts@) ==> r == Err::<AttnShape, KernelError>(KernelError::Unsupported),
        all_f32(dts@) ==> match r {
            Ok(s) => s.wf() && fits(s, seq![dy@], seq![dx@, x@], seq![dpreatt@, datt@, att@]),
            Err(e) => {
                let c = candidate(dy@, dpreatt@);
                ||| (e == KernelError::ShapeMismatch && !fits(c, seq![dy@], seq![dx@, x@], seq![dpreatt@, datt@, att@]))
                ||| (e == KernelError::Overflow && fits(c, seq![dy@], seq![dx@, x@], seq![dpreatt@, datt@, att@]) && !c.wf())
            },
        },
{
    let outs: [&Vec<usize>; 1] = [dy];
    let packed: [&Vec<usize>; 2] = [dx, x];
    let weights: [&Vec<usize>; 3] = [dpreatt, datt, att];
    let r = resolve(dts, outs.as_slice(), packed.as_slice(), weights.as_slice());
    proof {
        assert(outs@.map_values(|v: &Vec<usize>| v@) =~= seq![dy@]);
        assert(packed@.map_values(|v: &Vec<usize>| v@) =~= seq![dx@, x@]);
        assert(weights@.map_values(|v: &Vec<usize>| v@) =~= seq![dpreatt@, datt@, att@]);
    }
    r
}

/// Row-major step: position `a` of `na` rows of `w` plus an offset `x < w`
/// stays inside the `na * w` elements.
proof fn lemma_row_major(a: int, na: int, x: int, w: int)
    requires
        0 <= a < na,
        0 <= x < w,
    ensures
        0 <= a * w + x < na * w,
        a * w + w <= na * w,
{
    lemma_row_end(a, na, w);
}

/// Row `a` of `na` rows of `w` elements ends inside the `na * w` elements.
proof fn lemma_row_end(a: int, na: int, w: int)
    requires
        0 <= a < na,
        0 <= w,
    ensures
        0 <= a * w,
        a * w + w <= na * w,
{
    assert(a * w + w <= na * w) by (nonlinear_arith)
        requires 0 <= a < na, 0 <= w;
    assert(a * w >= 0) by (nonlinear_arith)
        requires 0 <= a, 0 <= w;
}

impl AttnShape {
    /// Where the `dh` values of head `h` in part `part` (0 query, 1 key,
    /// 2 value) of position `t` of batch `b` start in the packed buffer.
    pub fn packed_index(&self, b: usize, t: usize, part: usize, h: usize) -> (r: usize)
        requires
            self.wf(),
            b < self.batch_size,
            t < self.n_seq,
            part < 3,
            h < self.nh,
        ensures
            r == self.spec_packed_index(b as int, t as int, part as int, h as int),
            r + self.dh <= self.batch_size * self.n_seq * 3 * self.d,
    {
        let ghost nb = self.batch_size as int;
        let ghost n = self.n_seq as int;
        let ghost d = self.d as int;
        let ghost dh = self.dh as int;
        let ghost row = b * n + t;
        proof {
            lemma_row_major(b as int, nb, t as int, n);
            lemma_row_major(row, nb * n, part as int, 3);
            lemma_row_end(h as int, self.nh as int, dh);
            assert(self.nh * dh == d);
            lemma_row_end(row * 3 + part, nb * n * 3, d);
            assert(h * dh + dh <= d) by (nonlinear_arith)
                requires h * dh + dh <= self.nh * dh, self.nh * dh == d;
            assert(h * dh >= 0) by (nonlinear_arith) requires h >= 0, dh >= 0;
        }
        ((b * self.n_seq + t) * 3 + part) * self.d + h * self.dh
    }

    /// Where the `dh` outputs of head `h` at position `t` of batch `b` start.
    pub fn out_index(&self, b: usize, t: usize, h: usize) -> (r: usize)
        requires
            self.wf(),
            b < self.batch_size,
            t < self.n_seq,
            h < self.nh,
        ensures
            r == self.spec_out_index(b as int, t as int, h as int),
            r + self.dh <= self.batch_size * self.n_seq * self.d,
    {
        let ghost nb = self.batch_size as int;
        let ghost n = self.n_seq as int;
        let ghost d = self.d as int;
        let ghost dh = self.dh as int;
        proof {
            lemma_row_major(b as int, nb, t as int, n);
            lemma_row_end(h as int, self.nh as int, dh);
            lemma_row_end(b * n + t, nb * n, d);
            assert(nb * n * d <= nb * n * 3 * d) by (nonlinear_arith)
                requires nb * n >= 0, d >= 0;
            assert(h * dh + dh <= d) by (nonlinear_arith)
                requires h * dh + dh <= self.nh * dh, self.nh * dh == d;
            assert(h * dh >= 0) by (nonlinear_arith) requires h >= 0, dh >= 0;
        }
        (b * self.n_seq + t) * self.d + h * self.dh
    }

    /// Where the weight row of query position `t`, head `h`, batch `b` starts;
    /// the row holds `n_seq` entries.
    pub fn weight_row(&self, b: usize, h: usize, t: usize) -> (r: usize)
        requires
            self.wf(),
            b < self.batch_size,
            h < self.nh,
            t < self.n_seq,
        ensures
            r == self.spec_weight_row(b as int, h as int, t as int),
            r + self.n_seq <= self.batch_size * self.nh * self.n_seq * self.n_seq,
    {
        let ghost nb = self.batch_size as int;
        let ghost n = self.n_seq as int;
        let ghost nh = self.nh as int;
        proof {
            lemma_row_major(b as int, nb, h as int, nh);
            lemma_row_major(b * nh + h, nb * nh, t as int, n);
            lemma_row_end((b * nh + h) * n + t, nb * nh * n, n);
        }
        ((b * self.nh + h) * self.n_seq + t) * self.n_seq
    }
}

/// The weight row of query position `t` out of `n_seq`: entries `[0, r.0)`
/// are computed from the scores, entries `[r.0, r.0 + r.1)` are future
/// positions, filled with zero.
pub fn causal_split(t: usize, n_seq: usize) -> (r: (usize, usize))
    requires
        t < n_seq,
    ensures
        r.0 == t + 1,
        r.0 + r.1 == n_seq,
{
    (t + 1, n_seq - t - 1)
}

/// Every entry of the weight row of query position `t` is either computed,
/// exactly when its key position is at most `t`, or zero-filled, exactly when
/// it lies in the future; no entry is both.
pub proof fn lemma_causal_partition(t: nat, n_seq: nat, k: nat)
    requires
        t < n_seq,
        k < n_seq,
    ensures
        ({
            let computed = t + 1;
            let zeroed = n_seq - computed;
            &&& (k < computed) <==> (k <= t)
            &&& (computed <= k < computed + zeroed) <==> (k > t)
            &&& computed + zeroed == n_seq
        }),
{
}

} // verus!
