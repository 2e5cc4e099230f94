use vstd::prelude::*;
use crate::shape::{DataType, KernelError};

verus! {

/// Yields, for each of `batch_size` sequences of `seq_len` tokens, the
/// position of each token within its sequence.
#[derive(Debug, Clone, Copy)]
pub struct BatchIter {
    pub batch_size: usize,
    pub seq_len: usize,
    pub index: usize,
}

impl BatchIter {
    pub open spec fn wf(&self) -> bool {
        &&& self.seq_len > 0
        &&& self.batch_size * self.seq_len <= usize::MAX
        &&& self.index <= self.batch_size * self.seq_len
    }

    pub fn new(batch_size: usize, seq_len: usize) -> (r: Self)
        ensures
            r.batch_size == batch_size,
            r.seq_len == seq_len,
            r.index == 0,
    {
        BatchIter { batch_size, seq_len, index: 0 }
    }

    /// The position of the next token, or `None` after the last sequence.
    pub fn next(&mut self) -> (r: Option<usize>)
        requires
            old(self).wf(),
        ensures
            final(self).wf(),
            final(self).batch_size == old(self).batch_size,
            final(self).seq_len == old(self).seq_len,
            old(self).index < old(self).batch_size * old(self).seq_len ==> {
                &&& r == Some(old(self).index % old(self).seq_len)
                &&& final(self).index == old(self).index + 1
            },
            old(self).index >= old(self).batch_size * old(self).seq_len ==> {
                &&& r.is_none()
                &&& final(self).index == old(self).index
            },
    {
        let index = self.index;
        proof {
            let b = self.batch_size as int;
            let s = self.seq_len as int;
            let i = index as int;
            assert((i / s < b) <==> (i < b * s)) by (nonlinear_arith)
                requires
                    s > 0,
                    b >= 0,
                    i >= 0,
            ;
        }
        if index / self.seq_len < self.batch_size {
            self.index = index + 1;
            Some(index % self.seq_len)
        } else {
            None
        }
    }
}

/// The position ids of `n` tokens cut into sequences of `s`: `i % s` for the
/// `i`-th token, as a 16-bit index.
pub open spec fn positions(n: nat, s: nat) -> Seq<u16> {
    Seq::new(n, |i: int| (i % (s as int)) as u16)
}

/// Position ids of a batch of `batch_size` sequences of `seq_len` tokens.
pub fn build_pos(batch_size: usize, seq_len: usize) -> (r: Vec<u16>)
    requires
        seq_len > 0,
        batch_size * seq_len <= usize::MAX,
    ensures
        r@ == positions((batch_size * seq_len) as nat, seq_len as nat),
{
    let mut it = BatchIter::new(batch_size, seq_len);
    let mut out: Vec<u16> = Vec::new();
    loop
        invariant
            it.wf(),
            it.batch_size == batch_size,
            it.seq_len == seq_len,
            out@ == positions(it.index as nat, seq_len as nat),
        ensures
            out@ == positions((batch_size * seq_len) as nat, seq_len as nat),
        decreases batch_size * seq_len - it.index,
    {
        let before = it.index;
        match it.next() {
            Some(p) => {
                out.push(p as u16);
                proof {
                    assert(out@ =~= positions(it.index as nat, seq_len as nat));
                }
            },
            None => {
                proof {
                    assert(before == batch_size * seq_len);
                }
                break;
            },
        }
    }
    out
}

/// Token ids of a batch, `batch_size` sequences of `n_seq` tokens, row-major.
#[derive(Debug, Clone)]
pub struct TokenBatch {
    pub batch_size: usize,
    pub n_seq: usize,
    pub ids: Vec<u16>,
}

/// For output row `i`, the token-table row and the position-table row whose
/// sum it is.
pub open spec fn lookup_plan(ids: Seq<u16>, n_seq: nat) -> Seq<(usize, usize)> {
    Seq::new(ids.len(), |i: int| (ids[i] as usize, (i % (n_seq as int)) as usize))
}

/// A token-and-position embedding layer, described by its two tables and the
/// token batch retained from the last forward call.
#[derive(Debug)]
pub struct Embedding {
    pub dt: DataType,
    pub te_rows: usize,
    pub te_width: usize,
    pub pe_rows: usize,
    pub pe_width: usize,
    pub tokens: Option<TokenBatch>,
}

/// The tokens fit a layer with these tables: every id names a row of the
/// token table and every position a row of the position table.
pub open spec fn batch_fits(tb: TokenBatch, te_rows: nat, pe_rows: nat) -> bool {
    &&& tb.n_seq > 0
    &&& tb.ids@.len() == tb.batch_size * tb.n_seq
    &&& tb.n_seq <= pe_rows
    &&& tb.n_seq <= 0x1_0000
    &&& forall|i: int| 0 <= i < tb.ids@.len() ==> (#[trigger] tb.ids@[i]) < te_rows
}

impl Embedding {
    pub open spec fn wf(&self) -> bool {
        self.tokens.is_some() ==> batch_fits(self.tokens.unwrap(), self.te_rows as nat, self.pe_rows as nat)
    }

    /// A layer over a token table of `te_rows` x `te_width` and a position
    /// table of `pe_rows` x `pe_width`, with no tokens retained.
    pub fn init(dt: DataType, te_rows: usize, te_width: usize, pe_rows: usize, pe_width: usize) -> (r: Self)
        ensures
            r.wf(),
            r.dt == dt,
            r.te_rows == te_rows,
            r.te_width == te_width,
            r.pe_rows == pe_rows,
            r.pe_width == pe_width,
            r.tokens.is_none(),
    {
        Embedding { dt, te_rows, te_width, pe_rows, pe_width, tokens: None }
    }

    /// The checks of a forward call, in the order they are made.
    pub open spec fn forward_error(&self, tb: TokenBatch) -> Option<KernelError> {
        if self.te_width != self.pe_width || tb.n_seq == 0 || tb.ids@.len() != tb.batch_size * tb.n_seq {
            Some(KernelError::ShapeMismatch)
        } else if self.dt != DataType::F32 {
            Some(KernelError::Unsupported)
        } else if !batch_fits(tb, self.te_rows as nat, self.pe_rows as nat) {
            Some(KernelError::IndexOutOfRange)
        } else {
            None
        }
    }

    /// Checks the tokens against the tables, retains them for `backward`, and
    /// returns which table rows each output row sums.
    #[verifier::loop_isolation(false)]
    pub fn forward(&mut self, tokens: TokenBatch) -> (r: Result<Vec<(usize, usize)>, KernelError>)
        requires
            old(self).wf(),
        ensures
            final(self).wf(),
            final(self).dt == old(self).dt,
            final(self).te_rows == old(self).te_rows,
            final(self).te_width == old(self).te_width,
            final(self).pe_rows == old(self).pe_rows,
            final(self).pe_width == old(self).pe_width,
            match old(self).forward_error(tokens) {
                Some(e) => r == Err::<Vec<(usize, usize)>, KernelError>(e) && final(self).tokens == old(self).tokens,
                None => r.is_ok() && r.unwrap()@ == lookup_plan(tokens.ids@, tokens.n_seq as nat)
                    && final(self).tokens == Some(tokens),
            },
    {
        if self.te_width != self.pe_width || tokens.n_seq == 0 {
            return Err(KernelError::ShapeMismatch);
        }
        match tokens.batch_size.checked_mul(tokens.n_seq) {
            Some(n) => {
                if n != tokens.ids.len() {
                    return Err(KernelError::ShapeMismatch);
                }
            },
            None => {
                let len = tokens.ids.len();
                proof {
                    assert(len <= usize::MAX);
                }
                return Err(KernelError::ShapeMismatch);
            },
        }
        if self.dt != DataType::F32 {
            return Err(KernelError::Unsupported);
        }
        if tokens.n_seq > self.pe_rows || tokens.n_seq > 0x1_0000 {
            return Err(KernelError::IndexOutOfRange);
        }
        let mut i: usize = 0;
        while i < tokens.ids.len()
            invariant
                i <= tokens.ids@.len(),
                *self == *old(self),
                forall|j: int| 0 <= j < i ==> (#[trigger] tokens.ids@[j]) < self.te_rows,
            decreases tokens.ids@.len() - i,
        {
            if tokens.ids[i] as usize >= self.te_rows {
                return Err(KernelError::IndexOutOfRange);
            }
            i += 1;
        }
        let plan = Self::plan(&tokens);
        self.tokens = Some(tokens);
        Ok(plan)
    }

    /// The row pairs of a batch that fits: the ids against the position ids
    /// rebuilt for its shape.
    fn plan(tb: &TokenBatch) -> (r: Vec<(usize, usize)>)
        requires
            tb.n_seq > 0,
            tb.n_seq <= 0x1_0000,
            tb.ids@.len() == tb.batch_size * tb.n_seq,
        ensures
            r@ == lookup_plan(tb.ids@, tb.n_seq as nat),
    {
        let len = tb.ids.len();
        proof {
            assert(tb.batch_size * tb.n_seq <= usize::MAX);
        }
        let pos = build_pos(tb.batch_size, tb.n_seq);
        let mut r: Vec<(usize, usize)> = Vec::new();
        let mut i: usize = 0;
        while i < tb.ids.len()
            invariant
                i <= tb.ids@.len(),
                tb.n_seq > 0,
                tb.n_seq <= 0x1_0000,
                pos@ == positions(tb.ids@.len(), tb.n_seq as nat),
                r@ == lookup_plan(tb.ids@, tb.n_seq as nat).subrange(0, i as int),
            decreases tb.ids@.len() - i,
        {
            proof {
                assert(pos@[i as int] == ((i as int) % (tb.n_seq as int)) as u16);
                assert((i as int) % (tb.n_seq as int) < 0x1_0000);
            }
            r.push((tb.ids[i] as usize, pos[i] as usize));
            i += 1;
            proof {
                assert(r@ =~= lookup_plan(tb.ids@, tb.n_seq as nat).subrange(0, i as int));
            }
        }
        proof {
            assert(lookup_plan(tb.ids@, tb.n_seq as nat).subrange(0, i as int) =~= lookup_plan(tb.ids@, tb.n_seq as nat));
        }
        r
    }

    /// The checks of a backward call against an output gradient of
    /// `dy_rows` x `dy_width`.
    pub open spec fn backward_error(&self, dy_rows: usize, dy_width: usize) -> Option<KernelError> {
        match self.tokens {
            None => Some(KernelError::InvalidCallSequence),
            Some(tb) => if dy_rows != tb.ids@.len() || dy_width != self.te_width || dy_width != self.pe_width {
                Some(KernelError::ShapeMismatch)
            } else {
                None
            },
        }
    }

    /// Hands back the row pairs of the retained tokens, into which the
    /// output gradient is to be added, and drops the tokens: a second
    /// backward needs a forward first.
    pub fn backward(&mut self, dy_rows: usize, dy_width: usize) -> (r: Result<Vec<(usize, usize)>, KernelError>)
        requires
            old(self).wf(),
        ensures
            final(self).wf(),
            final(self).dt == old(self).dt,
            final(self).te_rows == old(self).te_rows,
            final(self).te_width == old(self).te_width,
            final(self).pe_rows == old(self).pe_rows,
            final(self).pe_width == old(self).pe_width,
            match old(self).backward_error(dy_rows, dy_width) {
                Some(e) => r == Err::<Vec<(usize, usize)>, KernelError>(e) && final(self).tokens == old(self).tokens,
                None => r.is_ok() && r.unwrap()@ == lookup_plan(old(self).tokens.unwrap().ids@,
                    old(self).tokens.unwrap().n_seq as nat) && final(self).tokens.is_none(),
            },
    {
        match &self.tokens {
            None => {
                return Err(KernelError::InvalidCallSequence);
            },
            Some(tb) => {
                if dy_rows != tb.ids.len() || dy_width != self.te_width || dy_width != self.pe_width {
                    return Err(KernelError::ShapeMismatch);
                }
            },
        }
        let tb = self.tokens.take().unwrap();
        let plan = Self::plan(&tb);
        Ok(plan)
    }
}

/// Forward then backward: once a forward call has accepted `tokens`, a
/// backward call against an output gradient of one row per token and the
/// tables' width is accepted too, and scatters into exactly the row pairs the
/// forward call gathered from; a second backward call is then refused.
pub proof fn lemma_round_trip(e: Embedding, tokens: TokenBatch, dy_rows: usize)
    requires
        e.wf(),
        dy_rows == tokens.ids@.len(),
        e.forward_error(tokens).is_none(),
    ensures
        ({
            let after = Embedding { tokens: Some(tokens), ..e };
            &&& after.wf()
            &&& after.backward_error(dy_rows, e.te_width).is_none()
            &&& lookup_plan(after.tokens.unwrap().ids@, after.tokens.unwrap().n_seq as nat)
                == lookup_plan(tokens.ids@, tokens.n_seq as nat)
            &&& (Embedding { tokens: None, ..e }).backward_error(dy_rows, e.te_width)
                == Some(KernelError::InvalidCallSequence)
        }),
{
}

/// For a single sequence of distinct tokens, no two output rows add into the
/// same token-table row nor into the same position-table row, so each table's
/// gradient receives every output-gradient row exactly once.
pub proof fn lemma_injective_scatter(ids: Seq<u16>, n_seq: nat)
    requires
        ids.len() == n_seq,
        n_seq <= 0x1_0000,
        forall|i: int, j: int| 0 <= i < j < ids.len() ==> ids[i] != ids[j],
    ensures
        forall|i: int, j: int|
            0 <= i < ids.len() && 0 <= j < ids.len() && i != j ==> {
                &&& (#[trigger] lookup_plan(ids, n_seq)[i]).0 != (#[trigger] lookup_plan(ids, n_seq)[j]).0
                &&& lookup_plan(ids, n_seq)[i].1 != lookup_plan(ids, n_seq)[j].1
            },
{
    assert forall|i: int, j: int|
        0 <= i < ids.len() && 0 <= j < ids.len() && i != j implies {
            &&& (#[trigger] lookup_plan(ids, n_seq)[i]).0 != (#[trigger] lookup_plan(ids, n_seq)[j]).0
            &&& lookup_plan(ids, n_seq)[i].1 != lookup_plan(ids, n_seq)[j].1
        } by {
        if i < j {
            assert(ids[i] != ids[j]);
        } else {
            assert(ids[j] != ids[i]);
        }
        assert(i % (n_seq as int) == i) by (nonlinear_arith)
            requires 0 <= i < n_seq;
        assert(j % (n_seq as int) == j) by (nonlinear_arith)
            requires 0 <= j < n_seq;
    }
}

/// How many of `rows` name row `r`: with an all-ones output gradient, the
/// value each entry of gradient row `r` receives.
pub open spec fn hits(rows: Seq<usize>, r: int) -> nat
    decreases rows.len(),
{
    if rows.len() == 0 {
        0
    } else {
        hits(rows.drop_last(), r) + if rows.last() == r { 1nat } else { 0nat }
    }
}

/// `hits` summed over the rows `[0, n)` of a table.
pub open spec fn total_hits(rows: Seq<usize>, n: nat) -> nat
    decreases n,
{
    if n == 0 {
        0
    } else {
        total_hits(rows, (n - 1) as nat) + hits(rows, n - 1)
    }
}

/// The token-table rows of a plan.
pub open spec fn token_rows(plan: Seq<(usize, usize)>) -> Seq<usize> {
    plan.map_values(|p: (usize, usize)| p.0)
}

/// The position-table rows of a plan.
pub open spec fn position_rows(plan: Seq<(usize, usize)>) -> Seq<usize> {
    plan.map_values(|p: (usize, usize)| p.1)
}

proof fn lemma_total_push(rows: Seq<usize>, x: usize, n: nat)
    ensures
        total_hits(rows.push(x), n) == total_hits(rows, n) + if x < n { 1nat } else { 0nat },
    decreases n,
{
    assert(rows.push(x).drop_last() =~= rows);
    if n > 0 {
        lemma_total_push(rows, x, (n - 1) as nat);
    }
}

proof fn lemma_total_hits(rows: Seq<usize>, n: nat)
    requires
        forall|i: int| 0 <= i < rows.len() ==> (#[trigger] rows[i]) < n,
    ensures
        total_hits(rows, n) == rows.len(),
    decreases rows.len(),
{
    if rows.len() == 0 {
        lemma_total_empty(rows, n);
    } else {
        let init = rows.drop_last();
        assert(init.push(rows.last()) =~= rows);
        assert forall|i: int| 0 <= i < init.len() implies (#[trigger] init[i]) < n by {
            assert(init[i] == rows[i]);
        }
        lemma_total_hits(init, n);
        lemma_total_push(init, rows.last(), n);
    }
}

proof fn lemma_total_empty(rows: Seq<usize>, n: nat)
    requires
        rows.len() == 0,
    ensures
        total_hits(rows, n) == 0,
    decreases n,
{
    if n > 0 {
        lemma_total_empty(rows, (n - 1) as nat);
    }
}

/// Scatter-add totals: for a batch that fits the tables, summed over all
/// rows of each table, the token-table gradient and the position-table
/// gradient receive the same number of output-gradient rows, one per token.
pub proof fn lemma_scatter_totals(tokens: TokenBatch, te_rows: nat, pe_rows: nat)
    requires
        batch_fits(tokens, te_rows, pe_rows),
    ensures
        ({
            let plan = lookup_plan(tokens.ids@, tokens.n_seq as nat);
            &&& total_hits(token_rows(plan), te_rows) == tokens.ids@.len()
            &&& total_hits(position_rows(plan), pe_rows) == tokens.ids@.len()
        }),
{
    let plan = lookup_plan(tokens.ids@, tokens.n_seq as nat);
    let n = tokens.n_seq as int;
    assert forall|i: int| 0 <= i < token_rows(plan).len() implies (#[trigger] token_rows(plan)[i]) < te_rows by {
        assert(tokens.ids@[i] < te_rows);
    }
    assert forall|i: int| 0 <= i < position_rows(plan).len() implies (#[trigger] position_rows(plan)[i]) < pe_rows by {
        assert(0 <= i % n < n) by (nonlinear_arith)
            requires n > 0;
    }
    lemma_total_hits(token_rows(plan), te_rows);
    lemma_total_hits(position_rows(plan), pe_rows);
}

} // verus!
