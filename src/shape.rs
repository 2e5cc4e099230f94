use vstd::prelude::*;

verus! {

/// Why a kernel call was refused before it touched any element.
#[derive(Debug, Clone, Copy, PartialEq, Eq, Structural)]
pub enum KernelError {
    /// Extents that must agree do not.
    ShapeMismatch,
    /// The innermost axis of an operand is not contiguous.
    NotContiguous,
    /// The element types are not a supported combination.
    Unsupported,
    /// A backward call came without a forward call before it.
    InvalidCallSequence,
    /// An index read from a tensor lies outside the row range it addresses.
    IndexOutOfRange,
    /// A size does not fit the machine's integers.
    Overflow,
}

/// Element type a tensor is tagged with: the two the kernels compute on,
/// or any other type, known by its size in bytes.
#[derive(Debug, Clone, Copy, PartialEq, Eq, Structural)]
pub enum DataType {
    F32,
    U16,
    Other(usize),
}

/// All values of `xs` agree.
pub open spec fn all_equal(xs: Seq<usize>) -> bool {
    forall|i: int| 0 <= i < xs.len() ==> #[trigger] xs[i] == xs[0]
}

/// The one extent that every entry of `xs` names, if there is one.
pub fn unique(xs: &[usize]) -> (r: Option<usize>)
    ensures
        r.is_some() <==> (xs@.len() > 0 && all_equal(xs@)),
        r.is_some() ==> r.unwrap() == xs@[0],
{
    if xs.len() == 0 {
        return None;
    }
    let first = xs[0];
    let mut i: usize = 1;
    while i < xs.len()
        invariant
            1 <= i <= xs@.len(),
            first == xs@[0],
            forall|j: int| 0 <= j < i ==> #[trigger] xs@[j] == first,
        decreases xs@.len() - i,
    {
        if xs[i] != first {
            return None;
        }
        i += 1;
    }
    Some(first)
}

/// Like `unique`, with a shape mismatch as the error.
pub fn resolve_common_extent(xs: &[usize]) -> (r: Result<usize, KernelError>)
    ensures
        r.is_ok() <==> (xs@.len() > 0 && all_equal(xs@)),
        r.is_ok() ==> r.unwrap() == xs@[0],
        r.is_err() ==> r == Err::<usize, KernelError>(KernelError::ShapeMismatch),
{
    match unique(xs) {
        Some(n) => Ok(n),
        None => Err(KernelError::ShapeMismatch),
    }
}

/// Number of bytes of one element of the type.
pub open spec fn spec_nbytes(dt: DataType) -> nat {
    match dt {
        DataType::F32 => 4,
        DataType::U16 => 2,
        DataType::Other(n) => n as nat,
    }
}

impl DataType {
    pub fn nbytes(&self) -> (r: usize)
        ensures
            r == spec_nbytes(*self),
    {
        match self {
            DataType::F32 => 4,
            DataType::U16 => 2,
            DataType::Other(n) => *n,
        }
    }
}

/// One axis of a strided view: how many positions, and how many bytes apart.
#[derive(Debug, Clone, Copy, PartialEq, Eq, Structural)]
pub struct AxisView {
    pub extent: usize,
    pub stride: isize,
}

/// A strided view over a flat byte buffer.
#[derive(Debug)]
pub struct Layout {
    pub dt: DataType,
    pub axes: Vec<AxisView>,
    pub offset: isize,
}

impl Layout {
    pub open spec fn extents(&self) -> Seq<usize> {
        self.axes@.map_values(|a: AxisView| a.extent)
    }

    /// The innermost axis exists and its stride is one element.
    pub open spec fn spec_innermost_contiguous(&self) -> bool {
        self.axes@.len() > 0 && self.axes@.last().stride as int == spec_nbytes(self.dt) as int
    }

    /// The extents of the view.
    pub fn dims(&self) -> (r: Vec<usize>)
        ensures
            r@ == self.extents(),
    {
        let mut r: Vec<usize> = Vec::new();
        let mut i: usize = 0;
        while i < self.axes.len()
            invariant
                i <= self.axes@.len(),
                r@ == self.axes@.subrange(0, i as int).map_values(|a: AxisView| a.extent),
            decreases self.axes@.len() - i,
        {
            r.push(self.axes[i].extent);
            i += 1;
            proof {
                assert(r@ =~= self.axes@.subrange(0, i as int).map_values(|a: AxisView| a.extent));
            }
        }
        proof {
            assert(self.axes@.subrange(0, self.axes@.len() as int) =~= self.axes@);
        }
        r
    }

    /// Checks that the innermost axis has a stride of exactly one element.
    pub fn assert_contiguous_innermost(&self) -> (r: Result<(), KernelError>)
        ensures
            r.is_ok() <==> self.spec_innermost_contiguous(),
            r.is_err() ==> r == Err::<(), KernelError>(KernelError::NotContiguous),
    {
        let n = self.axes.len();
        if n == 0 {
            return Err(KernelError::NotContiguous);
        }
        let s = self.axes[n - 1].stride;
        let e = self.dt.nbytes();
        if s >= 0 && s as usize == e {
            Ok(())
        } else {
            Err(KernelError::NotContiguous)
        }
    }

    /// Fixes the outermost axis at position `i`: a view of one rank less.
    pub fn index(&self, i: usize) -> (r: Result<Layout, KernelError>)
        requires
            self.axes@.len() > 0,
            i < self.axes@[0].extent,
        ensures
            r.is_ok() <==> isize::MIN <= self.offset + i * self.axes@[0].stride <= isize::MAX,
            r.is_ok() ==> ({
                let v = r.unwrap();
                &&& v.dt == self.dt
                &&& v.axes@ == self.axes@.subrange(1, self.axes@.len() as int)
                &&& v.offset == self.offset + i * self.axes@[0].stride
            }),
            r.is_err() ==> r == Err::<Layout, KernelError>(KernelError::Overflow),
    {
        let s = self.axes[0].stride as i128;
        let prod = match (i as i128).checked_mul(s) {
            Some(p) => p,
            None => return Err(KernelError::Overflow),
        };
        let off = match (self.offset as i128).checked_add(prod) {
            Some(o) => o,
            None => return Err(KernelError::Overflow),
        };
        if off < isize::MIN as i128 || off > isize::MAX as i128 {
            return Err(KernelError::Overflow);
        }
        let mut axes: Vec<AxisView> = Vec::new();
        let mut k: usize = 1;
        while k < self.axes.len()
            invariant
                1 <= k <= self.axes@.len(),
                axes@ == self.axes@.subrange(1, k as int),
            decreases self.axes@.len() - k,
        {
            axes.push(self.axes[k]);
            k += 1;
            proof {
                assert(axes@ =~= self.axes@.subrange(1, k as int));
            }
        }
        Ok(Layout { dt: self.dt, axes, offset: off as isize })
    }

    /// Collapses axes `a` and `a + 1` into one, where the outer stride steps
    /// exactly over the whole inner axis.
    pub fn merge(&self, a: usize) -> (r: Result<Layout, KernelError>)
        requires
            a + 1 < self.axes@.len(),
        ensures
            r.is_ok() <==> (self.axes@[a as int].stride == self.axes@[a + 1].extent
                * self.axes@[a + 1].stride && self.axes@[a as int].extent * self.axes@[a
                + 1].extent <= usize::MAX),
            r.is_ok() ==> ({
                let v = r.unwrap();
                &&& v.dt == self.dt
                &&& v.offset == self.offset
                &&& v.axes@ == self.axes@.subrange(0, a as int).push(
                    AxisView {
                        extent: (self.axes@[a as int].extent * self.axes@[a + 1].extent) as usize,
                        stride: self.axes@[a + 1].stride,
                    },
                ) + self.axes@.subrange(a + 2, self.axes@.len() as int)
            }),
            r.is_err() ==> r == Err::<Layout, KernelError>(
                if self.axes@[a as int].stride == self.axes@[a + 1].extent * self.axes@[a + 1].stride {
                    KernelError::Overflow
                } else {
                    KernelError::ShapeMismatch
                },
            ),
    {
        let n = self.axes.len();
        let outer = self.axes[a];
        let inner = self.axes[a + 1];
        let step = match (inner.extent as i128).checked_mul(inner.stride as i128) {
            Some(p) => p,
            None => return Err(KernelError::ShapeMismatch),
        };
        if step != outer.stride as i128 {
            return Err(KernelError::ShapeMismatch);
        }
        let extent = match outer.extent.checked_mul(inner.extent) {
            Some(e) => e,
            None => return Err(KernelError::Overflow),
        };
        let mut axes: Vec<AxisView> = Vec::new();
        let mut k: usize = 0;
        while k < self.axes.len()
            invariant
                a + 1 < self.axes@.len(),
                k <= self.axes@.len(),
                extent == outer.extent * inner.extent,
                outer == self.axes@[a as int],
                inner == self.axes@[a + 1],
                k <= a ==> axes@ == self.axes@.subrange(0, k as int),
                k > a + 1 ==> axes@ == self.axes@.subrange(0, a as int).push(
                    AxisView { extent, stride: inner.stride },
                ) + self.axes@.subrange(a + 2, k as int),
                k != a + 1,
            decreases self.axes@.len() - k,
        {
            if k == a {
                axes.push(AxisView { extent, stride: inner.stride });
                k += 2;
                proof {
                    assert(axes@ =~= self.axes@.subrange(0, a as int).push(
                        AxisView { extent, stride: inner.stride },
                    ) + self.axes@.subrange(a + 2, k as int));
                }
            } else {
                axes.push(self.axes[k]);
                k += 1;
                proof {
                    if k <= a {
                        assert(axes@ =~= self.axes@.subrange(0, k as int));
                    } else {
                        assert(axes@ =~= self.axes@.subrange(0, a as int).push(
                            AxisView { extent, stride: inner.stride },
                        ) + self.axes@.subrange(a + 2, k as int));
                    }
                }
            }
        }
        Ok(Layout { dt: self.dt, axes, offset: self.offset })
    }
}

} // verus!
