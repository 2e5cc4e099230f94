use llm_rs::shape::{resolve_common_extent, unique, AxisView, DataType, KernelError, Layout};

#[test]
fn unique_agrees() {
    assert_eq!(unique(&[3, 3, 3]), Some(3));
    assert_eq!(unique(&[7]), Some(7));
}

#[test]
fn unique_disagrees_or_empty() {
    assert_eq!(unique(&[3, 4, 3]), None);
    assert_eq!(unique(&[]), None);
}

#[test]
fn common_extent_mismatch() {
    assert_eq!(resolve_common_extent(&[2, 2]), Ok(2));
    assert_eq!(resolve_common_extent(&[2, 5]), Err(KernelError::ShapeMismatch));
}

#[test]
fn nbytes_of_types() {
    assert_eq!(DataType::F32.nbytes(), 4);
    assert_eq!(DataType::U16.nbytes(), 2);
}

fn matrix(rows: usize, cols: usize) -> Layout {
    Layout {
        dt: DataType::F32,
        axes: vec![
            AxisView { extent: rows, stride: (cols * 4) as isize },
            AxisView { extent: cols, stride: 4 },
        ],
        offset: 0,
    }
}

#[test]
fn contiguous_innermost() {
    let m = matrix(2, 3);
    assert_eq!(m.assert_contiguous_innermost(), Ok(()));
    let t = Layout {
        dt: DataType::F32,
        axes: vec![AxisView { extent: 3, stride: 4 }, AxisView { extent: 2, stride: 12 }],
        offset: 0,
    };
    assert_eq!(t.assert_contiguous_innermost(), Err(KernelError::NotContiguous));
    let empty = Layout { dt: DataType::F32, axes: vec![], offset: 0 };
    assert_eq!(empty.assert_contiguous_innermost(), Err(KernelError::NotContiguous));
}

#[test]
fn index_fixes_outer_axis() {
    let m = matrix(2, 3);
    let row = m.index(1).unwrap();
    assert_eq!(row.offset, 12);
    assert_eq!(row.axes, vec![AxisView { extent: 3, stride: 4 }]);
    assert_eq!(m.dims(), vec![2, 3]);
    assert_eq!(row.dims(), vec![3]);
}

#[test]
fn index_overflow() {
    let m = Layout {
        dt: DataType::F32,
        axes: vec![AxisView { extent: 4, stride: isize::MAX }],
        offset: 0,
    };
    assert_eq!(m.index(2).unwrap_err(), KernelError::Overflow);
}

#[test]
fn merge_compatible_axes() {
    let m = matrix(2, 3);
    let flat = m.merge(0).unwrap();
    assert_eq!(flat.axes, vec![AxisView { extent: 6, stride: 4 }]);
    assert_eq!(flat.dims(), vec![6]);
}

#[test]
fn merge_incompatible_axes() {
    let t = Layout {
        dt: DataType::F32,
        axes: vec![AxisView { extent: 3, stride: 4 }, AxisView { extent: 2, stride: 12 }],
        offset: 0,
    };
    assert_eq!(t.merge(0).unwrap_err(), KernelError::ShapeMismatch);
}
