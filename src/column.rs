use vstd::prelude::*;
use crate::array::{append_bytes, flatten, ArrayData, DataType, Series, concat_buffers, flatten_children};
use crate::component::{shape_product, ComponentId, ComponentType, Error, PrimitiveTy};
use crate::name::{component_name, decimal_of, decimal_value, names_component, parse_component_id};

verus! {

/// One component's values for every row of a table, as one packed buffer.
#[derive(Debug)]
pub struct HostColumn {
    pub buf: Vec<u8>,
    pub len: usize,
    pub component_id: ComponentId,
    pub component_type: ComponentType,
    pub asset: bool,
}

/// Whether an external array type is the one that carries values of `t`:
/// the bare primitive for a scalar, a fixed-size list of the element count
/// for a tensor.
pub open spec fn carries(dt: DataType, t: ComponentType) -> bool {
    match dt {
        DataType::Primitive(k) => k == t.primitive_ty && t.shape@.len() == 0,
        DataType::FixedSizeList(k, w) => k == t.primitive_ty && t.shape@.len() > 0 && w
            == t.count(),
    }
}

/// Whether an array's packed bytes fill exactly `rows` values of `t`.
pub open spec fn sized_for(bytes: Seq<u8>, rows: nat, t: ComponentType) -> bool {
    t.count() <= usize::MAX && bytes.len() == rows * t.row_size()
}

/// Whether `bytes_len` bytes are exactly `rows` values of `t`.
pub fn is_sized_for(bytes_len: usize, rows: usize, t: &ComponentType) -> (r: bool)
    ensures
        r == (t.count() <= usize::MAX && bytes_len == rows * t.row_size()),
{
    let count = match t.element_count() {
        Some(n) => n,
        None => {
            return false;
        },
    };
    let size = t.primitive_ty.element_size();
    if rows == 0 {
        return bytes_len == 0;
    }
    match size.checked_mul(count) {
        Some(row_size) => match rows.checked_mul(row_size) {
            Some(expected) => bytes_len == expected,
            None => false,
        },
        None => {
            proof {
                let l = rows as nat;
                let rs = size as nat * count as nat;
                assert(l * rs >= rs) by (nonlinear_arith)
                    requires
                        l >= 1,
                ;
            }
            false
        },
    }
}

/// Copies a byte buffer.
pub fn copy_bytes(src: &Vec<u8>) -> (r: Vec<u8>)
    ensures
        r@ == src@,
{
    let mut out: Vec<u8> = Vec::new();
    append_bytes(&mut out, src);
    assert(out@ =~= src@);
    out
}

/// Copies a component type.
pub fn copy_type(t: &ComponentType) -> (r: ComponentType)
    ensures
        r.primitive_ty == t.primitive_ty,
        r.shape@ == t.shape@,
{
    let mut shape: Vec<usize> = Vec::new();
    let mut i: usize = 0;
    while i < t.shape.len()
        invariant
            i <= t.shape@.len(),
            shape@ == t.shape@.subrange(0, i as int),
        decreases t.shape@.len() - i,
    {
        shape.push(t.shape[i]);
        i = i + 1;
        assert(shape@ =~= t.shape@.subrange(0, i as int));
    }
    assert(shape@ =~= t.shape@);
    ComponentType { primitive_ty: t.primitive_ty, shape }
}

/// A flat primitive array over a copy of `bytes`.
pub fn primitive_array(ty: PrimitiveTy, bytes: &Vec<u8>) -> (r: ArrayData)
    ensures
        r.data_type == DataType::Primitive(ty),
        flatten(r) == bytes@,
{
    let c = copy_bytes(bytes);
    let mut buffers: Vec<Vec<u8>> = Vec::new();
    buffers.push(c);
    let children: Vec<ArrayData> = Vec::new();
    let r = ArrayData { data_type: DataType::Primitive(ty), buffers, children };
    assert(r.buffers@.drop_last() =~= Seq::<Vec<u8>>::empty());
    assert(r.buffers@.last()@ == bytes@);
    assert(concat_buffers(Seq::<Vec<u8>>::empty()) =~= Seq::<u8>::empty());
    assert(concat_buffers(r.buffers@) =~= bytes@);
    assert(flatten_children(r, 0) =~= Seq::<u8>::empty());
    assert(flatten(r) =~= bytes@);
    r
}

/// Wraps a flat array of `ty` as the array type that carries `ty`: the flat
/// array itself for a scalar, a fixed-size list of width `count` otherwise.
pub fn tensor_array(ty: &ComponentType, count: usize, inner: ArrayData) -> (r: ArrayData)
    requires
        count == ty.count(),
        inner.data_type == DataType::Primitive(ty.primitive_ty),
    ensures
        carries(r.data_type, *ty),
        flatten(r) == flatten(inner),
{
    if ty.shape.len() == 0 {
        return inner;
    }
    let ghost leaf = inner;
    let buffers: Vec<Vec<u8>> = Vec::new();
    let children: Vec<ArrayData> = vec![inner];
    let r = ArrayData {
        data_type: DataType::FixedSizeList(ty.primitive_ty, count),
        buffers,
        children,
    };
    assert(concat_buffers(r.buffers@) =~= Seq::<u8>::empty());
    assert(flatten_children(r, 0) =~= Seq::<u8>::empty());
    assert(flatten_children(r, 1) =~= flatten(leaf));
    assert(flatten(r) =~= flatten(leaf));
    r
}

impl HostColumn {
    /// The buffer holds exactly one value of the component type per row, and
    /// the element count of one value fits a `usize`.
    pub open spec fn wf(&self) -> bool {
        sized_for(self.buf@, self.len as nat, self.component_type)
    }

    /// Builds a column from an external array named by a component id.
    /// Checks, in this order: the kind is not boolean (`Unsupported`); the
    /// array's type carries the component type (`ArrayLayoutMismatch`); the
    /// name is a component id (`InvalidComponentId`); the packed bytes fill
    /// exactly `len` values (`ArrayLayoutMismatch`).
    pub fn from_series(series: &Series, component_type: ComponentType, asset: bool) -> (r:
        Result<Self, Error>)
        ensures
            component_type.primitive_ty == PrimitiveTy::Bool ==> r == Err::<Self, Error>(
                Error::Unsupported,
            ),
            component_type.primitive_ty != PrimitiveTy::Bool && !carries(
                series.data.data_type,
                component_type,
            ) ==> r == Err::<Self, Error>(Error::ArrayLayoutMismatch),
            component_type.primitive_ty != PrimitiveTy::Bool && carries(
                series.data.data_type,
                component_type,
            ) && !names_component(series.name@) ==> r == Err::<Self, Error>(
                Error::InvalidComponentId,
            ),
            component_type.primitive_ty != PrimitiveTy::Bool && carries(
                series.data.data_type,
                component_type,
            ) && names_component(series.name@) && !sized_for(
                flatten(series.data),
                series.len as nat,
                component_type,
            ) ==> r == Err::<Self, Error>(Error::ArrayLayoutMismatch),
            r is Ok <==> component_type.primitive_ty != PrimitiveTy::Bool && carries(
                series.data.data_type,
                component_type,
            ) && names_component(series.name@) && sized_for(
                flatten(series.data),
                series.len as nat,
                component_type,
            ),
            r matches Ok(c) ==> {
                &&& c.wf()
                &&& c.buf@ == flatten(series.data)
                &&& c.len == series.len
                &&& c.component_id.0 == decimal_value(series.name@)
                &&& c.component_type == component_type
                &&& c.asset == asset
            },
    {
        if component_type.primitive_ty == PrimitiveTy::Bool {
            return Err(Error::Unsupported);
        }
        let count = match component_type.element_count() {
            Some(n) => n,
            None => {
                return Err(Error::ArrayLayoutMismatch);
            },
        };
        let shaped = component_type.shape.len() > 0;
        let type_ok = match series.data.data_type {
            DataType::Primitive(k) => k == component_type.primitive_ty && !shaped,
            DataType::FixedSizeList(k, w) => k == component_type.primitive_ty && shaped && w
                == count,
        };
        if !type_ok {
            return Err(Error::ArrayLayoutMismatch);
        }
        let component_id = parse_component_id(series.name.as_slice())?;
        let buf = series.to_bytes();
        let fits = is_sized_for(buf.len(), series.len, &component_type);
        if !fits {
            return Err(Error::ArrayLayoutMismatch);
        }
        Ok(HostColumn { buf, len: series.len, component_id, component_type, asset })
    }

    /// The external array of this column: named by the component id in
    /// decimal, with one value per row and the column's bytes as its packed
    /// bytes. A boolean column is refused with `Unsupported`.
    pub fn to_series(&self) -> (r: Result<Series, Error>)
        requires
            self.wf(),
        ensures
            self.component_type.primitive_ty == PrimitiveTy::Bool <==> r is Err,
            r is Err ==> r == Err::<Series, Error>(Error::Unsupported),
            r matches Ok(s) ==> {
                &&& s.name@ == decimal_of(self.component_id.0 as nat)
                &&& s.len == self.len
                &&& carries(s.data.data_type, self.component_type)
                &&& flatten(s.data) == self.buf@
            },
    {
        if self.component_type.primitive_ty == PrimitiveTy::Bool {
            return Err(Error::Unsupported);
        }
        let count = match self.component_type.element_count() {
            Some(n) => n,
            None => {
                return Err(Error::Unsupported);
            },
        };
        let inner = primitive_array(self.component_type.primitive_ty, &self.buf);
        let data = tensor_array(&self.component_type, count, inner);
        let name = component_name(self.component_id);
        Ok(Series { name, len: self.len, data })
    }
}

/// Shape fidelity: the external array of a column carries one value per row;
/// a scalar column is a bare primitive array, and a column of shape `[w]` is
/// a fixed-size list of width `w`, so `[7]` gives one 7-element value per row.
pub proof fn lemma_shape_fidelity(c: HostColumn, s: Series)
    requires
        c.wf(),
        s.len == c.len,
        carries(s.data.data_type, c.component_type),
        flatten(s.data) == c.buf@,
    ensures
        c.component_type.shape@.len() == 0 ==> s.data.data_type == DataType::Primitive(
            c.component_type.primitive_ty,
        ),
        forall|w: usize|
            c.component_type.shape@ == seq![w] ==> s.data.data_type == DataType::FixedSizeList(
                c.component_type.primitive_ty,
                w,
            ),
        flatten(s.data).len() == s.len * c.component_type.row_size(),
{
    assert forall|w: usize| c.component_type.shape@ == seq![w] implies s.data.data_type
        == DataType::FixedSizeList(c.component_type.primitive_ty, w) by {
        let sh = c.component_type.shape@;
        assert(sh.drop_last() =~= Seq::<usize>::empty());
        assert(shape_product(sh) == shape_product(sh.drop_last()) * (w as nat));
    }
}

} // verus!
