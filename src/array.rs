use vstd::prelude::*;
use crate::component::PrimitiveTy;

verus! {

/// The logical type of an external array: a flat primitive array, or a
/// fixed-size list whose every value holds `width` primitive elements.
#[derive(Clone, Copy, Debug, PartialEq, Eq, Structural)]
pub enum DataType {
    Primitive(PrimitiveTy),
    FixedSizeList(PrimitiveTy, usize),
}

/// The neutral exchange description of an external array: a type tag, the
/// node's own value buffers, and its child arrays.
#[derive(Debug)]
pub struct ArrayData {
    pub data_type: DataType,
    pub buffers: Vec<Vec<u8>>,
    pub children: Vec<ArrayData>,
}

/// A named external array with its logical length (number of rows).
#[derive(Debug)]
pub struct Series {
    pub name: Vec<u8>,
    pub len: usize,
    pub data: ArrayData,
}

/// The buffers of one node, one after another.
pub open spec fn concat_buffers(bufs: Seq<Vec<u8>>) -> Seq<u8>
    decreases bufs.len(),
{
    if bufs.len() == 0 {
        Seq::empty()
    } else {
        concat_buffers(bufs.drop_last()) + bufs.last()@
    }
}

/// The packed bytes of an array: every child's packed bytes first, in order,
/// then the node's own buffers, with no framing between them.
pub open spec fn flatten(a: ArrayData) -> Seq<u8>
    decreases a, 1nat,
{
    flatten_children(a, a.children@.len() as int) + concat_buffers(a.buffers@)
}

/// The packed bytes of the first `k` children of `a`.
pub open spec fn flatten_children(a: ArrayData, k: int) -> Seq<u8>
    decreases a, 0nat, k,
{
    if k <= 0 || k > a.children@.len() {
        Seq::empty()
    } else {
        flatten_children(a, k - 1) + flatten(a.children@[k - 1])
    }
}

/// Appends all of `src` to `out`.
pub fn append_bytes(out: &mut Vec<u8>, src: &Vec<u8>)
    ensures
        final(out)@ == old(out)@ + src@,
{
    let mut i: usize = 0;
    while i < src.len()
        invariant
            i <= src@.len(),
            out@ == old(out)@ + src@.subrange(0, i as int),
        decreases src@.len() - i,
    {
        out.push(src[i]);
        i = i + 1;
        assert(out@ =~= old(out)@ + src@.subrange(0, i as int));
    }
    assert(src@.subrange(0, i as int) =~= src@);
}

/// Appends the packed bytes of `a` to `out`: children first, depth first,
/// then the node's own buffers.
pub fn recurse_array_data(a: &ArrayData, out: &mut Vec<u8>)
    ensures
        final(out)@ == old(out)@ + flatten(*a),
    decreases a,
{
    let ghost start = out@;
    let mut i: usize = 0;
    while i < a.children.len()
        invariant
            i <= a.children@.len(),
            out@ == start + flatten_children(*a, i as int),
        decreases a.children@.len() - i,
    {
        assert(decreases_to!(*a => a.children@[i as int]));
        recurse_array_data(&a.children[i], out);
        i = i + 1;
        assert(out@ =~= start + flatten_children(*a, i as int));
    }
    let ghost mid = out@;
    let mut j: usize = 0;
    while j < a.buffers.len()
        invariant
            j <= a.buffers@.len(),
            out@ == mid + concat_buffers(a.buffers@.subrange(0, j as int)),
        decreases a.buffers@.len() - j,
    {
        append_bytes(out, &a.buffers[j]);
        j = j + 1;
        assert(a.buffers@.subrange(0, j as int).drop_last() =~= a.buffers@.subrange(0, j as int - 1));
        assert(out@ =~= mid + concat_buffers(a.buffers@.subrange(0, j as int)));
    }
    assert(a.buffers@.subrange(0, j as int) =~= a.buffers@);
    assert(out@ =~= old(out)@ + flatten(*a));
}

impl Series {
    /// The packed bytes of this array, as one owned buffer.
    pub fn to_bytes(&self) -> (r: Vec<u8>)
        ensures
            r@ == flatten(self.data),
    {
        let mut out: Vec<u8> = Vec::new();
        recurse_array_data(&self.data, &mut out);
        assert(out@ =~= flatten(self.data));
        out
    }
}

} // verus!
