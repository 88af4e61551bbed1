use vstd::prelude::*;

verus! {

/// Identifies a component kind within a world; its decimal form names the
/// component's column in every external table.
#[derive(Clone, Copy, Debug, PartialEq, Eq, Structural)]
pub struct ComponentId(pub u64);

/// Identifies one entity within a world.
#[derive(Clone, Copy, Debug, PartialEq, Eq, Structural)]
pub struct EntityId(pub u64);

/// Identifies one archetype: a set of components that co-occur on entities.
#[derive(Clone, Copy, Debug, PartialEq, Eq, Structural)]
pub struct ArchetypeId(pub u64);

/// The errors of conversion, snapshot assembly and column lookup.
#[derive(Clone, Copy, Debug, PartialEq, Eq, Structural)]
pub enum Error {
    ComponentNotFound,
    InvalidComponentId,
    MissingEntityColumn,
    MissingArchetypeFile,
    ArrayLayoutMismatch,
    Unsupported,
}

/// The primitive kind of one element of a component value.
#[derive(Clone, Copy, Debug, PartialEq, Eq, Structural)]
pub enum PrimitiveTy {
    U8,
    U16,
    U32,
    U64,
    I8,
    I16,
    I32,
    I64,
    F32,
    F64,
    Bool,
}

/// Byte width of one element of the given kind; booleans take one byte.
pub open spec fn size_of_ty(ty: PrimitiveTy) -> nat {
    match ty {
        PrimitiveTy::U8 | PrimitiveTy::I8 | PrimitiveTy::Bool => 1,
        PrimitiveTy::U16 | PrimitiveTy::I16 => 2,
        PrimitiveTy::U32 | PrimitiveTy::I32 | PrimitiveTy::F32 => 4,
        PrimitiveTy::U64 | PrimitiveTy::I64 | PrimitiveTy::F64 => 8,
    }
}

impl PrimitiveTy {
    /// The fixed byte width of one element of this kind.
    pub fn element_size(&self) -> (r: usize)
        ensures
            r == size_of_ty(*self),
    {
        match self {
            PrimitiveTy::U8 | PrimitiveTy::I8 | PrimitiveTy::Bool => 1,
            PrimitiveTy::U16 | PrimitiveTy::I16 => 2,
            PrimitiveTy::U32 | PrimitiveTy::I32 | PrimitiveTy::F32 => 4,
            PrimitiveTy::U64 | PrimitiveTy::I64 | PrimitiveTy::F64 => 8,
        }
    }
}

/// The product of the dimension sizes; 1 for the empty shape of a scalar.
pub open spec fn shape_product(shape: Seq<usize>) -> nat
    decreases shape.len(),
{
    if shape.len() == 0 {
        1
    } else {
        shape_product(shape.drop_last()) * (shape.last() as nat)
    }
}

/// The declared value type of a component: a primitive kind and a shape.
#[derive(Debug)]
pub struct ComponentType {
    pub primitive_ty: PrimitiveTy,
    pub shape: Vec<usize>,
}

impl ComponentType {
    /// Number of elements in one value of this type.
    pub open spec fn count(&self) -> nat {
        shape_product(self.shape@)
    }

    /// Bytes that one value (one row) of this type takes.
    pub open spec fn row_size(&self) -> nat {
        size_of_ty(self.primitive_ty) * self.count()
    }

    /// A scalar `u64`, the type of the entity-id column.
    pub fn u64() -> (r: Self)
        ensures
            r.primitive_ty == PrimitiveTy::U64,
            r.shape@.len() == 0,
    {
        ComponentType { primitive_ty: PrimitiveTy::U64, shape: Vec::new() }
    }

    /// Number of elements in one value, or `None` when it does not fit a `usize`.
    pub fn element_count(&self) -> (r: Option<usize>)
        ensures
            r matches Some(n) ==> n == self.count(),
            r is None ==> self.count() > usize::MAX,
    {
        let mut z: usize = 0;
        while z < self.shape.len()
            invariant
                z <= self.shape@.len(),
                forall|j: int| 0 <= j < z ==> self.shape@[j] != 0,
            decreases self.shape@.len() - z,
        {
            if self.shape[z] == 0 {
                proof {
                    lemma_product_zero(self.shape@, z as int);
                }
                return Some(0);
            }
            z = z + 1;
        }
        let mut n: usize = 1;
        let mut i: usize = 0;
        while i < self.shape.len()
            invariant
                i <= self.shape@.len(),
                forall|j: int| 0 <= j < self.shape@.len() ==> self.shape@[j] != 0,
                n == shape_product(self.shape@.subrange(0, i as int)),
            decreases self.shape@.len() - i,
        {
            let ghost prefix = self.shape@.subrange(0, i as int + 1);
            assert(prefix.drop_last() =~= self.shape@.subrange(0, i as int));
            match n.checked_mul(self.shape[i]) {
                Some(m) => {
                    n = m;
                },
                None => {
                    proof {
                        lemma_product_grows(self.shape@, i as int + 1);
                    }
                    return None;
                },
            }
            i = i + 1;
        }
        assert(self.shape@.subrange(0, i as int) =~= self.shape@);
        Some(n)
    }
}

/// With no zero dimension, once a prefix's product exceeds a bound the whole
/// product does too.
pub proof fn lemma_product_grows(shape: Seq<usize>, k: int)
    requires
        0 <= k <= shape.len(),
        shape_product(shape.subrange(0, k)) > usize::MAX,
        forall|j: int| 0 <= j < shape.len() ==> shape[j] != 0,
    ensures
        shape_product(shape) > usize::MAX,
    decreases shape.len() - k,
{
    if k == shape.len() {
        assert(shape.subrange(0, k) =~= shape);
    } else {
        let p = shape_product(shape.subrange(0, k));
        assert(shape.subrange(0, k + 1).drop_last() =~= shape.subrange(0, k));
        let d = shape[k] as nat;
        assert(p * d >= p) by (nonlinear_arith)
            requires
                d >= 1,
        ;
        lemma_product_grows(shape, k + 1);
    }
}

/// A zero dimension makes the product zero.
pub proof fn lemma_product_zero(shape: Seq<usize>, j: int)
    requires
        0 <= j < shape.len(),
        shape[j] == 0,
    ensures
        shape_product(shape) == 0,
    decreases shape.len(),
{
    if j == shape.len() - 1 {
        assert(shape_product(shape) == shape_product(shape.drop_last()) * 0);
    } else {
        lemma_product_zero(shape.drop_last(), j);
        assert(shape_product(shape) == 0 * (shape.last() as nat));
    }
}

} // verus!
