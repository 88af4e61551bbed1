use vstd::prelude::*;
use crate::array::{flatten, DataType, Series};
use crate::column::{carries, copy_type, is_sized_for, primitive_array, sized_for, HostColumn};
use crate::component::{shape_product, size_of_ty, ComponentId, ComponentType, EntityId, Error, PrimitiveTy};
use crate::entity::{check_entity_map, entity_map_wf, lemma_le_bytes_injective, lemma_u64_below_pow256, names_row, row_holds};
use crate::name::{component_name, decimal_of, entity_id_name, entity_name, lemma_component_name_round_trip};

verus! {

/// What the manifest records of one column: its component, its value type,
/// and whether its values are handles into the asset store.
#[derive(Debug)]
pub struct ColumnMetadata {
    pub component_id: ComponentId,
    pub component_type: ComponentType,
    pub asset: bool,
}

/// What the manifest records of one archetype: its columns in the order they
/// were emitted, and its entity map.
#[derive(Debug)]
pub struct ArchetypeMetadata {
    pub columns: Vec<ColumnMetadata>,
    pub entity_map: Vec<(EntityId, usize)>,
}

/// An external table: named external arrays in stored order.
#[derive(Debug)]
pub struct DataFrame {
    pub columns: Vec<Series>,
}

/// One archetype: a column per component, all of the same row count, the
/// entity id of each row (eight little-endian bytes per row) and the map
/// from entity to row.
#[derive(Debug)]
pub struct Table {
    pub columns: Vec<HostColumn>,
    pub entity_buffer: Vec<u8>,
    pub entity_map: Vec<(EntityId, usize)>,
}

/// Whether two component types are the same.
pub open spec fn same_type(a: ComponentType, b: ComponentType) -> bool {
    a.primitive_ty == b.primitive_ty && a.shape@ == b.shape@
}

/// The index of the first array of `s` named `name`, or -1 when none is.
pub open spec fn position(s: Seq<Series>, name: Seq<u8>) -> int
    decreases s.len(),
{
    if s.len() == 0 {
        -1
    } else {
        let p = position(s.drop_last(), name);
        if p >= 0 {
            p
        } else if s.last().name@ == name {
            s.len() - 1
        } else {
            -1
        }
    }
}

/// `position` finds the first array with the name, or says that none has it.
pub proof fn lemma_position(s: Seq<Series>, name: Seq<u8>)
    ensures
        -1 <= position(s, name) < s.len(),
        position(s, name) >= 0 ==> s[position(s, name)].name@ == name,
        forall|j: int|
            0 <= j < s.len() && (position(s, name) < 0 || j < position(s, name)) ==> (#[trigger] s[j]).name@
                != name,
    decreases s.len(),
{
    if s.len() > 0 {
        lemma_position(s.drop_last(), name);
        assert forall|j: int|
            0 <= j < s.len() && (position(s, name) < 0 || j < position(s, name)) implies (#[trigger] s[j]).name@
            != name by {
            if j < s.len() - 1 {
                assert(s[j] == s.drop_last()[j]);
            }
        }
    }
}

/// An array named `name` at `i`, with no earlier one so named, is the one
/// that `position` finds.
pub proof fn lemma_position_first(s: Seq<Series>, name: Seq<u8>, i: int)
    requires
        0 <= i < s.len(),
        s[i].name@ == name,
        forall|j: int| 0 <= j < i ==> (#[trigger] s[j]).name@ != name,
    ensures
        position(s, name) == i,
{
    lemma_position(s, name);
}

/// Whether `meta` describes an array that loads as a column of `rows` rows.
pub open spec fn column_loads(s: Series, meta: ColumnMetadata, rows: nat) -> bool {
    &&& meta.component_type.primitive_ty != PrimitiveTy::Bool
    &&& carries(s.data.data_type, meta.component_type)
    &&& sized_for(flatten(s.data), s.len as nat, meta.component_type)
    &&& s.len == rows
}

/// Whether an external table and its manifest entry load as a table: an
/// entity-id column of `u64` values; for each listed column an array named
/// by its component id that loads; no component listed twice; and an entity
/// map that is a bijection onto the rows.
pub open spec fn loadable(df: DataFrame, meta: ArchetypeMetadata) -> bool {
    let cols = df.columns@;
    let e = position(cols, entity_id_name());
    &&& e >= 0
    &&& cols[e].data.data_type == DataType::Primitive(PrimitiveTy::U64)
    &&& flatten(cols[e].data).len() == 8 * cols[e].len
    &&& forall|i: int|
        0 <= i < meta.columns@.len() ==> position(cols, decimal_of((#[trigger] meta.columns@[i]).component_id.0 as nat))
            >= 0 && column_loads(
            cols[position(cols, decimal_of(meta.columns@[i].component_id.0 as nat))],
            meta.columns@[i],
            cols[e].len as nat,
        )
    &&& forall|i: int, j: int|
        0 <= i < j < meta.columns@.len() ==> (#[trigger] meta.columns@[i]).component_id != (#[trigger] meta.columns@[j]).component_id
    &&& entity_map_wf(meta.entity_map@, flatten(cols[e].data), cols[e].len as nat)
}

/// Whether `t` is the table that `df` and `meta` load as: the entity
/// buffer and map as stored, and for each listed column, in the manifest's
/// order, the bytes of the array named by its component id.
pub open spec fn imported(df: DataFrame, meta: ArchetypeMetadata, t: Table) -> bool {
    let cols = df.columns@;
    let e = position(cols, entity_id_name());
    &&& t.wf()
    &&& t.entity_buffer@ == flatten(cols[e].data)
    &&& t.entity_map@ == meta.entity_map@
    &&& t.columns@.len() == meta.columns@.len()
    &&& forall|i: int|
        0 <= i < t.columns@.len() ==> {
            let p = position(cols, decimal_of(meta.columns@[i].component_id.0 as nat));
            &&& (#[trigger] t.columns@[i]).buf@ == flatten(cols[p].data)
            &&& t.columns@[i].len == cols[p].len
            &&& t.columns@[i].component_id == meta.columns@[i].component_id
            &&& same_type(t.columns@[i].component_type, meta.columns@[i].component_type)
            &&& t.columns@[i].asset == meta.columns@[i].asset
        }
}

/// Whether `df` and `meta` are the export of `t`: one array per column, in
/// order, named by the component id and holding the column's bytes, with
/// its type and asset flag in `meta`; then the entity-id column; and the
/// entity map as it is.
pub open spec fn exported(t: Table, meta: ArchetypeMetadata, df: DataFrame) -> bool {
    let n = t.columns@.len();
    let cols = df.columns@;
    &&& cols.len() == n + 1
    &&& meta.columns@.len() == n
    &&& forall|i: int|
        0 <= i < n ==> {
            &&& (#[trigger] cols[i]).name@ == decimal_of(t.columns@[i].component_id.0 as nat)
            &&& cols[i].len == t.columns@[i].len
            &&& carries(cols[i].data.data_type, t.columns@[i].component_type)
            &&& flatten(cols[i].data) == t.columns@[i].buf@
            &&& meta.columns@[i].component_id == t.columns@[i].component_id
            &&& same_type(meta.columns@[i].component_type, t.columns@[i].component_type)
            &&& meta.columns@[i].asset == t.columns@[i].asset
        }
    &&& cols[n as int].name@ == entity_id_name()
    &&& cols[n as int].len == t.rows()
    &&& cols[n as int].data.data_type == DataType::Primitive(PrimitiveTy::U64)
    &&& flatten(cols[n as int].data) == t.entity_buffer@
    &&& meta.entity_map@ == t.entity_map@
}

/// Whether two byte buffers are equal.
pub fn same_bytes(a: &Vec<u8>, b: &Vec<u8>) -> (r: bool)
    ensures
        r == (a@ == b@),
{
    if a.len() != b.len() {
        return false;
    }
    let mut i: usize = 0;
    while i < a.len()
        invariant
            i <= a@.len(),
            a@.len() == b@.len(),
            forall|j: int| 0 <= j < i ==> a@[j] == b@[j],
        decreases a@.len() - i,
    {
        if a[i] != b[i] {
            return false;
        }
        i = i + 1;
    }
    assert(a@ =~= b@);
    true
}

/// The index of the first array named `name`.
pub fn find_series(cols: &Vec<Series>, name: &Vec<u8>) -> (r: Option<usize>)
    ensures
        r matches Some(p) ==> p == position(cols@, name@),
        r is None ==> position(cols@, name@) == -1,
{
    proof {
        lemma_position(cols@, name@);
    }
    let mut i: usize = 0;
    while i < cols.len()
        invariant
            i <= cols@.len(),
            forall|j: int| 0 <= j < i ==> (#[trigger] cols@[j]).name@ != name@,
        decreases cols@.len() - i,
    {
        if same_bytes(&cols[i].name, name) {
            proof {
                lemma_position_first(cols@, name@, i as int);
            }
            return Some(i);
        }
        i = i + 1;
    }
    None
}

impl Table {
    /// The number of rows.
    pub open spec fn rows(&self) -> nat {
        self.entity_buffer@.len() / 8
    }

    /// Every column is sized for the table's rows, no component has two
    /// columns, and the entity map is a bijection onto the rows.
    pub open spec fn wf(&self) -> bool {
        &&& self.entity_buffer@.len() % 8 == 0
        &&& forall|i: int|
            0 <= i < self.columns@.len() ==> (#[trigger] self.columns@[i]).wf()
                && self.columns@[i].len == self.rows()
        &&& forall|i: int, j: int|
            0 <= i < j < self.columns@.len() ==> (#[trigger] self.columns@[i]).component_id
                != (#[trigger] self.columns@[j]).component_id
        &&& entity_map_wf(self.entity_map@, self.entity_buffer@, self.rows())
    }

    /// Checks that the table is well formed.
    pub fn is_valid(&self) -> (r: bool)
        ensures
            r == self.wf(),
    {
        let blen = self.entity_buffer.len();
        if blen % 8 != 0 {
            return false;
        }
        let rows = blen / 8;
        let mut i: usize = 0;
        while i < self.columns.len()
            invariant
                i <= self.columns@.len(),
                rows == self.rows(),
                forall|j: int| 0 <= j < i ==> (#[trigger] self.columns@[j]).wf() && self.columns@[j].len == rows,
                forall|j: int, l: int|
                    0 <= j < l < i ==> (#[trigger] self.columns@[j]).component_id != (#[trigger] self.columns@[l]).component_id,
            decreases self.columns@.len() - i,
        {
            let c = &self.columns[i];
            if c.len != rows || !is_sized_for(c.buf.len(), c.len, &c.component_type) {
                return false;
            }
            let mut j: usize = 0;
            while j < i
                invariant
                    j <= i,
                    i < self.columns@.len(),
                    c == self.columns@[i as int],
                    forall|l: int| 0 <= l < j ==> (#[trigger] self.columns@[l]).component_id != c.component_id,
                decreases i - j,
            {
                if self.columns[j].component_id.0 == c.component_id.0 {
                    proof {
                        let a = self.columns@[j as int];
                        assert(a.component_id == c.component_id);
                    }
                    return false;
                }
                j = j + 1;
            }
            i = i + 1;
        }
        check_entity_map(&self.entity_map, &self.entity_buffer, rows)
    }

    /// Whether some column holds booleans, which have no external form.
    pub open spec fn has_bool(&self) -> bool {
        exists|i: int|
            0 <= i < self.columns@.len() && (#[trigger] self.columns@[i]).component_type.primitive_ty
                == PrimitiveTy::Bool
    }

    /// Converts the table to an external table and its manifest entry: one
    /// array per column in order, then the entity-id column. Refused with
    /// `Unsupported` when a column holds booleans.
    pub fn to_polars(&self) -> (r: Result<(ArchetypeMetadata, DataFrame), Error>)
        requires
            self.wf(),
        ensures
            r is Ok <==> !self.has_bool(),
            r is Err ==> r == Err::<(ArchetypeMetadata, DataFrame), Error>(Error::Unsupported),
            r matches Ok((m, df)) ==> exported(*self, m, df),
    {
        let mut series: Vec<Series> = Vec::new();
        let mut metas: Vec<ColumnMetadata> = Vec::new();
        let mut i: usize = 0;
        while i < self.columns.len()
            invariant
                self.wf(),
                i <= self.columns@.len(),
                series@.len() == i,
                metas@.len() == i,
                forall|j: int| 0 <= j < i ==> (#[trigger] self.columns@[j]).component_type.primitive_ty != PrimitiveTy::Bool,
                forall|j: int|
                    0 <= j < i ==> {
                        &&& (#[trigger] series@[j]).name@ == decimal_of(self.columns@[j].component_id.0 as nat)
                        &&& series@[j].len == self.columns@[j].len
                        &&& carries(series@[j].data.data_type, self.columns@[j].component_type)
                        &&& flatten(series@[j].data) == self.columns@[j].buf@
                        &&& metas@[j].component_id == self.columns@[j].component_id
                        &&& same_type(metas@[j].component_type, self.columns@[j].component_type)
                        &&& metas@[j].asset == self.columns@[j].asset
                    },
            decreases self.columns@.len() - i,
        {
            let c = &self.columns[i];
            assert(c.wf());
            let s = match c.to_series() {
                Ok(s) => s,
                Err(e) => {
                    return Err(e);
                },
            };
            series.push(s);
            metas.push(
                ColumnMetadata {
                    component_id: c.component_id,
                    component_type: copy_type(&c.component_type),
                    asset: c.asset,
                },
            );
            i = i + 1;
        }
        let rows = self.entity_buffer.len() / 8;
        let entity = Series {
            name: entity_name(),
            len: rows,
            data: primitive_array(PrimitiveTy::U64, &self.entity_buffer),
        };
        series.push(entity);
        let mut entity_map: Vec<(EntityId, usize)> = Vec::new();
        let mut k: usize = 0;
        while k < self.entity_map.len()
            invariant
                k <= self.entity_map@.len(),
                entity_map@ == self.entity_map@.subrange(0, k as int),
            decreases self.entity_map@.len() - k,
        {
            entity_map.push(self.entity_map[k]);
            k = k + 1;
            assert(entity_map@ =~= self.entity_map@.subrange(0, k as int));
        }
        assert(entity_map@ =~= self.entity_map@);
        let meta = ArchetypeMetadata { columns: metas, entity_map };
        let df = DataFrame { columns: series };
        assert forall|j: int| 0 <= j < self.columns@.len() implies (#[trigger] df.columns@[j]).name@
            == decimal_of(self.columns@[j].component_id.0 as nat) by {
            assert(df.columns@[j] == series@[j]);
        }
        Ok((meta, df))
    }

    /// Rebuilds a table from an external table and its manifest entry. The
    /// entity-id column is found by its reserved name, and each listed column
    /// by its component id's decimal name, so the stored order of the arrays
    /// does not matter. The entity map is taken from the manifest once it is
    /// checked to be a bijection onto the rows.
    pub fn from_dataframe(df: &DataFrame, metadata: &ArchetypeMetadata) -> (r: Result<Self, Error>)
        ensures
            r is Ok <==> loadable(*df, *metadata),
            r matches Ok(t) ==> imported(*df, *metadata, t),
            position(df.columns@, entity_id_name()) < 0 ==> r == Err::<Self, Error>(
                Error::MissingEntityColumn,
            ),
            ({
                let e = position(df.columns@, entity_id_name());
                e >= 0 && (df.columns@[e].data.data_type != DataType::Primitive(PrimitiveTy::U64)
                    || flatten(df.columns@[e].data).len() != 8 * df.columns@[e].len)
            }) ==> r == Err::<Self, Error>(Error::ArrayLayoutMismatch),
    {
        proof {
            lemma_position(df.columns@, entity_id_name());
        }
        let ename = entity_name();
        let e = match find_series(&df.columns, &ename) {
            Some(e) => e,
            None => {
                return Err(Error::MissingEntityColumn);
            },
        };
        let es = &df.columns[e];
        if es.data.data_type != DataType::Primitive(PrimitiveTy::U64) {
            return Err(Error::ArrayLayoutMismatch);
        }
        let entity_buffer = es.to_bytes();
        let rows = es.len;
        if entity_buffer.len() / 8 != rows || entity_buffer.len() % 8 != 0 {
            return Err(Error::ArrayLayoutMismatch);
        }
        let mut columns: Vec<HostColumn> = Vec::new();
        let mut i: usize = 0;
        while i < metadata.columns.len()
            invariant
                i <= metadata.columns@.len(),
                e == position(df.columns@, entity_id_name()),
                0 <= e < df.columns@.len(),
                entity_buffer@ == flatten(df.columns@[e as int].data),
                df.columns@[e as int].data.data_type == DataType::Primitive(PrimitiveTy::U64),
                rows == df.columns@[e as int].len,
                entity_buffer@.len() == 8 * rows,
                columns@.len() == i,
                forall|j: int|
                    0 <= j < i ==> position(df.columns@, decimal_of((#[trigger] metadata.columns@[j]).component_id.0 as nat))
                        >= 0 && column_loads(
                        df.columns@[position(df.columns@, decimal_of(metadata.columns@[j].component_id.0 as nat))],
                        metadata.columns@[j],
                        rows as nat,
                    ),
                forall|j: int, l: int|
                    0 <= j < l < i ==> (#[trigger] metadata.columns@[j]).component_id != (#[trigger] metadata.columns@[l]).component_id,
                forall|j: int|
                    0 <= j < i ==> {
                        let p = position(df.columns@, decimal_of(metadata.columns@[j].component_id.0 as nat));
                        &&& (#[trigger] columns@[j]).wf()
                        &&& columns@[j].buf@ == flatten(df.columns@[p].data)
                        &&& columns@[j].len == df.columns@[p].len
                        &&& columns@[j].len == rows
                        &&& columns@[j].component_id == metadata.columns@[j].component_id
                        &&& same_type(columns@[j].component_type, metadata.columns@[j].component_type)
                        &&& columns@[j].asset == metadata.columns@[j].asset
                    },
            decreases metadata.columns@.len() - i,
        {
            let cm = &metadata.columns[i];
            let name = component_name(cm.component_id);
            proof {
                lemma_component_name_round_trip(cm.component_id);
            }
            let p = match find_series(&df.columns, &name) {
                Some(p) => p,
                None => {
                    return Err(Error::ComponentNotFound);
                },
            };
            proof {
                lemma_position(df.columns@, name@);
            }
            let s = &df.columns[p];
            let ty = copy_type(&cm.component_type);
            let ghost gty = ty;
            let column = match HostColumn::from_series(s, ty, cm.asset) {
                Ok(c) => c,
                Err(err) => {
                    proof {
                        assert(same_type(gty, cm.component_type));
                        assert(gty.count() == cm.component_type.count());
                        if loadable(*df, *metadata) {
                            assert(column_loads(df.columns@[p as int], metadata.columns@[i as int], rows as nat));
                        }
                    }
                    return Err(err);
                },
            };
            if column.len != rows {
                proof {
                    if loadable(*df, *metadata) {
                        assert(column_loads(df.columns@[p as int], metadata.columns@[i as int], rows as nat));
                    }
                }
                return Err(Error::ArrayLayoutMismatch);
            }
            let mut j: usize = 0;
            while j < i
                invariant
                    j <= i,
                    i < metadata.columns@.len(),
                    cm == metadata.columns@[i as int],
                    e == position(df.columns@, entity_id_name()),
                    0 <= e,
                    forall|l: int| 0 <= l < j ==> (#[trigger] metadata.columns@[l]).component_id != cm.component_id,
                decreases i - j,
            {
                if metadata.columns[j].component_id.0 == cm.component_id.0 {
                    proof {
                        let a = metadata.columns@[j as int];
                        let b = metadata.columns@[i as int];
                        assert(a.component_id == b.component_id);
                    }
                    return Err(Error::ArrayLayoutMismatch);
                }
                j = j + 1;
            }
            columns.push(column);
            i = i + 1;
        }
        let mut entity_map: Vec<(EntityId, usize)> = Vec::new();
        let mut k: usize = 0;
        while k < metadata.entity_map.len()
            invariant
                k <= metadata.entity_map@.len(),
                entity_map@ == metadata.entity_map@.subrange(0, k as int),
            decreases metadata.entity_map@.len() - k,
        {
            entity_map.push(metadata.entity_map[k]);
            k = k + 1;
            assert(entity_map@ =~= metadata.entity_map@.subrange(0, k as int));
        }
        assert(entity_map@ =~= metadata.entity_map@);
        if !check_entity_map(&entity_map, &entity_buffer, rows) {
            return Err(Error::ArrayLayoutMismatch);
        }
        let t = Table { columns, entity_buffer, entity_map };
        assert(t.rows() == rows);
        Ok(t)
    }
}

/// Whether two tables hold the same entity buffer, entity map and columns:
/// in order, the same component, type, asset flag, row count and bytes.
pub open spec fn same_table(a: Table, b: Table) -> bool {
    &&& a.entity_buffer@ == b.entity_buffer@
    &&& a.entity_map@ == b.entity_map@
    &&& a.columns@.len() == b.columns@.len()
    &&& forall|i: int|
        0 <= i < b.columns@.len() ==> {
            &&& (#[trigger] a.columns@[i]).buf@ == b.columns@[i].buf@
            &&& a.columns@[i].len == b.columns@[i].len
            &&& a.columns@[i].component_id == b.columns@[i].component_id
            &&& same_type(a.columns@[i].component_type, b.columns@[i].component_type)
            &&& a.columns@[i].asset == b.columns@[i].asset
        }
}

/// Exporting a table always gives an external table that loads: the
/// entity-id column is found, every column is found under its component id,
/// and the entity map is a bijection onto the rows.
pub proof fn lemma_export_loadable(t: Table, meta: ArchetypeMetadata, df: DataFrame)
    requires
        t.wf(),
        !t.has_bool(),
        exported(t, meta, df),
    ensures
        loadable(df, meta),
        position(df.columns@, entity_id_name()) == t.columns@.len(),
        forall|i: int|
            0 <= i < t.columns@.len() ==> position(
                df.columns@,
                decimal_of((#[trigger] t.columns@[i]).component_id.0 as nat),
            ) == i,
{
    let cols = df.columns@;
    let n = t.columns@.len() as int;
    assert forall|j: int| 0 <= j < n implies (#[trigger] cols[j]).name@ != entity_id_name() by {
        lemma_component_name_round_trip(t.columns@[j].component_id);
    }
    lemma_position_first(cols, entity_id_name(), n);
    assert forall|i: int| 0 <= i < n implies position(
        cols,
        decimal_of((#[trigger] t.columns@[i]).component_id.0 as nat),
    ) == i by {
        let name = decimal_of(t.columns@[i].component_id.0 as nat);
        assert forall|j: int| 0 <= j < i implies (#[trigger] cols[j]).name@ != name by {
            lemma_component_name_round_trip(t.columns@[j].component_id);
            lemma_component_name_round_trip(t.columns@[i].component_id);
            assert(t.columns@[j].component_id != t.columns@[i].component_id);
        }
        lemma_position_first(cols, name, i);
    }
    assert forall|i: int| 0 <= i < meta.columns@.len() implies position(
        cols,
        decimal_of((#[trigger] meta.columns@[i]).component_id.0 as nat),
    ) >= 0 && column_loads(
        cols[position(cols, decimal_of(meta.columns@[i].component_id.0 as nat))],
        meta.columns@[i],
        cols[n].len as nat,
    ) by {
        let c = t.columns@[i];
        assert(c.wf());
        assert(cols[i].name@ == decimal_of(c.component_id.0 as nat));
        assert(position(cols, decimal_of(c.component_id.0 as nat)) == i);
        assert(c.component_type.primitive_ty != PrimitiveTy::Bool);
        assert(c.component_type.count() == meta.columns@[i].component_type.count());
    }
    assert forall|i: int, j: int| 0 <= i < j < meta.columns@.len() implies (#[trigger] meta.columns@[i]).component_id
        != (#[trigger] meta.columns@[j]).component_id by {
        assert(cols[i].len == t.columns@[i].len);
        assert(cols[j].len == t.columns@[j].len);
        assert(t.columns@[i].component_id != t.columns@[j].component_id);
    }
}

/// Round trip of one archetype: loading the export of a table gives back
/// its entity buffer, its entity map, and each column's component, type,
/// asset flag, row count and bytes, in order.
pub proof fn lemma_table_round_trip(t: Table, meta: ArchetypeMetadata, df: DataFrame, back: Table)
    requires
        t.wf(),
        !t.has_bool(),
        exported(t, meta, df),
        imported(df, meta, back),
    ensures
        loadable(df, meta),
        same_table(back, t),
{
    lemma_export_loadable(t, meta, df);
    assert forall|i: int| 0 <= i < t.columns@.len() implies {
        &&& (#[trigger] back.columns@[i]).buf@ == t.columns@[i].buf@
        &&& back.columns@[i].len == t.columns@[i].len
        &&& back.columns@[i].component_id == t.columns@[i].component_id
        &&& same_type(back.columns@[i].component_type, t.columns@[i].component_type)
        &&& back.columns@[i].asset == t.columns@[i].asset
    } by {
        assert(df.columns@[i].name@ == decimal_of(t.columns@[i].component_id.0 as nat));
        assert(position(df.columns@, decimal_of(t.columns@[i].component_id.0 as nat)) == i);
    }
}

/// Every column of a well-formed table holds exactly
/// `rows * element size * product(shape)` bytes.
pub proof fn lemma_buffer_sizing(t: Table)
    requires
        t.wf(),
    ensures
        forall|i: int|
            0 <= i < t.columns@.len() ==> (#[trigger] t.columns@[i]).buf@.len() == t.rows() * (
            size_of_ty(t.columns@[i].component_type.primitive_ty) * shape_product(
                t.columns@[i].component_type.shape@,
            )),
{
    assert forall|i: int| 0 <= i < t.columns@.len() implies (#[trigger] t.columns@[i]).buf@.len()
        == t.rows() * (size_of_ty(t.columns@[i].component_type.primitive_ty) * shape_product(
        t.columns@[i].component_type.shape@,
    )) by {
        assert(t.columns@[i].wf());
    }
}

/// The entity ids that the entity buffer of `t` holds.
pub open spec fn buffer_entities(t: Table) -> Set<EntityId> {
    Set::new(|e: EntityId| exists|r: int| 0 <= r < t.rows() && #[trigger] row_holds(t.entity_buffer@, r, e))
}

/// The keys of an entity map.
pub open spec fn map_keys(m: Seq<(EntityId, usize)>) -> Set<EntityId> {
    Set::new(|e: EntityId| exists|i: int| 0 <= i < m.len() && (#[trigger] m[i]).0 == e)
}

/// The rows that an entity map names.
pub open spec fn map_rows(m: Seq<(EntityId, usize)>) -> Set<int> {
    Set::new(|r: int| exists|i: int| 0 <= i < m.len() && (#[trigger] m[i]).1 == r)
}

/// In a well-formed table the entity map's keys are exactly the entity ids
/// in the entity buffer, and its rows are exactly `0..rows`, each named once.
pub proof fn lemma_entity_map_bijection(t: Table)
    requires
        t.wf(),
    ensures
        map_keys(t.entity_map@) =~= buffer_entities(t),
        map_rows(t.entity_map@) =~= Set::new(|r: int| 0 <= r < t.rows()),
        forall|i: int, j: int|
            0 <= i < t.entity_map@.len() && 0 <= j < t.entity_map@.len() && i != j ==> (#[trigger] t.entity_map@[i]).1
                != (#[trigger] t.entity_map@[j]).1,
{
    let m = t.entity_map@;
    let buf = t.entity_buffer@;
    assert forall|e: EntityId| map_keys(m).contains(e) implies buffer_entities(t).contains(e) by {
        let i = choose|i: int| 0 <= i < m.len() && (#[trigger] m[i]).0 == e;
        assert(row_holds(buf, m[i].1 as int, e));
    }
    assert forall|e: EntityId| buffer_entities(t).contains(e) implies map_keys(m).contains(e) by {
        let r = choose|r: int| 0 <= r < t.rows() && #[trigger] row_holds(buf, r, e);
        assert(names_row(m, r));
        let i = choose|i: int| 0 <= i < m.len() && (#[trigger] m[i]).1 == r;
        assert(row_holds(buf, r, m[i].0));
        lemma_u64_below_pow256(e.0);
        lemma_u64_below_pow256(m[i].0.0);
        lemma_le_bytes_injective(e.0 as nat, m[i].0.0 as nat, 8);
    }
    assert forall|r: int| 0 <= r < t.rows() implies map_rows(m).contains(r) by {
        assert(names_row(m, r));
    }
    assert forall|r: int| map_rows(m).contains(r) implies 0 <= r < t.rows() by {
        let i = choose|i: int| 0 <= i < m.len() && (#[trigger] m[i]).1 == r;
        assert(m[i].1 < t.rows());
    }
}

} // verus!
