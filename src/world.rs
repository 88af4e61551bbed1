use vstd::prelude::*;
use crate::array::{flatten, Series};
use crate::column::copy_bytes;
use crate::component::{ArchetypeId, ComponentId, Error};
use crate::name::{component_name, decimal_of, entity_id_name, entity_name};
use crate::table::{
    exported, find_series, imported, lemma_export_loadable, lemma_position, lemma_table_round_trip,
    loadable, position, same_table, ArchetypeMetadata, DataFrame, Table,
};

verus! {

/// The manifest of a snapshot: each archetype's metadata, the component
/// index, the tick and the entity count.
#[derive(Debug)]
pub struct Metadata {
    pub archetypes: Vec<(ArchetypeId, ArchetypeMetadata)>,
    pub component_map: Vec<(ComponentId, ArchetypeId)>,
    pub tick: u64,
    pub entity_len: u64,
}

/// A world in external form: one external table per archetype, the
/// manifest, and the encoded asset store.
#[derive(Debug)]
pub struct PolarsWorld {
    pub archetypes: Vec<(ArchetypeId, DataFrame)>,
    pub metadata: Metadata,
    pub assets: Vec<u8>,
}

/// A live world: its archetype tables, the index from component to the
/// archetype that holds it, the encoded asset store, the tick and the
/// entity count.
#[derive(Debug)]
pub struct World {
    pub archetypes: Vec<(ArchetypeId, Table)>,
    pub component_map: Vec<(ComponentId, ArchetypeId)>,
    pub assets: Vec<u8>,
    pub tick: u64,
    pub entity_len: u64,
}

/// Copies a vector of plain values.
pub fn copy_vec<T: Copy>(v: &Vec<T>) -> (r: Vec<T>)
    ensures
        r@ == v@,
{
    let mut out: Vec<T> = Vec::new();
    let mut k: usize = 0;
    while k < v.len()
        invariant
            k <= v@.len(),
            out@ == v@.subrange(0, k as int),
        decreases v@.len() - k,
    {
        out.push(v[k]);
        k = k + 1;
        assert(out@ =~= v@.subrange(0, k as int));
    }
    assert(out@ =~= v@);
    out
}

/// The index of the first entry of `s` with key `id`, or -1.
pub open spec fn key_position<V>(s: Seq<(ArchetypeId, V)>, id: ArchetypeId) -> int
    decreases s.len(),
{
    if s.len() == 0 {
        -1
    } else {
        let p = key_position(s.drop_last(), id);
        if p >= 0 {
            p
        } else if s.last().0 == id {
            s.len() - 1
        } else {
            -1
        }
    }
}

/// `key_position` finds the first entry with the key, or says none has it.
pub proof fn lemma_key_position<V>(s: Seq<(ArchetypeId, V)>, id: ArchetypeId)
    ensures
        -1 <= key_position(s, id) < s.len(),
        key_position(s, id) >= 0 ==> s[key_position(s, id)].0 == id,
        forall|j: int|
            0 <= j < s.len() && (key_position(s, id) < 0 || j < key_position(s, id)) ==> (#[trigger] s[j]).0 != id,
    decreases s.len(),
{
    if s.len() > 0 {
        lemma_key_position(s.drop_last(), id);
        assert forall|j: int|
            0 <= j < s.len() && (key_position(s, id) < 0 || j < key_position(s, id)) implies (#[trigger] s[j]).0
            != id by {
            if j < s.len() - 1 {
                assert(s[j] == s.drop_last()[j]);
            }
        }
    }
}

/// The index of the first entry with key `id`.
pub fn find_frame(s: &Vec<(ArchetypeId, DataFrame)>, id: ArchetypeId) -> (r: Option<usize>)
    ensures
        r matches Some(p) ==> p == key_position(s@, id),
        r is None ==> key_position(s@, id) == -1,
{
    proof {
        lemma_key_position(s@, id);
    }
    let mut i: usize = 0;
    while i < s.len()
        invariant
            i <= s@.len(),
            forall|j: int| 0 <= j < i ==> (#[trigger] s@[j]).0 != id,
        decreases s@.len() - i,
    {
        if s[i].0.0 == id.0 {
            proof {
                lemma_key_position(s@, id);
                if key_position(s@, id) >= 0 && key_position(s@, id) < i {
                    assert(s@[key_position(s@, id)].0 == id);
                }
            }
            return Some(i);
        }
        i = i + 1;
    }
    None
}

/// Whether every archetype of the manifest has an external table.
pub open spec fn all_present(p: PolarsWorld) -> bool {
    forall|i: int|
        0 <= i < p.metadata.archetypes@.len() ==> key_position(
            p.archetypes@,
            (#[trigger] p.metadata.archetypes@[i]).0,
        ) >= 0
}

/// Whether an external world loads: every archetype of the manifest has an
/// external table, and each loads with its manifest entry.
pub open spec fn world_loadable(p: PolarsWorld) -> bool {
    &&& all_present(p)
    &&& forall|i: int|
        0 <= i < p.metadata.archetypes@.len() ==> loadable(
            p.archetypes@[key_position(p.archetypes@, (#[trigger] p.metadata.archetypes@[i]).0)].1,
            p.metadata.archetypes@[i].1,
        )
}

/// Whether `w` is the world that `p` loads as.
pub open spec fn world_imported(p: PolarsWorld, w: World) -> bool {
    let m = p.metadata.archetypes@;
    &&& w.archetypes@.len() == m.len()
    &&& forall|i: int|
        0 <= i < m.len() ==> {
            &&& (#[trigger] w.archetypes@[i]).0 == m[i].0
            &&& imported(p.archetypes@[key_position(p.archetypes@, m[i].0)].1, m[i].1, w.archetypes@[i].1)
        }
    &&& w.component_map@ == p.metadata.component_map@
    &&& w.tick == p.metadata.tick
    &&& w.entity_len == p.metadata.entity_len
    &&& w.assets@ == p.assets@
}

/// Whether `p` is the export of `w`: archetype by archetype, in order, the
/// external table and manifest entry of each table, and the rest copied.
pub open spec fn world_exported(w: World, p: PolarsWorld) -> bool {
    let n = w.archetypes@.len();
    &&& p.archetypes@.len() == n
    &&& p.metadata.archetypes@.len() == n
    &&& forall|i: int|
        0 <= i < n ==> {
            &&& (#[trigger] p.archetypes@[i]).0 == w.archetypes@[i].0
            &&& p.metadata.archetypes@[i].0 == w.archetypes@[i].0
            &&& exported(w.archetypes@[i].1, p.metadata.archetypes@[i].1, p.archetypes@[i].1)
        }
    &&& p.metadata.component_map@ == w.component_map@
    &&& p.metadata.tick == w.tick
    &&& p.metadata.entity_len == w.entity_len
    &&& p.assets@ == w.assets@
}

impl World {
    /// Every table is well formed and no archetype id appears twice.
    pub open spec fn wf(&self) -> bool {
        &&& forall|i: int| 0 <= i < self.archetypes@.len() ==> (#[trigger] self.archetypes@[i]).1.wf()
        &&& forall|i: int, j: int|
            0 <= i < j < self.archetypes@.len() ==> (#[trigger] self.archetypes@[i]).0 != (#[trigger] self.archetypes@[j]).0
    }

    /// Checks that the world is well formed.
    pub fn is_valid(&self) -> (r: bool)
        ensures
            r == self.wf(),
    {
        let mut i: usize = 0;
        while i < self.archetypes.len()
            invariant
                i <= self.archetypes@.len(),
                forall|j: int| 0 <= j < i ==> (#[trigger] self.archetypes@[j]).1.wf(),
                forall|j: int, l: int|
                    0 <= j < l < i ==> (#[trigger] self.archetypes@[j]).0 != (#[trigger] self.archetypes@[l]).0,
            decreases self.archetypes@.len() - i,
        {
            let entry = &self.archetypes[i];
            if !entry.1.is_valid() {
                return false;
            }
            let mut j: usize = 0;
            while j < i
                invariant
                    j <= i,
                    i < self.archetypes@.len(),
                    entry == &self.archetypes@[i as int],
                    forall|l: int| 0 <= l < j ==> (#[trigger] self.archetypes@[l]).0 != entry.0,
                decreases i - j,
            {
                if self.archetypes[j].0.0 == entry.0.0 {
                    proof {
                        let a = self.archetypes@[j as int];
                        assert(a.0 == entry.0);
                    }
                    return false;
                }
                j = j + 1;
            }
            i = i + 1;
        }
        true
    }

    /// Whether some table holds a boolean column.
    pub open spec fn has_bool(&self) -> bool {
        exists|i: int| 0 <= i < self.archetypes@.len() && (#[trigger] self.archetypes@[i]).1.has_bool()
    }

    /// Converts every archetype to an external table and gathers the
    /// manifest. Refused with `Unsupported` when a column holds booleans.
    pub fn to_polars(&self) -> (r: Result<PolarsWorld, Error>)
        requires
            self.wf(),
        ensures
            r is Ok <==> !self.has_bool(),
            r is Err ==> r == Err::<PolarsWorld, Error>(Error::Unsupported),
            r matches Ok(p) ==> world_exported(*self, p),
    {
        let mut frames: Vec<(ArchetypeId, DataFrame)> = Vec::new();
        let mut metas: Vec<(ArchetypeId, ArchetypeMetadata)> = Vec::new();
        let mut i: usize = 0;
        while i < self.archetypes.len()
            invariant
                self.wf(),
                i <= self.archetypes@.len(),
                frames@.len() == i,
                metas@.len() == i,
                forall|j: int| 0 <= j < i ==> !(#[trigger] self.archetypes@[j]).1.has_bool(),
                forall|j: int|
                    0 <= j < i ==> {
                        &&& (#[trigger] frames@[j]).0 == self.archetypes@[j].0
                        &&& metas@[j].0 == self.archetypes@[j].0
                        &&& exported(self.archetypes@[j].1, metas@[j].1, frames@[j].1)
                    },
            decreases self.archetypes@.len() - i,
        {
            let (id, table) = (self.archetypes[i].0, &self.archetypes[i].1);
            assert(table.wf());
            match table.to_polars() {
                Ok((meta, df)) => {
                    frames.push((id, df));
                    metas.push((id, meta));
                },
                Err(e) => {
                    return Err(e);
                },
            }
            i = i + 1;
        }
        let metadata = Metadata {
            archetypes: metas,
            component_map: copy_vec(&self.component_map),
            tick: self.tick,
            entity_len: self.entity_len,
        };
        Ok(PolarsWorld { archetypes: frames, metadata, assets: copy_bytes(&self.assets) })
    }

    /// Rebuilds a world from its external form. The manifest's archetype
    /// ids are authoritative: each must have an external table, else the
    /// result is `MissingArchetypeFile`; tables are matched to manifest
    /// entries by archetype id.
    pub fn try_from(polars: &PolarsWorld) -> (r: Result<World, Error>)
        ensures
            r is Ok <==> world_loadable(*polars),
            !all_present(*polars) ==> r == Err::<World, Error>(Error::MissingArchetypeFile),
            r matches Ok(w) ==> world_imported(*polars, w),
    {
        let m = &polars.metadata.archetypes;
        let mut k: usize = 0;
        while k < m.len()
            invariant
                k <= m@.len(),
                m == &polars.metadata.archetypes,
                forall|j: int| 0 <= j < k ==> key_position(polars.archetypes@, (#[trigger] m@[j]).0) >= 0,
            decreases m@.len() - k,
        {
            if find_frame(&polars.archetypes, m[k].0).is_none() {
                return Err(Error::MissingArchetypeFile);
            }
            k = k + 1;
        }
        let mut archetypes: Vec<(ArchetypeId, Table)> = Vec::new();
        let mut i: usize = 0;
        while i < m.len()
            invariant
                i <= m@.len(),
                m == &polars.metadata.archetypes,
                all_present(*polars),
                archetypes@.len() == i,
                forall|j: int|
                    0 <= j < i ==> loadable(
                        polars.archetypes@[key_position(polars.archetypes@, (#[trigger] m@[j]).0)].1,
                        m@[j].1,
                    ),
                forall|j: int|
                    0 <= j < i ==> {
                        &&& (#[trigger] archetypes@[j]).0 == m@[j].0
                        &&& imported(
                            polars.archetypes@[key_position(polars.archetypes@, m@[j].0)].1,
                            m@[j].1,
                            archetypes@[j].1,
                        )
                    },
            decreases m@.len() - i,
        {
            let id = m[i].0;
            proof {
                lemma_key_position(polars.archetypes@, id);
            }
            let p = match find_frame(&polars.archetypes, id) {
                Some(p) => p,
                None => {
                    assert(key_position(polars.archetypes@, m@[i as int].0) >= 0);
                    return Err(Error::MissingArchetypeFile);
                },
            };
            match Table::from_dataframe(&polars.archetypes[p].1, &m[i].1) {
                Ok(t) => {
                    archetypes.push((id, t));
                },
                Err(e) => {
                    return Err(e);
                },
            }
            i = i + 1;
        }
        Ok(
            World {
                archetypes,
                component_map: copy_vec(&polars.metadata.component_map),
                assets: copy_bytes(&polars.assets),
                tick: polars.metadata.tick,
                entity_len: polars.metadata.entity_len,
            },
        )
    }
}

/// A column of a loaded snapshot, read in place: the entity-id array and the
/// value array of the archetype that holds the component.
pub struct PolarsColumnRef<'a> {
    pub entity_series: &'a Series,
    pub buf: &'a Series,
}

impl<'a> PolarsColumnRef<'a> {
    /// The number of rows.
    pub fn len(&self) -> (r: usize)
        ensures
            r == self.entity_series.len,
    {
        self.entity_series.len
    }

    /// The packed bytes of the entity-id column, as an owned copy.
    pub fn entity_buf(&self) -> (r: Vec<u8>)
        ensures
            r@ == flatten(self.entity_series.data),
    {
        self.entity_series.to_bytes()
    }

    /// The packed bytes of the value column, as an owned copy.
    pub fn value_buf(&self) -> (r: Vec<u8>)
        ensures
            r@ == flatten(self.buf.data),
    {
        self.buf.to_bytes()
    }

    /// Columns read through a snapshot never hold asset handles.
    pub fn is_asset(&self) -> (r: bool)
        ensures
            !r,
    {
        false
    }
}

/// The index of the first entry of the component index with key `id`, or -1.
pub open spec fn component_position(s: Seq<(ComponentId, ArchetypeId)>, id: ComponentId) -> int
    decreases s.len(),
{
    if s.len() == 0 {
        -1
    } else {
        let p = component_position(s.drop_last(), id);
        if p >= 0 {
            p
        } else if s.last().0 == id {
            s.len() - 1
        } else {
            -1
        }
    }
}

/// `component_position` finds the first entry with the key, or says none
/// has it.
pub proof fn lemma_component_position(s: Seq<(ComponentId, ArchetypeId)>, id: ComponentId)
    ensures
        -1 <= component_position(s, id) < s.len(),
        component_position(s, id) >= 0 ==> s[component_position(s, id)].0 == id,
        forall|j: int|
            0 <= j < s.len() && (component_position(s, id) < 0 || j < component_position(s, id)) ==> (#[trigger] s[j]).0
                != id,
    decreases s.len(),
{
    if s.len() > 0 {
        lemma_component_position(s.drop_last(), id);
        assert forall|j: int|
            0 <= j < s.len() && (component_position(s, id) < 0 || j < component_position(s, id)) implies (#[trigger] s[j]).0
            != id by {
            if j < s.len() - 1 {
                assert(s[j] == s.drop_last()[j]);
            }
        }
    }
}

/// The archetype that the component index assigns to `id`.
pub fn find_component(s: &Vec<(ComponentId, ArchetypeId)>, id: ComponentId) -> (r: Option<ArchetypeId>)
    ensures
        r matches Some(a) ==> component_position(s@, id) >= 0 && a == s@[component_position(s@, id)].1,
        r is None ==> component_position(s@, id) == -1,
{
    proof {
        lemma_component_position(s@, id);
    }
    let mut i: usize = 0;
    while i < s.len()
        invariant
            i <= s@.len(),
            forall|j: int| 0 <= j < i ==> (#[trigger] s@[j]).0 != id,
        decreases s@.len() - i,
    {
        if s[i].0.0 == id.0 {
            proof {
                lemma_component_position(s@, id);
                if component_position(s@, id) >= 0 && component_position(s@, id) < i {
                    assert(s@[component_position(s@, id)].0 == id);
                }
            }
            return Some(s[i].1);
        }
        i = i + 1;
    }
    None
}

/// Whether the lookup of component `id` in `p` succeeds: the component
/// index names an archetype, the snapshot holds its external table, and that
/// table has both an entity-id array and an array named by `id`.
pub open spec fn column_found(p: PolarsWorld, id: ComponentId) -> bool {
    let c = component_position(p.metadata.component_map@, id);
    let a = p.metadata.component_map@[c].1;
    let k = key_position(p.archetypes@, a);
    &&& c >= 0
    &&& k >= 0
    &&& position(p.archetypes@[k].1.columns@, entity_id_name()) >= 0
    &&& position(p.archetypes@[k].1.columns@, decimal_of(id.0 as nat)) >= 0
}

impl PolarsWorld {
    /// Looks a component's column up in the loaded snapshot: component to
    /// archetype through the manifest's index, archetype to external table,
    /// then the arrays by name. Any missing step gives `ComponentNotFound`.
    pub fn column(&self, id: ComponentId) -> (r: Result<PolarsColumnRef<'_>, Error>)
        ensures
            r is Ok <==> column_found(*self, id),
            r is Err ==> r == Err::<PolarsColumnRef<'_>, Error>(Error::ComponentNotFound),
            r matches Ok(c) ==> {
                let a = self.metadata.component_map@[component_position(self.metadata.component_map@, id)].1;
                let cols = self.archetypes@[key_position(self.archetypes@, a)].1.columns@;
                &&& *c.entity_series == cols[position(cols, entity_id_name())]
                &&& *c.buf == cols[position(cols, decimal_of(id.0 as nat))]
            },
    {
        let a = match find_component(&self.metadata.component_map, id) {
            Some(a) => a,
            None => {
                return Err(Error::ComponentNotFound);
            },
        };
        proof {
            lemma_key_position(self.archetypes@, a);
        }
        let k = match find_frame(&self.archetypes, a) {
            Some(k) => k,
            None => {
                return Err(Error::ComponentNotFound);
            },
        };
        let df = &self.archetypes[k].1;
        proof {
            lemma_position(df.columns@, entity_id_name());
            lemma_position(df.columns@, decimal_of(id.0 as nat));
        }
        let e = match find_series(&df.columns, &entity_name()) {
            Some(e) => e,
            None => {
                return Err(Error::ComponentNotFound);
            },
        };
        let v = match find_series(&df.columns, &component_name(id)) {
            Some(v) => v,
            None => {
                return Err(Error::ComponentNotFound);
            },
        };
        Ok(PolarsColumnRef { entity_series: &df.columns[e], buf: &df.columns[v] })
    }

    /// Makes a column resident before it is read. Everything of a loaded
    /// snapshot is resident already, so this does nothing and succeeds.
    pub fn transfer_column(&mut self, id: ComponentId) -> (r: Result<(), Error>)
        ensures
            r is Ok,
            *final(self) == *old(self),
    {
        Ok(())
    }

    /// The asset store is not reachable through a snapshot's columns:
    /// callers that need asset values read the asset store itself.
    pub fn assets(&self) -> (r: Option<&Vec<u8>>)
        ensures
            r is None,
    {
        None
    }

    /// The tick at which the snapshot was taken.
    pub fn tick(&self) -> (r: u64)
        ensures
            r == self.metadata.tick,
    {
        self.metadata.tick
    }
}

/// Round trip of a whole world: loading the external form of a world gives
/// back, archetype by archetype, the same ids and the same tables (entity
/// buffers, entity maps, columns and their bytes), and the same component
/// index, tick, entity count and asset store.
pub proof fn lemma_world_round_trip(w: World, p: PolarsWorld, back: World)
    requires
        w.wf(),
        !w.has_bool(),
        world_exported(w, p),
        world_imported(p, back),
    ensures
        world_loadable(p),
        back.archetypes@.len() == w.archetypes@.len(),
        forall|i: int|
            0 <= i < w.archetypes@.len() ==> (#[trigger] back.archetypes@[i]).0 == w.archetypes@[i].0
                && same_table(back.archetypes@[i].1, w.archetypes@[i].1),
        back.component_map@ == w.component_map@,
        back.tick == w.tick,
        back.entity_len == w.entity_len,
        back.assets@ == w.assets@,
{
    let n = w.archetypes@.len();
    assert forall|i: int| 0 <= i < n implies key_position(p.archetypes@, w.archetypes@[i].0) == i by {
        lemma_key_position(p.archetypes@, w.archetypes@[i].0);
        let k = key_position(p.archetypes@, w.archetypes@[i].0);
        assert(p.archetypes@[i].0 == w.archetypes@[i].0);
        if k != i {
            assert(p.archetypes@[k].0 == w.archetypes@[k].0);
            if k < i {
                assert(w.archetypes@[k].0 != w.archetypes@[i].0);
            }
        }
    }
    assert forall|i: int| 0 <= i < n implies loadable(p.archetypes@[i].1, p.metadata.archetypes@[i].1) by {
        let t = w.archetypes@[i].1;
        assert(t.wf());
        assert(p.archetypes@[i].0 == w.archetypes@[i].0);
        lemma_export_loadable(t, p.metadata.archetypes@[i].1, p.archetypes@[i].1);
    }
    assert forall|i: int| 0 <= i < n implies (#[trigger] back.archetypes@[i]).0 == w.archetypes@[i].0
        && same_table(back.archetypes@[i].1, w.archetypes@[i].1) by {
        let t = w.archetypes@[i].1;
        assert(t.wf());
        assert(p.archetypes@[i].0 == w.archetypes@[i].0);
        assert(key_position(p.archetypes@, w.archetypes@[i].0) == i);
        lemma_table_round_trip(t, p.metadata.archetypes@[i].1, p.archetypes@[i].1, back.archetypes@[i].1);
    }
    assert forall|i: int|
        0 <= i < p.metadata.archetypes@.len() implies key_position(
        p.archetypes@,
        (#[trigger] p.metadata.archetypes@[i]).0,
    ) >= 0 by {
        assert(p.archetypes@[i].0 == w.archetypes@[i].0);
    }
    assert forall|i: int|
        0 <= i < p.metadata.archetypes@.len() implies loadable(
        p.archetypes@[key_position(p.archetypes@, (#[trigger] p.metadata.archetypes@[i]).0)].1,
        p.metadata.archetypes@[i].1,
    ) by {
        assert(p.archetypes@[i].0 == w.archetypes@[i].0);
    }
}

} // verus!
