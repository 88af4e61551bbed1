use nox_ecs::array::{ArrayData, DataType, Series};
use nox_ecs::column::HostColumn;
use nox_ecs::component::{ArchetypeId, ComponentId, ComponentType, EntityId, Error, PrimitiveTy};
use nox_ecs::name::{component_name, parse_component_id};
use nox_ecs::table::{ArchetypeMetadata, ColumnMetadata, DataFrame, Table};
use nox_ecs::world::{PolarsWorld, World};

fn f64_bytes(values: &[f64]) -> Vec<u8> {
    values.iter().flat_map(|v| v.to_le_bytes()).collect()
}

fn f64_values(bytes: &[u8]) -> Vec<f64> {
    bytes
        .chunks(8)
        .map(|c| f64::from_le_bytes(c.try_into().unwrap()))
        .collect()
}

fn f64_column(id: u64, shape: Vec<usize>, values: &[f64], rows: usize) -> HostColumn {
    HostColumn {
        buf: f64_bytes(values),
        len: rows,
        component_id: ComponentId(id),
        component_type: ComponentType { primitive_ty: PrimitiveTy::F64, shape },
        asset: false,
    }
}

fn entity_bytes(ids: &[u64]) -> Vec<u8> {
    ids.iter().flat_map(|v| v.to_le_bytes()).collect()
}

const WORLD_POS: u64 = 11;
const WORLD_VEL: u64 = 12;
const WORLD_ACCEL: u64 = 13;
const PBR: u64 = 14;
const FORCE: u64 = 15;
const INERTIA: u64 = 16;
const BODY: u64 = 1;

// One body: pose, velocity, acceleration, a render asset handle, force and
// inertia, as the physics layer spawns it.
fn body_world() -> World {
    let pbr = HostColumn {
        buf: 0u64.to_le_bytes().to_vec(),
        len: 1,
        component_id: ComponentId(PBR),
        component_type: ComponentType { primitive_ty: PrimitiveTy::U64, shape: vec![] },
        asset: true,
    };
    let table = Table {
        columns: vec![
            f64_column(WORLD_POS, vec![7], &[1.0, 0.0, 0.0, 0.0, 1.0, 0.0, 0.0], 1),
            f64_column(WORLD_VEL, vec![6], &[0.0, 0.0, 0.0, 0.0, 0.0, 1.0], 1),
            f64_column(WORLD_ACCEL, vec![6], &[0.0; 6], 1),
            pbr,
            f64_column(FORCE, vec![6], &[0.0; 6], 1),
            f64_column(INERTIA, vec![7], &[1.0, 1.0, 1.0, 0.0, 0.0, 0.0, 1.0], 1),
        ],
        entity_buffer: entity_bytes(&[0]),
        entity_map: vec![(EntityId(0), 0)],
    };
    let component_map = [WORLD_POS, WORLD_VEL, WORLD_ACCEL, PBR, FORCE, INERTIA]
        .iter()
        .map(|c| (ComponentId(*c), ArchetypeId(BODY)))
        .collect();
    World {
        archetypes: vec![(ArchetypeId(BODY), table)],
        component_map,
        // an encoded sphere mesh of 36 sectors and 18 stacks
        assets: vec![36, 18],
        tick: 0,
        entity_len: 1,
    }
}

fn assert_same_tables(a: &World, b: &World) {
    assert_eq!(a.archetypes.len(), b.archetypes.len());
    for ((ida, ta), (idb, tb)) in a.archetypes.iter().zip(b.archetypes.iter()) {
        assert_eq!(ida, idb);
        assert_eq!(ta.entity_buffer, tb.entity_buffer);
        assert_eq!(ta.entity_map, tb.entity_map);
        assert_eq!(ta.columns.len(), tb.columns.len());
        for (ca, cb) in ta.columns.iter().zip(tb.columns.iter()) {
            assert_eq!(ca.buf, cb.buf);
            assert_eq!(ca.len, cb.len);
            assert_eq!(ca.component_id, cb.component_id);
            assert_eq!(ca.component_type.primitive_ty, cb.component_type.primitive_ty);
            assert_eq!(ca.component_type.shape, cb.component_type.shape);
            assert_eq!(ca.asset, cb.asset);
        }
    }
}

#[test]
fn validity_is_checked() {
    assert!(body_world().is_valid());
    let mut world = scenario_world();
    world.archetypes[0].1.columns[1].buf.push(0);
    assert!(!world.is_valid());
    let mut world = scenario_world();
    world.archetypes[0].1.entity_map[0].1 = 3;
    assert!(!world.archetypes[0].1.is_valid());
    let mut world = scenario_world();
    world.archetypes[0].1.columns[1].component_id = ComponentId(100);
    assert!(!world.is_valid());
}

#[test]
fn test_convert_to_df() {
    let world = body_world();
    let polars = world.to_polars().unwrap();
    let (_, df) = polars
        .archetypes
        .iter()
        .find(|(id, _)| *id == ArchetypeId(BODY))
        .unwrap();
    let name = component_name(ComponentId(WORLD_POS));
    let series = df.columns.iter().find(|s| s.name == name).unwrap();
    assert_eq!(series.data.data_type, DataType::FixedSizeList(PrimitiveTy::F64, 7));
    let pos = f64_values(&series.to_bytes());
    assert_eq!(pos, &[1.0, 0.0, 0.0, 0.0, 1.0, 0.0, 0.0]);
}

#[test]
fn test_to_world() {
    let world = body_world();
    let polars = world.to_polars().unwrap();
    let new_world = World::try_from(&polars).unwrap();
    assert_same_tables(&new_world, &world);
    assert_eq!(new_world.assets, world.assets);
    assert_eq!(new_world.tick, world.tick);
    assert_eq!(new_world.entity_len, world.entity_len);
}

fn scenario_world() -> World {
    let table = Table {
        columns: vec![
            f64_column(100, vec![7], &[1.0, 0.0, 0.0, 0.0, 1.0, 0.0, 0.0], 1),
            f64_column(200, vec![], &[1.0], 1),
        ],
        entity_buffer: entity_bytes(&[0]),
        entity_map: vec![(EntityId(0), 0)],
    };
    World {
        archetypes: vec![(ArchetypeId(5), table)],
        component_map: vec![(ComponentId(100), ArchetypeId(5)), (ComponentId(200), ArchetypeId(5))],
        assets: vec![],
        tick: 3,
        entity_len: 1,
    }
}

#[test]
fn one_entity_scenario_reloads() {
    let world = scenario_world();
    let polars = world.to_polars().unwrap();
    let back = World::try_from(&polars).unwrap();
    let table = &back.archetypes[0].1;
    assert_eq!(table.entity_buffer.len() / 8, 1);
    assert_eq!(table.entity_map, vec![(EntityId(0), 0)]);
    let c100 = table.columns.iter().find(|c| c.component_id == ComponentId(100)).unwrap();
    let c200 = table.columns.iter().find(|c| c.component_id == ComponentId(200)).unwrap();
    assert_eq!(c100.len, 1);
    assert_eq!(f64_values(&c100.buf), vec![1.0, 0.0, 0.0, 0.0, 1.0, 0.0, 0.0]);
    assert_eq!(f64_values(&c200.buf), vec![1.0]);
    assert_eq!(back.tick, 3);
    assert_eq!(back.entity_len, 1);
}

#[test]
fn shapes_survive_export() {
    let world = scenario_world();
    let polars = world.to_polars().unwrap();
    let df = &polars.archetypes[0].1;
    assert_eq!(df.columns.len(), 3);
    assert_eq!(df.columns[0].name, b"100".to_vec());
    assert_eq!(df.columns[0].len, 1);
    assert_eq!(df.columns[0].data.data_type, DataType::FixedSizeList(PrimitiveTy::F64, 7));
    assert_eq!(df.columns[1].name, b"200".to_vec());
    assert_eq!(df.columns[1].data.data_type, DataType::Primitive(PrimitiveTy::F64));
    assert_eq!(df.columns[2].name, b"entity_id".to_vec());
    assert_eq!(df.columns[2].data.data_type, DataType::Primitive(PrimitiveTy::U64));
}

#[test]
fn missing_archetype_file_is_reported() {
    let world = scenario_world();
    let mut polars = world.to_polars().unwrap();
    polars.archetypes.clear();
    assert_eq!(World::try_from(&polars).unwrap_err(), Error::MissingArchetypeFile);
}

#[test]
fn reordered_columns_still_load() {
    let world = scenario_world();
    let mut polars = world.to_polars().unwrap();
    polars.archetypes[0].1.columns.reverse();
    let back = World::try_from(&polars).unwrap();
    assert_same_tables(&back, &world);
}

#[test]
fn missing_entity_column_is_reported() {
    let world = scenario_world();
    let mut polars = world.to_polars().unwrap();
    polars.archetypes[0].1.columns.pop();
    assert_eq!(World::try_from(&polars).unwrap_err(), Error::MissingEntityColumn);
}

#[test]
fn missing_value_column_is_reported() {
    let world = scenario_world();
    let mut polars = world.to_polars().unwrap();
    polars.archetypes[0].1.columns.remove(0);
    assert_eq!(World::try_from(&polars).unwrap_err(), Error::ComponentNotFound);
}

#[test]
fn entity_map_must_cover_rows() {
    let world = scenario_world();
    let mut polars = world.to_polars().unwrap();
    polars.metadata.archetypes[0].1.entity_map = vec![(EntityId(0), 1)];
    assert_eq!(World::try_from(&polars).unwrap_err(), Error::ArrayLayoutMismatch);
    polars.metadata.archetypes[0].1.entity_map = vec![(EntityId(9), 0)];
    assert_eq!(World::try_from(&polars).unwrap_err(), Error::ArrayLayoutMismatch);
    polars.metadata.archetypes[0].1.entity_map = vec![];
    assert_eq!(World::try_from(&polars).unwrap_err(), Error::ArrayLayoutMismatch);
}

#[test]
fn two_entities_round_trip() {
    let table = Table {
        columns: vec![f64_column(7, vec![2], &[1.0, 2.0, 3.0, 4.0], 2)],
        entity_buffer: entity_bytes(&[300, 42]),
        entity_map: vec![(EntityId(42), 1), (EntityId(300), 0)],
    };
    let world = World {
        archetypes: vec![(ArchetypeId(9), table)],
        component_map: vec![(ComponentId(7), ArchetypeId(9))],
        assets: vec![1, 2, 3],
        tick: 10,
        entity_len: 2,
    };
    let back = World::try_from(&world.to_polars().unwrap()).unwrap();
    assert_same_tables(&back, &world);
    assert_eq!(back.assets, vec![1, 2, 3]);
}

#[test]
fn boolean_columns_are_unsupported() {
    let column = HostColumn {
        buf: vec![1],
        len: 1,
        component_id: ComponentId(1),
        component_type: ComponentType { primitive_ty: PrimitiveTy::Bool, shape: vec![] },
        asset: false,
    };
    assert_eq!(column.to_series().unwrap_err(), Error::Unsupported);
}

#[test]
fn mismatched_array_type_is_refused() {
    let series = Series {
        name: b"5".to_vec(),
        len: 1,
        data: ArrayData {
            data_type: DataType::Primitive(PrimitiveTy::F32),
            buffers: vec![vec![0; 4]],
            children: vec![],
        },
    };
    let ty = ComponentType { primitive_ty: PrimitiveTy::F64, shape: vec![] };
    assert_eq!(HostColumn::from_series(&series, ty, false).unwrap_err(), Error::ArrayLayoutMismatch);
    let short = ComponentType { primitive_ty: PrimitiveTy::F32, shape: vec![] };
    let ok = HostColumn::from_series(&series, short, false).unwrap();
    assert_eq!(ok.component_id, ComponentId(5));
    let series = Series { len: 2, ..series };
    let short = ComponentType { primitive_ty: PrimitiveTy::F32, shape: vec![] };
    assert_eq!(HostColumn::from_series(&series, short, false).unwrap_err(), Error::ArrayLayoutMismatch);
}

#[test]
fn bad_column_name_is_invalid_component_id() {
    let series = Series {
        name: b"entity".to_vec(),
        len: 1,
        data: ArrayData {
            data_type: DataType::Primitive(PrimitiveTy::U8),
            buffers: vec![vec![7]],
            children: vec![],
        },
    };
    let ty = ComponentType { primitive_ty: PrimitiveTy::U8, shape: vec![] };
    assert_eq!(HostColumn::from_series(&series, ty, false).unwrap_err(), Error::InvalidComponentId);
}

#[test]
fn component_names_round_trip() {
    for id in [0u64, 7, 10, 100, 12345, u64::MAX] {
        let name = component_name(ComponentId(id));
        assert_eq!(name, id.to_string().into_bytes());
        assert_eq!(parse_component_id(&name), Ok(ComponentId(id)));
    }
    assert_eq!(parse_component_id(b"18446744073709551616"), Err(Error::InvalidComponentId));
    assert_eq!(parse_component_id(b"12a"), Err(Error::InvalidComponentId));
    assert_eq!(parse_component_id(b""), Err(Error::InvalidComponentId));
    assert_eq!(parse_component_id(b"+1"), Err(Error::InvalidComponentId));
    assert_eq!(parse_component_id(b"entity_id"), Err(Error::InvalidComponentId));
    assert_eq!(parse_component_id(b"007"), Ok(ComponentId(7)));
}

#[test]
fn nested_arrays_pack_children_first() {
    let data = ArrayData {
        data_type: DataType::FixedSizeList(PrimitiveTy::U8, 2),
        buffers: vec![vec![9]],
        children: vec![
            ArrayData { data_type: DataType::Primitive(PrimitiveTy::U8), buffers: vec![vec![1, 2], vec![3]], children: vec![] },
            ArrayData { data_type: DataType::Primitive(PrimitiveTy::U8), buffers: vec![vec![4]], children: vec![] },
        ],
    };
    let series = Series { name: b"1".to_vec(), len: 2, data };
    assert_eq!(series.to_bytes(), vec![1, 2, 3, 4, 9]);
}

#[test]
fn element_sizes_and_counts() {
    assert_eq!(PrimitiveTy::U8.element_size(), 1);
    assert_eq!(PrimitiveTy::I16.element_size(), 2);
    assert_eq!(PrimitiveTy::F32.element_size(), 4);
    assert_eq!(PrimitiveTy::U64.element_size(), 8);
    assert_eq!(PrimitiveTy::Bool.element_size(), 1);
    let t = ComponentType { primitive_ty: PrimitiveTy::F64, shape: vec![3, 4] };
    assert_eq!(t.element_count(), Some(12));
    let t = ComponentType { primitive_ty: PrimitiveTy::F64, shape: vec![] };
    assert_eq!(t.element_count(), Some(1));
    let t = ComponentType { primitive_ty: PrimitiveTy::F64, shape: vec![usize::MAX, 2] };
    assert_eq!(t.element_count(), None);
    let t = ComponentType { primitive_ty: PrimitiveTy::F64, shape: vec![usize::MAX, 2, 0] };
    assert_eq!(t.element_count(), Some(0));
}

#[test]
fn snapshot_columns_are_read_in_place() {
    let world = scenario_world();
    let mut polars: PolarsWorld = world.to_polars().unwrap();
    assert_eq!(polars.transfer_column(ComponentId(100)), Ok(()));
    assert_eq!(polars.tick(), 3);
    let column = polars.column(ComponentId(200)).unwrap();
    assert_eq!(column.len(), 1);
    assert_eq!(column.entity_buf(), 0u64.to_le_bytes().to_vec());
    assert_eq!(f64_values(&column.value_buf()), vec![1.0]);
    assert!(!column.is_asset());
    assert!(matches!(polars.column(ComponentId(300)), Err(Error::ComponentNotFound)));
}

#[test]
fn table_export_lists_metadata_in_order() {
    let world = scenario_world();
    let (meta, df): (ArchetypeMetadata, DataFrame) = world.archetypes[0].1.to_polars().unwrap();
    let ids: Vec<ComponentId> = meta.columns.iter().map(|c: &ColumnMetadata| c.component_id).collect();
    assert_eq!(ids, vec![ComponentId(100), ComponentId(200)]);
    assert_eq!(meta.columns[0].component_type.shape, vec![7]);
    assert_eq!(df.columns.len(), 3);
    let back = Table::from_dataframe(&df, &meta).unwrap();
    assert_eq!(back.entity_map, vec![(EntityId(0), 0)]);
}

#[test]
fn malformed_entity_column_is_a_layout_mismatch() {
    let world = scenario_world();
    let mut polars = world.to_polars().unwrap();
    polars.archetypes[0].1.columns[2].len = 2;
    assert_eq!(World::try_from(&polars).unwrap_err(), Error::ArrayLayoutMismatch);
    let mut polars = world.to_polars().unwrap();
    polars.archetypes[0].1.columns[2].data.data_type = DataType::Primitive(PrimitiveTy::I64);
    assert_eq!(World::try_from(&polars).unwrap_err(), Error::ArrayLayoutMismatch);
}

#[test]
fn snapshot_adapter_has_no_assets() {
    let polars = scenario_world().to_polars().unwrap();
    assert!(polars.assets().is_none());
}
