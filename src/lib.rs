//! Persistence and interchange for an archetype-organised ECS world.
//!
//! A world's archetype tables convert to external columnar tables (named
//! arrays plus a manifest) and back, byte for byte: `component` holds the
//! value-type model, `name` the decimal column naming of component ids,
//! `array` the neutral array description and its packing, `column` the
//! column bridge, `entity` the entity map, `table` and `world` the table and
//! world conversions with their round-trip laws, and `spatial` the layouts of
//! the spatial vectors that components carry.

pub mod array;
pub mod column;
pub mod component;
pub mod entity;
pub mod name;
pub mod spatial;
pub mod table;
pub mod world;
