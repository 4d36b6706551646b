//! An entity-component simulation core: a tile grid resource, entities that
//! carry components in dense or marker storages, and a dispatcher whose print
//! system composes the grid and the positioned entities into a frame.
pub mod entity;
pub mod storage;
pub mod grid;
pub mod components;
pub mod world;
pub mod system;
pub mod room;
