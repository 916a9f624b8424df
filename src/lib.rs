//! A headless map core: turns the bytes of vector tiles into padded GPU
//! buffers, keeps the latest tile per coordinate, and draws frames through a
//! schedule of stages and a render graph of passes.
pub mod container;
pub mod context;
pub mod coords;
pub mod graph;
pub mod map;
pub mod pipeline;
pub mod renderer;
pub mod repository;
pub mod schedule;
pub mod tessellation;
pub mod tile;
