//! An interactive node-and-edge flow-diagram core: a graph model with
//! hit-testing, drag-based editing, undo/redo history, bezier edge geometry,
//! and a column layout engine for dataflow descriptions.
//!
//! All coordinates are integer canvas units; the zoom factor and the
//! animation phase are integers in thousandths, so every computation here is
//! exact and deterministic.

pub mod canvas;
pub mod geometry;
pub mod graph;
pub mod history;
pub mod layout;
pub mod model;
pub mod render;
pub mod text;
pub mod yaml;
