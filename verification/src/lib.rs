//! Core DOM data model of a GUI toolkit: DOM nodes, their event filters,
//! tab indices, hit-test tags, and the conversion of a nested DOM tree
//! into a flat, arena-based representation.

pub mod events;
pub mod tab_index;
pub mod text;
pub mod tag_id;
pub mod css;
pub mod resources;
pub mod node_data;
pub mod id_tree;
pub mod dom;
pub mod debug;
