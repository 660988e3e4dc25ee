//! A widget toolkit core: containers, layout-node construction, structural
//! layout hashing and the decisions of a native-view reconciliation bridge.

pub mod geometry;
pub mod hasher;
pub mod column;
pub mod row;
pub mod image;
pub mod layout;
pub mod native;
pub mod text_input;
pub mod widget;
