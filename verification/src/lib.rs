//! Resolution of a mod's option tree into file overrides, and the compositing of
//! texture layers under a selected setting.

pub mod config;
pub mod factor;
pub mod file;
pub mod layer;
pub mod path_map;
pub mod setting;
pub mod viewer;
