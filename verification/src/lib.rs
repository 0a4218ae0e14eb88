//! Verified core of the Herdr plugin set: naming, split trees, pickers and
//! the decisions behind every pane operation.
pub mod arrange;
pub mod context;
pub mod diagram;
pub mod gather;
pub mod gather_ops;
pub mod label;
pub mod landing;
pub mod layout;
pub mod manager;
pub mod menu;
pub mod model;
pub mod nav_list;
pub mod navigator;
pub mod open;
pub mod ops;
pub mod palette;
pub mod palette_list;
pub mod pickers;
pub mod pictures;
pub mod place;
pub mod pm_cli;
pub mod state;
pub mod pm_config;
pub mod preview;
pub mod saved_ui;
pub mod template;
pub mod term;
pub mod text;
pub mod tools_cli;
pub mod tools_ops;
pub mod tools_ui;
pub mod undo;
