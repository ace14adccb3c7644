//! Verified core of the Arc HTTP client: request import from curl command
//! lines, code snippet generation, environment variables and their
//! interpolation, the dock layout state, the request-file model, the
//! request editor's tables, snapshot and dirty flag, and the open tabs.

pub mod text;
pub mod model;
pub mod curl;
pub mod request;
pub mod codegen;
pub mod env_file;
pub mod paths;
pub mod env_fs;
pub mod request_file;
pub mod dock;
pub mod dock_skin;
pub mod http;
pub mod env_store;
pub mod icons;
pub mod panel_icons;
pub mod actions;
pub mod tree_actions;
pub mod footer;
pub mod order;
pub mod themes;
pub mod tags;
pub mod project_tree;
pub mod workspace_list;
pub mod playground;
pub mod tab_manager;
