pub mod text;
pub mod model;
pub mod ssh_config;
pub mod ssh;
pub mod keys;
pub mod paths;
pub mod app;
pub mod form;
pub mod sort;
pub mod fuzzy;
pub mod pane;
pub mod graphics;
pub mod worker;
pub mod help;
pub mod list;
pub mod sftp;
pub mod picker;
pub mod store;
pub mod session;
pub mod theme;
pub mod display;
pub mod copy;
