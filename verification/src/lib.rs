pub mod position;
pub mod text;
pub mod buffer;
pub mod edit;
pub mod selection;
pub mod search;
pub mod key;
pub mod config;
pub mod keymap;
pub mod fold;
pub mod nav;
pub mod registers;
pub mod split;
pub mod layout_tab;
pub mod palette;
pub mod git;
pub mod preview;
pub mod media;
pub mod lang;
pub mod scope;
pub mod session;
pub mod plugin_store;
pub mod pump;
pub mod live;
pub mod app;
pub mod gui_edit;
pub mod settings;
pub mod syntax;
pub mod logic;
pub mod project;
pub mod logic_view;
pub mod panel_keys;
pub mod grammar;
pub mod workbench;
pub mod dispatch;
pub mod surface_keys;
pub mod settings_panel;
pub mod parse;

pub use live::LiveKind;
