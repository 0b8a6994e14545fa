pub mod text;
pub mod value;
pub mod path;
pub mod intent;
pub mod event;
pub mod mode;
pub mod state;
pub mod reducer;
pub mod nav;
pub mod readline;
pub mod rank;
pub mod select;
pub mod results;
pub mod apply;
pub mod sexpr;
pub mod condition;
pub mod codec;
pub mod command;
pub mod resolver;
pub mod keymap;
pub mod config;
pub mod kernel;
pub mod options;
pub mod magic;
pub mod search;
pub mod decode;
pub mod preview;
pub mod loader;
pub mod layout;
pub mod archive;
pub mod matcher;
pub mod scheme;
pub mod panels;
pub mod listing;
pub mod summary;
pub mod screen;
pub mod registry;
pub mod route;
