//! The desktop application's own logic: what is shown, what a click does, and
//! what is written to disk.

pub mod adapters;
pub mod friends;
pub mod autostart;
pub mod fflags;
pub mod linkhandler;
pub mod images;
pub mod secrets;
pub mod tray;
pub mod updater;
pub mod shortcut;
pub mod graph;
pub mod settings;
pub mod history;
pub mod notify;
pub mod macros;
pub mod hotkeys;
pub mod lists;
pub mod nav;
pub mod signin;
pub mod home;
pub mod library;
pub mod requests;
pub mod roster;
pub mod wardrobe;
pub mod profile;
pub mod launch;
pub mod find;
pub mod gameclient;
pub mod options;
pub mod session;
pub mod demo;
