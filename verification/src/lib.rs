//! Terminal screens for the Windows registry, services, scheduled tasks and
//! firewall rules: the text grid and its updates, dialogs, the line editor,
//! the scrolling lists, registry paths and values, and what each key does.
pub mod text;
pub mod screen;
pub mod keys;
pub mod editor;
pub mod dialog;
pub mod listview;
pub mod regpath;
pub mod regvalue;
pub mod layout;
pub mod keymap;
pub mod regedit;
pub mod services;
pub mod firewall;
pub mod tasks;
pub mod sort;
pub mod error;
