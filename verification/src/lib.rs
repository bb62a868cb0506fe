//! The local logic of ms-todo: the outbox's kinds and states and what a
//! queued write does to the cache, applying Graph's enumerations, the
//! search expression FTS5 is given, and the TUI's keybinding registry,
//! help screen, sidebar, pickers and prompts.

pub mod text;
pub mod ops;
pub mod search;
pub mod action;
pub mod keybindings;
pub mod width;
pub mod help;
pub mod json;
pub mod sync_state;
pub mod idempotency;
pub mod list_lifecycle;
pub mod lists;
pub mod views;
pub mod children;
pub mod list_extension;
pub mod scope;
pub mod steps;
pub mod task;
pub mod app_state;
pub mod attachments;
pub mod downloads;
pub mod palette;
pub mod edit;
pub mod quick_add;
pub mod move_tasks;
pub mod detail_cursor;
pub mod glyphs;
pub mod layout;
pub mod diagnostics;
pub mod folders;
pub mod tasks;
pub mod cascade;
pub mod list_hint;
pub mod selection;
pub mod local_change;
pub mod columns;
pub mod batch;
pub mod update;
pub mod scheduling;
