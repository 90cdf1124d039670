//! Editor state logic of the Aether Win32 front end: tabs, cursor and
//! selection handling, find and replace, the explorer's file tree and
//! directory listings, the activity bar, the AI assistant panel, the Git
//! status model, the SSH and clone dialogs, the settings, status bar and
//! terminal models, partial-redraw decisions, file type decisions, and the
//! decisions of the window message handler.
//!
//! The text buffer, the window, the renderer, processes and files belong
//! to the caller: functions here take what they read of them as plain
//! values and hand back what to do.
pub mod text;
pub mod editor;
pub mod multi_cursor;
pub mod workspace;
pub mod tabs;
pub mod layout;
pub mod activity_bar;
pub mod listing;
pub mod file_tree;
pub mod git;
pub mod ai_panel;
pub mod ssh;
pub mod settings;
pub mod status_bar;
pub mod terminal;
pub mod dirty_rect;
pub mod theme;
pub mod files;
pub mod window;
