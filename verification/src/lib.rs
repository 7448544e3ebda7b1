//! `jump` opens the files that links lead to, and writes references to symbols.
//!
//! A link is a path or a page on GitHub. A jump finds the project of the link, a session of tmux
//! that belongs to it and an editor in that session, and opens the file there. A reference is a
//! Markdown link to the symbol at a place, made from what a language server says of it.
//!
//! What is done outside (the file system, tmux, the editor, the language server) comes in as
//! events, and goes out as actions: [`app::locate`], [`app::resolve`], [`app::session`] and
//! [`app::query`] each take an event and say what to do next.
//!
//! - [`symbol`] reads symbols out of the answers of language servers and writes them down;
//! - [`lsp`] frames the messages and tells the answers apart;
//! - [`link`] and [`git`] read and write links to source code;
//! - [`tmux`], [`nvim`] and [`hyprland`] read lists of sessions, panes, sockets and windows, and say
//!   how tmux and the editor are called;
//! - [`app`] holds the commands;
//! - [`system`], [`context`] and [`notice`] say what is told to the user and to the log;
//! - [`json`], [`text`] and [`paths`] are what the rest is built on.

pub mod app;
pub mod cli;
pub mod context;
pub mod git;
pub mod hyprland;
pub mod json;
pub mod link;
pub mod lsp;
pub mod notice;
pub mod nvim;
pub mod paths;
pub mod records;
pub mod symbol;
pub mod system;
pub mod text;
pub mod tmux;

pub use app::query::{copy_markdown, run};
pub use app::reference::format_symbol;
pub use app::requests::{
    CopyMarkdownOutput, CopyMarkdownRequest, FormatSymbolRequest, HoverRequest, JumpInput,
    JumpOutcome, ResolveLinkOutput, ResolveLinkRequest,
};
pub use app::resolve::resolve_link;
pub use app::session::jump;
pub use git::GitHubLink;
pub use records::{
    HyprlandWindow, JumpLinkKind, JumpRequest, MaterializedPath, NvimInstance, NvimPaneInfo,
    ProjectRoot, SessionInfo, Workspace,
};
pub use symbol::extractor::{create_extractor, detect_language, SymbolExtractor};
pub use symbol::formatter::{LinkType, MarkdownFormatter, ReferenceFormatter};
pub use symbol::generic::GenericSymbolExtractor;
pub use symbol::rust::RustSymbolExtractor;
pub use symbol::types::{HoverOutput, SymbolInfo};
