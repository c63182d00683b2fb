//! Verified core of RustLab, a native notebook front end for Jupyter kernels:
//! terminal-escape decoding of kernel output, mime-bundle rendering choices,
//! the notebook cell model and its nbformat mapping, kernel-session
//! bookkeeping, tab/pane management and the sidebar, menu and launcher logic.

pub mod text;
pub mod ansi;
pub mod render;
pub mod model;
pub mod nbfile;
pub mod session;
pub mod workspace;
pub mod menu;
pub mod sidebar;
pub mod labels;
pub mod launcher;
pub mod kernels;
pub mod worker;
pub mod order;
