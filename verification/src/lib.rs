//! An interactive dual-pane client for browsing a local and a remote
//! directory tree side by side and copying files between them over an
//! authenticated, encrypted remote-file-access session.
//!
//! This crate holds the verified core: the host-trust and credential
//! state machines (`connect`), the dual-pane navigation model (`file`),
//! the progress meters and their registry (`progress`), the recursive
//! transfer engine (`transfer`), the status-message queue
//! (`user_message`), the control-loop decisions (`rftp`), and the error
//! taxonomy with its renderings (`utils`).  Transport, terminal and
//! filesystem work stays outside; it hands the core plain values and
//! performs what the core decides.

pub mod connect;
pub mod file;
pub mod progress;
pub mod rftp;
pub mod transfer;
pub mod user_message;
pub mod utils;
