//! Signing in to Docmost: the local sign-in page, the sign-in window and
//! the session bookkeeping.

pub mod helper;
pub mod local_server;
pub mod manager;
pub mod webview;
