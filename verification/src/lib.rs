//! Core of a desktop game launcher: the pure rules behind its embedded
//! loopback asset server and its child-process controller.

pub mod http;
pub mod lifecycle;
pub mod mime;
pub mod paths;
pub mod percent;
pub mod process;
pub mod resolve;
pub mod server;
pub mod text;
