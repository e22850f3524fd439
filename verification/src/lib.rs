//! A client for the SheepIt render farm: what it decides, what it sends, and what it makes of the
//! answers. Everything here is a function from plain values to plain values; the network, the
//! disk, the renderer's process and the terminal are the business of whoever calls it.

#![allow(non_snake_case)]

pub mod archive;
pub mod client;
pub mod conf;
pub mod defs;
pub mod execute;
pub mod files;
pub mod fmd5;
pub mod global;
pub mod hw_info;
pub mod job;
pub mod net;
pub mod number;
pub mod outside;
pub mod paths;
pub mod process;
pub mod render;
pub mod screen;
pub mod server_con;
pub mod server_conf;
pub mod session;
pub mod span;
pub mod text;
pub mod tui;
pub mod upload;
pub mod utils;
