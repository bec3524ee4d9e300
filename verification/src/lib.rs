use vstd::prelude::*;

pub mod api;
pub mod bypass;
pub mod config;
pub mod daemon;
pub mod dns;
pub mod health;
pub mod install;
pub mod ip_discovery;
pub mod platform;
pub mod shell;
pub mod system;
pub mod text;
pub mod tls;
pub mod tuner;
pub mod zapret;
