pub mod actions;
pub mod auth;
pub mod config;
pub mod digest;
pub mod ely;
pub mod error;
pub mod fabric;
pub mod install;
pub mod java;
pub mod launch;
pub mod minecraft;
pub mod mojang;
pub mod news;
pub mod paths;
pub mod platform;
pub mod rules;
pub mod skin;
pub mod text;
pub mod ui;
pub mod util;
