pub mod install;
pub mod launch;
pub mod manifest;
