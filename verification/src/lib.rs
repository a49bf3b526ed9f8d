pub mod backend;
pub mod capture;
pub mod cli;
pub mod commands;
pub mod manifest;
pub mod privilege;
pub mod shim;
pub mod tempfile;
pub mod text;
