use vstd::prelude::*;

use crate::manifest::{package_name_error, validate_package_name, PackageNameError};

verus! {

broadcast use vstd::string::group_string_axioms;

/// The parsed command line.
#[derive(Debug, Clone, PartialEq, Eq)]
pub struct Cli {
    /// Set when `-v` / `--version` was given.
    pub version: Option<bool>,
    pub command: Command,
}

/// The subcommands.
#[derive(Debug, Clone, PartialEq, Eq)]
pub enum Command {
    /// Update this saya binary from the latest GitHub Release.
    SelfUpdate,
    /// Update package manager metadata.
    Update,
    /// Upgrade installed packages with the detected OS package manager.
    Upgrade,
    /// Without names: install the missing present names and uninstall the
    /// installed absent names. With names: install them, then record them as
    /// present.
    Install(InstallArgs),
    /// Show the manifest names and whether each is installed.
    Status,
    /// Migrate the manifest from the previous schema.
    Migrate,
    /// Uninstall packages, then record them as absent.
    Uninstall(UninstallArgs),
    /// List manually installed packages that the manifest does not name.
    Import(ImportArgs),
}

#[derive(Debug, Clone, PartialEq, Eq)]
pub struct InstallArgs {
    /// The familiar `-y`; installs never ask anyway.
    pub yes: bool,
    /// Package names as the detected backend knows them.
    pub names: Vec<String>,
    /// Arguments after `--`, passed unchanged to apt-get or yay.
    pub backend_args: Vec<String>,
}

#[derive(Debug, Clone, PartialEq, Eq)]
pub struct UninstallArgs {
    /// Package names to uninstall and record as absent.
    pub names: Vec<String>,
}

#[derive(Debug, Clone, PartialEq, Eq)]
pub struct ImportArgs {
    /// Take candidates from the manually installed packages.
    pub manual: bool,
    /// Review the candidates in an editor and save the result.
    pub edit: bool,
}

/// A command-line package name: accepted as it is when it is a valid package
/// name.
pub fn parse_package_name(value: &str) -> (r: Result<String, PackageNameError>)
    ensures
        match package_name_error(value@) {
            None => r matches Ok(s) && s@ == value@,
            Some(e) => r == Err::<String, PackageNameError>(e),
        },
{
    match validate_package_name(value) {
        Ok(()) => Ok(value.to_string()),
        Err(e) => Err(e),
    }
}

} // verus!
