//! Where the application keeps its files below the XDG base directories.
//! The caller resolves the base directories themselves from the
//! environment; the functions here only place the application's
//! subdirectories and the configuration file below them.

use vstd::prelude::*;

use crate::text::{joined, join_path};

verus! {

/// The application's data directory below the XDG data home.
pub fn data_dir(xdg_data_home: &str) -> (r: String)
    ensures
        r@ == joined(xdg_data_home@, "shunbin"@),
{
    join_path(xdg_data_home, "shunbin")
}

/// The application's configuration directory below the XDG configuration
/// home.
pub fn config_dir(xdg_config_home: &str) -> (r: String)
    ensures
        r@ == joined(xdg_config_home@, "shunbin"@),
{
    join_path(xdg_config_home, "shunbin")
}

/// The configuration file below the application's configuration directory.
pub fn get_default_config_path(dir: &str) -> (r: String)
    ensures
        r@ == joined(dir@, "config.toml"@),
{
    join_path(dir, "config.toml")
}

} // verus!
