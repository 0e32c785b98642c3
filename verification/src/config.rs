//! Fixed names of the agent's directories, files and remote endpoints.

use vstd::prelude::*;

verus! {

/// Root of the download cache.
pub const ROOT_PATH_APP: &'static str = "apps";

/// Root of the production layout.
pub const ROOT_PATH_PROD: &'static str = "prod";

/// File that holds the managed units.
pub const INSTALLER_CONFIG_FILE_NAME: &'static str = "installer_config.toml";

/// File that holds the state of unfinished downloads.
pub const DOWNLOAD_CONFIG_FILE_NAME: &'static str = "download_config.toml";

/// Path of the remote endpoint for managed units.
pub const REST_API_INSTALLERS: &'static str = "installers";

/// Path of the remote endpoint for artifacts.
pub const REST_API_APPS: &'static str = "apps";

} // verus!
