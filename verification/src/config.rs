//! Server configuration.
use std::path::PathBuf;
use vstd::prelude::*;
use vstd::string::*;

use crate::tools::github::text_or;

verus! {

#[verifier::external_type_specification]
#[verifier::external_body]
pub struct ExPathBuf(PathBuf);

/// std's `PathBuf::clone` (derived in std): a copy of the same path, so the
/// result is taken to be equal to the original.
pub assume_specification[ <PathBuf as Clone>::clone ](path: &PathBuf) -> (copy: PathBuf)
    ensures
        copy == *path,
;

/// Where the server listens, which database it uses and where it keeps its
/// files.
#[derive(Debug, Clone)]
pub struct Config {
    pub server_port: String,
    pub database_url: String,
    pub storage_path: PathBuf,
}

/// The SQLite database kept in the storage directory `storage`.
pub open spec fn default_database_url(storage: Seq<char>) -> Seq<char> {
    "sqlite://"@ + storage + "/rustcrew.db?mode=rwc"@
}

impl Config {
    /// The configuration from the settings found: the port and database URL
    /// given, or port 3000 and an SQLite database in the storage directory
    /// (`storage_text` is that directory written as text).
    pub fn from_settings(
        server_port: Option<String>,
        database_url: Option<String>,
        storage_path: PathBuf,
        storage_text: &str,
    ) -> (config: Self)
        ensures
            config.server_port@ == text_or(server_port, "3000"@),
            config.database_url@ == text_or(database_url, default_database_url(storage_text@)),
            config.storage_path == storage_path,
    {
        let port = match server_port {
            Some(port) => port,
            None => "3000".to_string(),
        };
        let url = match database_url {
            Some(url) => url,
            None => {
                let mut url = "sqlite://".to_string();
                url.append(storage_text);
                url.append("/rustcrew.db?mode=rwc");
                url
            },
        };
        Config { server_port: port, database_url: url, storage_path }
    }
}

} // verus!
