//! The saved connection settings and the manager that holds them.
//!
//! Reading and writing the settings file (JSON) happens outside this
//! library; the manager decides what the settings are after a load or a
//! save.

use vstd::prelude::*;

verus! {

/// The values that are saved between runs: username, IP and port, as typed.
#[derive(Clone, Debug, PartialEq, Eq)]
pub struct AppConfig {
    pub username: String,
    pub ip: String,
    pub port: String,
}

/// Holds the current settings and the path of the file that keeps them.
pub struct ConfigurationManager {
    pub config: AppConfig,
    pub file_path: String,
}

impl ConfigurationManager {
    /// A manager with empty settings, kept in `config.json`. The settings
    /// file is read afterwards and handed to `load`.
    pub fn new() -> (m: ConfigurationManager)
        ensures
            m.config.username@ == Seq::<char>::empty(),
            m.config.ip@ == Seq::<char>::empty(),
            m.config.port@ == Seq::<char>::empty(),
            m.file_path@ == "config.json"@,
    {
        let default_config = AppConfig {
            username: String::new(),
            ip: String::new(),
            port: String::new(),
        };
        ConfigurationManager { config: default_config, file_path: String::from_str("config.json") }
    }

    /// Takes the settings read from the file: what was read and parsed
    /// replaces the current settings; when nothing could be read or parsed
    /// (`None`), the current settings stay.
    pub fn load(&mut self, stored: Option<AppConfig>)
        ensures
            final(self).file_path == old(self).file_path,
            match stored {
                Some(c) => final(self).config == c,
                None => final(self).config == old(self).config,
            },
    {
        if let Some(parsed) = stored {
            self.config = parsed;
        }
    }

    /// Replaces the settings with the given values; the caller then writes
    /// them to the settings file.
    pub fn save(&mut self, username: String, ip: String, port: String)
        ensures
            final(self).file_path == old(self).file_path,
            final(self).config == (AppConfig { username, ip, port }),
    {
        self.config.username = username;
        self.config.ip = ip;
        self.config.port = port;
    }
}

/// The connection values with the port as a number.
#[derive(Clone, Debug, PartialEq, Eq)]
pub struct ConnectionInfo {
    pub ip: String,
    pub port: u16,
    pub username: String,
}

/// A store of one connection's values.
#[allow(dead_code)]
pub struct ConfigStorage {
    connection_info: ConnectionInfo,
}

} // verus!
