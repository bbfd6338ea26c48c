//! The settings of the probe and what they are where no file gives them.

use vstd::prelude::*;

verus! {

/// The settings of the probe.
#[derive(Debug)]
pub struct Properties {
    pub server: String,
    pub auth_probe_name: String,
    pub auth_key: String,
    pub deep_search: bool,
    pub max_iocs: isize,
}

/// The name of the file that the settings are read from.
pub fn properties_filename() -> (name: String)
    ensures
        name@ == "settings.toml"@,
{
    "settings.toml".to_string()
}

/// The settings that hold where the file of settings cannot be had: a
/// server on this machine, the credentials for testing, no deep search, and
/// at most five thousand definitions.
pub fn default_properties() -> (properties: Properties)
    ensures
        properties.server@ == "http://localhost:8080/"@,
        properties.auth_probe_name@ == "TESTING"@,
        properties.auth_key@ == "TESTING"@,
        !properties.deep_search,
        properties.max_iocs == 5000,
{
    Properties {
        server: "http://localhost:8080/".to_string(),
        auth_probe_name: "TESTING".to_string(),
        auth_key: "TESTING".to_string(),
        deep_search: false,
        max_iocs: 5000,
    }
}

/// The lines of the file of settings as it is written where there is none:
/// the default settings, one to a line.
pub fn default_properties_lines() -> (lines: Vec<String>)
    ensures
        lines@.len() == 5,
        lines@[0]@ == "server = \"http://localhost:8080/\"\n"@,
        lines@[1]@ == "auth_probe_name = \"TESTING\"\n"@,
        lines@[2]@ == "auth_key = \"TESTING\"\n"@,
        lines@[3]@ == "deep_search = false\n"@,
        lines@[4]@ == "max_iocs = 5000"@,
{
    let mut lines: Vec<String> = Vec::new();
    lines.push("server = \"http://localhost:8080/\"\n".to_string());
    lines.push("auth_probe_name = \"TESTING\"\n".to_string());
    lines.push("auth_key = \"TESTING\"\n".to_string());
    lines.push("deep_search = false\n".to_string());
    lines.push("max_iocs = 5000".to_string());
    lines
}

} // verus!
