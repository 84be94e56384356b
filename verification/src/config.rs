//! The startup configuration: the port to listen on and the two remote
//! documents. It is made once, before the server starts, and never changed.

use vstd::prelude::*;
use vstd::string::*;
use crate::port::configured_port;
use crate::port::port_from_setting;
use crate::port::setting_text;
use crate::port::PortError;

verus! {

/// The environment variable that holds the port.
pub const PORT_VARIABLE: &'static str = "PORT";

/// The address to listen on: every address of the machine.
pub const LISTEN_ADDRESS: [u8; 4] = [0, 0, 0, 0];

/// Where the home page is fetched from, unless configured otherwise.
pub const PAGE_URL: &'static str = "https://raw.githubusercontent.com/chromecruzer/self-learn/main/index.html";

/// Where the word document is fetched from, unless configured otherwise.
pub const WORDS_URL: &'static str = "https://raw.githubusercontent.com/chromecruzer/self-learn/main/data.json";

/// What the server is started with.
#[derive(Debug)]
pub struct Config {
    /// The IPv4 address to listen on.
    pub address: [u8; 4],
    /// The port to listen on.
    pub port: u16,
    /// The remote HTML document that the home page mirrors.
    pub page_url: String,
    /// The remote JSON document that holds the word entries.
    pub words_url: String,
}

impl Config {
    /// The configuration for the value of the port variable, if it is set:
    /// every address of the machine, the port that the value stands for, or
    /// the default port without a value, and the two default documents. A
    /// value that is no port gives no configuration.
    pub fn from_port_setting(value: Option<&str>) -> (config: Result<Config, PortError>)
        ensures
            match configured_port(setting_text(value)) {
                Ok(port) => {
                    &&& config is Ok
                    &&& config->Ok_0.address == LISTEN_ADDRESS
                    &&& config->Ok_0.port == port
                    &&& config->Ok_0.page_url@ == PAGE_URL@
                    &&& config->Ok_0.words_url@ == WORDS_URL@
                },
                Err(error) => config is Err && config->Err_0 == error,
            },
    {
        match port_from_setting(value) {
            Ok(port) => Ok(
                Config {
                    address: LISTEN_ADDRESS,
                    port,
                    page_url: String::from_str(PAGE_URL),
                    words_url: String::from_str(WORDS_URL),
                },
            ),
            Err(error) => Err(error),
        }
    }
}

} // verus!
