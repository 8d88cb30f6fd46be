//! The push server's settings.

use vstd::prelude::*;
use crate::config::HttpConfig;

verus! {

/// Where the push server listens.
#[derive(Debug, Clone, Copy)]
pub struct Config {
    port: u16,
}

impl Config {
    pub closed spec fn view(&self) -> u16 {
        self.port
    }

    pub fn new(port: u16) -> (config: Config)
        ensures
            config.view() == port,
    {
        Config { port }
    }

    pub fn port(&self) -> (port: u16)
        ensures
            port == self.view(),
    {
        self.port
    }
}

/// The push server, before it is started.
#[derive(Debug)]
pub struct Server {
    config: Config,
}

impl Server {
    pub closed spec fn view(&self) -> u16 {
        self.config.view()
    }

    pub fn new_from_config(config: Config) -> (server: Server)
        ensures
            server.view() == config.view(),
    {
        Server { config }
    }

    /// The port the server is to listen on.
    pub fn port(&self) -> (port: u16)
        ensures
            port == self.view(),
    {
        self.config.port()
    }
}

/// The push server for the configured port.
pub fn init_http_server(http_config: HttpConfig) -> (server: Server)
    ensures
        server.view() == http_config@.0,
{
    let http_server_config = Config::new(http_config.port());
    Server::new_from_config(http_server_config)
}

} // verus!
