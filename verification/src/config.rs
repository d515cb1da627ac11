//! The configuration that is used where none is supplied.

use crate::types::{Config, Endpoint, MonitoringConfig, ProxyConfig, ServerConfig};
use vstd::prelude::*;
use vstd::string::*;

verus! {

/// The value of an endpoint with these three fields.
pub open spec fn endpoint_is(endpoint: Endpoint, name: &str, address: &str, port: u16) -> bool {
    endpoint.name@ == name@ && endpoint.address@ == address@ && endpoint.port == port
}

/// The built-in configuration: dashboard on 127.0.0.1:3000, proxy on
/// 127.0.0.1:9050, a cycle every 30 seconds with 10 seconds for each
/// probe, and four sample endpoints.
pub fn create_default_config() -> (config: Config)
    ensures
        config.server.host@ == "127.0.0.1"@,
        config.server.port == 3000,
        config.proxy.host@ == "127.0.0.1"@,
        config.proxy.port == 9050,
        config.monitoring.check_interval_seconds == 30,
        config.monitoring.connection_timeout_seconds == 10,
        config.endpoints@.len() == 4,
        endpoint_is(
            config.endpoints@[0],
            "Example Hidden Service",
            "example1234567890abcdef1234567890abcdef12345678.onion",
            80,
        ),
        endpoint_is(
            config.endpoints@[1],
            "Another Service",
            "another1234567890abcdef1234567890abcdef12345678.onion",
            8080,
        ),
        endpoint_is(
            config.endpoints@[2],
            "HTTPS Service",
            "secure1234567890abcdef1234567890abcdef12345678.onion",
            443,
        ),
        endpoint_is(
            config.endpoints@[3],
            "RoboSats",
            "robosatsy56bwqn56qyadmcxkx767hnabg4mihxlmgyt6if5gnuxvzad.onion",
            80,
        ),
{
    let mut endpoints: Vec<Endpoint> = Vec::new();
    endpoints.push(
        Endpoint {
            name: String::from_str("Example Hidden Service"),
            address: String::from_str("example1234567890abcdef1234567890abcdef12345678.onion"),
            port: 80,
        },
    );
    endpoints.push(
        Endpoint {
            name: String::from_str("Another Service"),
            address: String::from_str("another1234567890abcdef1234567890abcdef12345678.onion"),
            port: 8080,
        },
    );
    endpoints.push(
        Endpoint {
            name: String::from_str("HTTPS Service"),
            address: String::from_str("secure1234567890abcdef1234567890abcdef12345678.onion"),
            port: 443,
        },
    );
    endpoints.push(
        Endpoint {
            name: String::from_str("RoboSats"),
            address: String::from_str(
                "robosatsy56bwqn56qyadmcxkx767hnabg4mihxlmgyt6if5gnuxvzad.onion",
            ),
            port: 80,
        },
    );
    Config {
        server: ServerConfig { host: String::from_str("127.0.0.1"), port: 3000 },
        proxy: ProxyConfig { host: String::from_str("127.0.0.1"), port: 9050 },
        monitoring: MonitoringConfig { check_interval_seconds: 30, connection_timeout_seconds: 10 },
        endpoints,
    }
}

} // verus!
