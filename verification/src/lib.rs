//! Verified core of a desktop front-end for the Aether censorship-circumvention
//! tunnel: connection profiles and the command line they become, endpoint
//! validation, routing-file generation and the TUN helper configuration.
pub mod text;
pub mod addr;
pub mod profile;
pub mod routes;
pub mod tun;
pub mod vpn_flow;
pub mod autostart;
pub mod canonical;
