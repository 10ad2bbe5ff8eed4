//! The logic of a manager of SSH tunnels: profiles and their secrets, the tunnels
//! that are up and those that are wanted, the requests of proxy clients, and the
//! machines that take clients in and move their bytes.
pub mod clients;
pub mod config;
pub mod config_laws;
pub mod connections;
pub mod http;
pub mod http_laws;
pub mod icon;
pub mod ids;
pub mod keychain;
pub mod keychain_laws;
pub mod keyfile;
pub mod known_hosts;
pub mod known_hosts_laws;
pub mod login;
pub mod proxy;
pub mod relay;
pub mod relay_laws;
pub mod runtime;
pub mod runtime_laws;
pub mod service;
pub mod socks;
pub mod text;
pub mod text_laws;
pub mod tray;
pub mod tunnel;
