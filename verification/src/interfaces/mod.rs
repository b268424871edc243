//! Processors that connect a stream to the outside world.
pub mod tcp_ip_client;
