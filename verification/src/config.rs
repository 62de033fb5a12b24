//! Configuration data consumed by the collaborators around the engine.
//! Loading these from a file is plain input and stays outside the engine.

use vstd::prelude::*;

verus! {

/// Where the RPC front-end binds.
#[derive(Debug)]
pub struct GrpcConfig {
    pub address: String,
    pub port: u16,
}

/// Where the HTTP front-end binds.
#[derive(Debug)]
pub struct HttpConfig {
    pub address: String,
    pub port: u16,
}

/// Where and how often metrics are pushed.
#[derive(Debug)]
pub struct MetricsConfig {
    pub remote_write_url: String,
    pub push_interval_seconds: u64,
}

/// Configuration of the serving process.
#[derive(Debug)]
pub struct QuasarServerConfig {
    pub grpc: GrpcConfig,
    pub http: HttpConfig,
    pub metrics: MetricsConfig,
    pub debug: bool,
}

/// Configuration of the synthetic load generator.
#[derive(Debug)]
pub struct QuasarClientConfig {
    pub grpc: GrpcConfig,
    pub http: HttpConfig,
    pub debug: bool,
    pub tasks: usize,
    pub create_chance: u8,
    pub deposit_chance: u8,
}

} // verus!
