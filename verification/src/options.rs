//! Command-line options of the loader process around the runtime.

use vstd::prelude::*;

verus! {

/// Command-line options for the loader: the port its server listens on, the
/// path of the compiled module to load (which must export a function named
/// `main`), and the path of its TOML configuration file.
pub struct Opt {
    pub http_listen_port: u16,
    pub wasm_path: String,
    pub config_path: String,
}

impl Opt {
    /// Bundles the loader's options.
    pub fn new(http_listen_port: u16, wasm_path: String, config_path: String) -> (r: Opt)
        ensures
            r.http_listen_port == http_listen_port,
            r.wasm_path == wasm_path,
            r.config_path == config_path,
    {
        Opt { http_listen_port, wasm_path, config_path }
    }
}

} // verus!
