//! Server configuration and its merge with command-line arguments.
use vstd::prelude::*;
use vstd::string::*;

verus! {

/// Address the server listens on when nothing else is configured.
pub const DEFAULT_ADDRESS: &'static str = "127.0.0.1:8080";

/// Settings of a server: where it listens and whether the websocket
/// endpoint is enabled (unset means the default of the caller).
pub struct ServerConfig {
    pub address: String,
    pub ws_enabled: Option<bool>,
}

/// Values given on the command line; an unset field leaves the
/// configured value as it is.
pub struct RunArgs {
    pub address: Option<String>,
    pub ws: Option<bool>,
}

impl Default for ServerConfig {
    fn default() -> (r: ServerConfig)
        ensures
            r.address@ == DEFAULT_ADDRESS@,
            r.ws_enabled.is_none(),
    {
        ServerConfig { address: String::from_str(DEFAULT_ADDRESS), ws_enabled: None }
    }
}

impl ServerConfig {
    /// Overrides each setting that `args` gives; the others are kept.
    pub fn merge_with_args(&mut self, args: &RunArgs)
        ensures
            final(self).address@ == (match args.address {
                Some(a) => a@,
                None => old(self).address@,
            }),
            final(self).ws_enabled == (match args.ws {
                Some(w) => Some(w),
                None => old(self).ws_enabled,
            }),
    {
        if let Some(address) = &args.address {
            self.address = address.clone();
        }
        if let Some(ws_enabled) = &args.ws {
            self.ws_enabled = Some(*ws_enabled);
        }
    }
}

} // verus!
