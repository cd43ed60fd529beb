//! One endpoint as the directory service describes it.
use vstd::prelude::*;
use vstd::string::StringExecFns;

verus! {

/// A server descriptor parsed from a discovery response.
///
/// The weighted load is carried as the bit pattern of the service's
/// single-precision value: nothing here reads it, it is kept for callers.
#[derive(Debug, Clone)]
pub struct Server {
    pub endpoint: String,
    pub legacy_endpoint: String,
    pub server_type: String,
    pub dc: String,
    pub realm: String,
    pub load: u32,
    pub wtd_load_bits: u32,
}

/// The connection URL of an endpoint: `wss://<endpoint>/cmsocket/`.
pub open spec fn url_of(endpoint: Seq<char>) -> Seq<char> {
    "wss://"@ + endpoint + "/cmsocket/"@
}

impl Server {
    /// The WebSocket URL under which this server accepts connections.
    pub fn url(&self) -> (r: String)
        ensures
            r@ == url_of(self.endpoint@),
    {
        let mut r = String::from_str("wss://");
        r.append(self.endpoint.as_str());
        r.append("/cmsocket/");
        r
    }
}

} // verus!
