//! What the adapters report of the bot implementation they connected to.
use vstd::prelude::*;

verus! {

/// The name and version of the bot implementation (best effort, filled in after
/// connecting).
pub struct ImplInfo {
    pub name: String,
    pub version: String,
    /// QQ protocol version (Milky only).
    pub qq_protocol_version: Option<String>,
    /// QQ protocol type (Milky only).
    pub qq_protocol_type: Option<String>,
    /// Milky specification version (Milky only).
    pub milky_version: Option<String>,
}

} // verus!
