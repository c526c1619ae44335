//! The gateway's own errors.

use vstd::prelude::*;

verus! {

/// A failure of the gateway itself.
#[derive(Clone, Debug)]
pub enum GatewayError {
    /// The configuration could not be used.
    Config(String),
    /// No upstream could be selected.
    NoUpstream,
}

impl GatewayError {
    /// The message describing the error.
    pub fn message(&self) -> (res: String)
        ensures
            res@ == (match self {
                GatewayError::Config(m) => "Config error: "@ + m@,
                GatewayError::NoUpstream => "Upstream selection failed"@,
            }),
    {
        match self {
            GatewayError::Config(m) => String::from_str("Config error: ").concat(m.as_str()),
            GatewayError::NoUpstream => String::from_str("Upstream selection failed"),
        }
    }
}

} // verus!
