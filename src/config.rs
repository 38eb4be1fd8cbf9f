//! The capability flag that gates interactive terminal access.
use vstd::prelude::*;
use crate::error::BridgeError;

verus! {

#[derive(PartialEq, Eq, Structural, Clone, Copy, Debug)]
pub struct AppConfig {
    /// Whether interactive terminal sessions may be opened at all.
    pub developer_mode: bool,
}

impl Default for AppConfig {
    /// Terminal access starts switched off.
    fn default() -> (r: AppConfig)
        ensures
            !r.developer_mode,
    {
        AppConfig { developer_mode: false }
    }
}

#[derive(PartialEq, Eq, Structural, Clone, Copy, Debug)]
pub struct UpdateConfigReq {
    pub developer_mode: bool,
}

impl AppConfig {
    /// Sets the flag to what the request asks.
    pub fn apply_update(&mut self, req: &UpdateConfigReq)
        ensures
            final(self).developer_mode == req.developer_mode,
    {
        self.developer_mode = req.developer_mode;
    }
}

pub open spec fn capability_outcome(developer_mode: bool) -> Result<(), BridgeError> {
    if developer_mode {
        Ok(())
    } else {
        Err(BridgeError::CapabilityDenied)
    }
}

/// The capability gate: admission is granted exactly when the flag is on.
pub fn check_capability(config: &AppConfig) -> (r: Result<(), BridgeError>)
    ensures
        r == capability_outcome(config.developer_mode),
{
    if config.developer_mode {
        Ok(())
    } else {
        Err(BridgeError::CapabilityDenied)
    }
}

} // verus!
