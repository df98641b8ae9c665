//! Model capability declarations.
use vstd::prelude::*;

verus! {

#[derive(Debug, Clone, Copy, PartialEq, Eq, Structural)]
pub enum Model {
    AvrX3800h,
    Unknown,
}

#[derive(Debug, Clone, Copy, PartialEq, Eq, Structural)]
pub struct ModelCapabilities {
    pub model: Model,
    pub tcp_avr_port: u16,
    pub heos_cli_port: u16,
    pub supports_heos_secure_cli: Option<bool>,
    pub needs_live_validation: bool,
}

impl ModelCapabilities {
    /// Every model starts with the documented ports and nothing verified.
    pub fn for_model(model: Model) -> (c: Self)
        ensures
            c == (ModelCapabilities {
                model,
                tcp_avr_port: 23,
                heos_cli_port: 1255,
                supports_heos_secure_cli: None,
                needs_live_validation: true,
            }),
    {
        match model {
            Model::AvrX3800h => ModelCapabilities {
                model,
                tcp_avr_port: 23,
                heos_cli_port: 1255,
                supports_heos_secure_cli: None,
                needs_live_validation: true,
            },
            Model::Unknown => ModelCapabilities {
                model,
                tcp_avr_port: 23,
                heos_cli_port: 1255,
                supports_heos_secure_cli: None,
                needs_live_validation: true,
            },
        }
    }
}

} // verus!
