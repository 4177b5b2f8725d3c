//! Settings of the host application that the engine names.

use vstd::prelude::*;
use vstd::string::StringExecFns;

verus! {

/// The kinds of compute device.
#[derive(Debug, Clone, Copy, PartialEq, Eq, Structural)]
pub enum DeviceType {
    /// The GPU backend.
    Wgpu,
    /// The CPU backend.
    Cpu,
}

impl Default for DeviceType {
    fn default() -> (r: DeviceType)
        ensures
            r == DeviceType::Wgpu,
    {
        DeviceType::Wgpu
    }
}

impl DeviceType {
    /// The kind's display name.
    pub fn to_string(&self) -> (r: String)
        ensures
            r@ == match *self {
                DeviceType::Wgpu => "WGPU (GPU)"@,
                DeviceType::Cpu => "CPU (NdArray)"@,
            },
    {
        match self {
            DeviceType::Wgpu => String::from_str("WGPU (GPU)"),
            DeviceType::Cpu => String::from_str("CPU (NdArray)"),
        }
    }
}

} // verus!
