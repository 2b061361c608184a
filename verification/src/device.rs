//! Device descriptor types.

use vstd::prelude::*;

verus! {

/// Opaque ID for a physical input device on the source machine.
#[derive(Debug, Clone, Copy, PartialEq, Eq, Hash, Structural)]
pub struct DeviceId(pub u32);

/// Opaque ID for a virtual input device on the destination machine.
#[derive(Debug, Clone, Copy, PartialEq, Eq, Hash, Structural)]
pub struct VirtualDeviceId(pub u32);

/// Describes a physical input device.
#[derive(Debug, Clone, PartialEq, Eq)]
pub struct DeviceInfo {
    /// Local device ID.
    pub id: DeviceId,
    /// Human-readable name.
    pub name: String,
    /// What this device can do.
    pub capabilities: Vec<DeviceCapability>,
}

impl DeviceInfo {
    /// A copy with the same id, name, and capabilities.
    pub fn duplicate(&self) -> (r: Self)
        ensures
            r@ == self@,
            r.id == self.id,
            r.name@ == self.name@,
            r.capabilities@ == self.capabilities@,
    {
        let mut caps: Vec<DeviceCapability> = Vec::new();
        let mut i: usize = 0;
        while i < self.capabilities.len()
            invariant
                i <= self.capabilities@.len(),
                caps@ == self.capabilities@.take(i as int),
            decreases self.capabilities@.len() - i,
        {
            caps.push(self.capabilities[i]);
            proof {
                assert(caps@ =~= self.capabilities@.take(i + 1));
            }
            i = i + 1;
        }
        proof {
            assert(caps@ =~= self.capabilities@);
        }
        DeviceInfo { id: self.id, name: self.name.clone(), capabilities: caps }
    }
}

/// What kind of input a device supports.
#[derive(Debug, Clone, Copy, PartialEq, Eq, Hash, Structural)]
pub enum DeviceCapability {
    Keyboard,
    RelativeMouse,
    AbsoluteMouse,
    Scroll,
}

} // verus!
