//! The loader's layer-interface structures, as plain values.
//!
//! Function addresses are carried as `usize`; zero stands for null.

use vstd::prelude::*;
use crate::codes::LayerFunction;

verus! {

/// One link of the instance-level layer chain: how to reach the next layer.
#[derive(Copy, Clone, Debug, PartialEq, Eq, Structural, Hash)]
pub struct LayerInstanceLink {
    pub next_get_instance_proc_addr: usize,
    pub next_get_physical_device_proc_addr: usize,
}

/// The loader's device-creation callbacks for layers.
#[derive(Copy, Clone, Debug, PartialEq, Eq, Structural, Hash)]
pub struct LayerDevice {
    pub layer_create_device: usize,
    pub layer_destroy_device: usize,
}

/// One link of the device-level layer chain: how to reach the next layer.
#[derive(Copy, Clone, Debug, PartialEq, Eq, Structural, Hash)]
pub struct LayerDeviceLink {
    pub next_get_instance_proc_addr: usize,
    pub next_get_device_proc_addr: usize,
}

/// What an instance-level loader node carries, chosen by its function.
#[derive(Copy, Clone, Debug, PartialEq, Eq, Structural, Hash)]
pub enum LayerInstancePayload {
    LayerInfo(LayerInstanceLink),
    SetInstanceLoaderData(usize),
    LayerDevice(LayerDevice),
    LoaderFeatures(u32),
}

/// The loader's instance-creation node for layers.
#[derive(Copy, Clone, Debug, PartialEq, Eq, Structural, Hash)]
pub struct LayerInstanceCreateInfo {
    pub function: LayerFunction,
    pub payload: LayerInstancePayload,
}

/// What a device-level loader node carries, chosen by its function.
#[derive(Copy, Clone, Debug, PartialEq, Eq, Structural, Hash)]
pub enum LayerDevicePayload {
    LayerInfo(LayerDeviceLink),
    SetDeviceLoaderData(usize),
}

/// The loader's device-creation node for layers.
#[derive(Copy, Clone, Debug, PartialEq, Eq, Structural, Hash)]
pub struct LayerDeviceCreateInfo {
    pub function: LayerFunction,
    pub payload: LayerDevicePayload,
}

impl LayerInstanceCreateInfo {
    /// The link to the next layer, if this node carries one.
    pub open spec fn spec_link(self) -> Option<LayerInstanceLink> {
        if self.function.raw() == crate::codes::LAYER_LINK_INFO {
            match self.payload {
                LayerInstancePayload::LayerInfo(l) => Some(l),
                _ => None,
            }
        } else {
            None
        }
    }

    pub fn link(&self) -> (r: Option<LayerInstanceLink>)
        ensures
            r == self.spec_link(),
    {
        if self.function.as_raw() == crate::codes::LAYER_LINK_INFO {
            match self.payload {
                LayerInstancePayload::LayerInfo(l) => Some(l),
                _ => None,
            }
        } else {
            None
        }
    }
}

impl LayerDeviceCreateInfo {
    /// The link to the next layer, if this node carries one.
    pub open spec fn spec_link(self) -> Option<LayerDeviceLink> {
        if self.function.raw() == crate::codes::LAYER_LINK_INFO {
            match self.payload {
                LayerDevicePayload::LayerInfo(l) => Some(l),
                _ => None,
            }
        } else {
            None
        }
    }

    pub fn link(&self) -> (r: Option<LayerDeviceLink>)
        ensures
            r == self.spec_link(),
    {
        if self.function.as_raw() == crate::codes::LAYER_LINK_INFO {
            match self.payload {
                LayerDevicePayload::LayerInfo(l) => Some(l),
                _ => None,
            }
        } else {
            None
        }
    }
}

} // verus!
