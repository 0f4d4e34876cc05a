//! The USB function of the build: a descriptor tree and its memory
//! demands.

use vstd::prelude::*;

use crate::k20::builder::MemoryConfig;
use crate::k20::usbdescriptors::DescriptorTree;
use crate::util::Bytes;

verus! {

/// The USB part of the build configuration.
pub struct UsbConfig {
    pub descriptortree: DescriptorTree,
}

impl UsbConfig {
    pub fn new(descriptortree: DescriptorTree) -> (r: UsbConfig)
        ensures
            r.descriptortree == descriptortree,
    {
        UsbConfig { descriptortree }
    }

    /// Reserves room for the buffer descriptor table in the memory layout:
    /// its size follows from the highest endpoint address of the tree.
    pub fn configure(&mut self, memory_config: &mut MemoryConfig)
        ensures
            *final(self) == *old(self),
            *final(memory_config) == (MemoryConfig {
                usbdescriptortable_size: final(memory_config).usbdescriptortable_size,
                ..*old(memory_config)
            }),
            final(memory_config).usbdescriptortable_size.0 as int
                == (old(self).descriptortree.spec_max_addr() + 1) * 4 * 8,
    {
        memory_config.usbdescriptortable_size = Bytes::b(
            self.descriptortree.usbbufferdescriptors_size() as u32,
        );
    }
}

} // verus!
