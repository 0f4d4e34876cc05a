//! The microcontroller-specific half of the build configuration.

use vstd::prelude::*;

use crate::builder::BuilderConfig;
use crate::k20::types::McuParameters;
use crate::k20::types::spec_is_mk20dx256vlh7_params;
use crate::k20::usb::UsbConfig;
use crate::util::Bytes;

verus! {

/// Some microcontrollers allow splitting the EEPROM to trade endurance
/// against size in two regions at the same time.
#[derive(Copy, Clone)]
pub enum EEESplit {
    Half,
    Quarter,
    Eighth,
    Unsupported,
}

impl EEESplit {
    pub fn is_unsupported(&self) -> (r: bool)
        ensures
            r == (*self is Unsupported),
    {
        match self {
            EEESplit::Unsupported => true,
            _ => false,
        }
    }
}

/// The memory-layout knobs the builder forwards to the linker script.
pub struct MemoryConfig {
    pub eeprom_size: Bytes,
    pub eeprom_split: EEESplit,
    pub eeprom_backup_size: Bytes,
    pub usbdescriptortable_size: Bytes,
}

/// Hardware configuration beyond the memory layout; nothing is configured
/// here yet.
pub struct HardwareConfig {}

/// The microcontroller-specific build configuration: the base
/// configuration plus the chip's parameter table, the memory layout and
/// the optional USB function.
pub struct McuSpecificConfig {
    pub base_config: BuilderConfig,
    pub mcu_parameters: McuParameters,
    pub memory_config: MemoryConfig,
    pub hardware_config: HardwareConfig,
    pub usb: Option<UsbConfig>,
    pub linker_script: bool,
}

impl McuSpecificConfig {
    /// Wraps the base configuration with the chip's parameter table and an
    /// empty memory layout.
    pub fn new(m: BuilderConfig) -> (r: McuSpecificConfig)
        requires
            m.mcu_type is Mk20dx256vlh7,
        ensures
            r.base_config == m,
            spec_is_mk20dx256vlh7_params(r.mcu_parameters),
            r.memory_config.eeprom_size.0 == 0,
            r.memory_config.eeprom_split is Unsupported,
            r.memory_config.eeprom_backup_size.0 == 0,
            r.memory_config.usbdescriptortable_size.0 == 0,
            r.usb is None,
            r.linker_script,
    {
        let mcu_parameters = McuParameters::from(m.get_mcu_type());
        McuSpecificConfig {
            base_config: m,
            mcu_parameters,
            memory_config: MemoryConfig {
                eeprom_size: Bytes::b(0),
                eeprom_split: EEESplit::Unsupported,
                eeprom_backup_size: Bytes::b(0),
                usbdescriptortable_size: Bytes::b(0),
            },
            hardware_config: HardwareConfig {  },
            usb: None,
            linker_script: true,
        }
    }

    pub fn get_base_config_mut(&mut self) -> (r: &mut BuilderConfig)
        ensures
            *r == old(self).base_config,
            *final(self) == (McuSpecificConfig { base_config: *final(r), ..*old(self) }),
    {
        &mut self.base_config
    }

    pub fn get_base_config(&self) -> (r: &BuilderConfig)
        ensures
            r == &self.base_config,
    {
        &self.base_config
    }

    pub fn get_mcu_parameters(&self) -> (r: &McuParameters)
        ensures
            r == &self.mcu_parameters,
    {
        &self.mcu_parameters
    }

    pub fn get_memory_config(&self) -> (r: &MemoryConfig)
        ensures
            r == &self.memory_config,
    {
        &self.memory_config
    }

    pub fn get_memory_config_mut(&mut self) -> (r: &mut MemoryConfig)
        ensures
            *r == old(self).memory_config,
            *final(self) == (McuSpecificConfig { memory_config: *final(r), ..*old(self) }),
    {
        &mut self.memory_config
    }

    /// The part of the FlexNVM left as program flash once the EEPROM
    /// backup is reserved.
    pub fn get_e_flash_size(&self) -> (r: Bytes)
        requires
            self.memory_config.eeprom_backup_size.0 <= self.mcu_parameters.flexnvm_size.0,
        ensures
            r.0 == self.mcu_parameters.flexnvm_size.0 - self.memory_config.eeprom_backup_size.0,
    {
        Bytes::b(self.mcu_parameters.get_flexnvm_size().0 - self.memory_config.eeprom_backup_size.0)
    }

    /// Applies a caller-supplied configuration step.
    pub fn with<F: FnOnce(McuSpecificConfig) -> McuSpecificConfig>(self, config_function: F) -> (r:
        McuSpecificConfig)
        requires
            config_function.requires((self,)),
        ensures
            config_function.ensures((self,), r),
    {
        config_function(self)
    }

    /// Attaches a USB function to the build.
    pub fn enable_usb(self, usb_config: UsbConfig) -> (r: McuSpecificConfig)
        ensures
            r.usb is Some,
            r.usb->0 == usb_config,
            r == (McuSpecificConfig { usb: r.usb, ..self }),
    {
        McuSpecificConfig { usb: Some(usb_config), ..self }
    }
}

} // verus!
