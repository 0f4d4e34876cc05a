//! The K20 USB transceiver's buffer-descriptor control word and the USB
//! SETUP packet, modeled as plain values.
//!
//! A buffer descriptor is an 8-byte record the USB controller and the
//! processor share; its first 32-bit word carries the control flags.  The
//! volatile read or write of the real register is performed by the code
//! around the library; here only the bit arithmetic on the word is done,
//! as a read value (`BufferDescriptor_control_Get`) or an update to apply
//! (`BufferDescriptor_control_Update`, a value and a mask of the bits it
//! sets).

use vstd::prelude::*;

verus! {

/// The current value of a buffer descriptor's control word.
#[allow(non_camel_case_types)]
#[derive(Copy, Clone, Debug)]
pub struct BufferDescriptor_control {
    pub value: u32,
}

/// A snapshot read of a control word.
#[allow(non_camel_case_types)]
#[derive(Copy, Clone, Debug)]
pub struct BufferDescriptor_control_Get {
    pub value: u32,
}

/// A pending update of a control word: the new bits and the mask of bit
/// positions the update covers.
#[allow(non_camel_case_types)]
#[derive(Copy, Clone, Debug)]
pub struct BufferDescriptor_control_Update {
    pub value: u32,
    pub mask: u32,
}

/// Who owns the buffer descriptor: bit 7 of the control word.
#[allow(non_camel_case_types)]
pub enum BufferDescriptor_control_own {
    /// The processor may modify the descriptor.
    Processor,
    /// Only the USB controller may modify the descriptor.
    Controller,
}

/// Which data-toggle value was transmitted or received: bit 6.
#[allow(non_camel_case_types)]
pub enum BufferDescriptor_control_data01 {
    Data0,
    Data1,
}

impl BufferDescriptor_control_Get {
    /// A snapshot of the given control word.
    pub fn new(reg: &BufferDescriptor_control) -> (r: BufferDescriptor_control_Get)
        ensures
            r.value == reg.value,
    {
        BufferDescriptor_control_Get { value: reg.value }
    }

    /// The token bits of the control word (bits 5..2, overloaded with the
    /// keep/ninc/dts/stall flags).
    pub fn pid_tok(&self) -> (r: u32)
        ensures
            r == (self.value >> 2) & 0xF,
    {
        (self.value >> 2) & 0xF
    }
}

impl BufferDescriptor_control {
    /// The token bits of the control word.
    pub fn pid_tok(&self) -> (r: u32)
        ensures
            r == (self.value >> 2) & 0xF,
    {
        BufferDescriptor_control_Get::new(self).pid_tok()
    }

    /// An update that sets the token bits to `new_value`.
    pub fn set_pid_tok(&self, new_value: u32) -> (r: BufferDescriptor_control_Update)
        ensures
            r.value == (new_value & 0xF) << 2,
            r.mask == 0xFu32 << 2,
    {
        let mut setter = BufferDescriptor_control_Update::new(self);
        setter.set_pid_tok(new_value);
        proof {
            assert((0u32 & !(0xFu32 << 2)) | ((new_value & 0xF) << 2) == (new_value & 0xF) << 2)
                by (bit_vector);
            assert(0u32 | (0xFu32 << 2) == 0xFu32 << 2) by (bit_vector);
        }
        setter
    }
}

impl BufferDescriptor_control_Update {
    /// An empty update of the given control word: no bits set yet.
    pub fn new(_reg: &BufferDescriptor_control) -> (r: BufferDescriptor_control_Update)
        ensures
            r.value == 0,
            r.mask == 0,
    {
        BufferDescriptor_control_Update { value: 0, mask: 0 }
    }

    /// Sets the token bits (bits 5..2) to `new_value`.
    pub fn set_pid_tok(&mut self, new_value: u32)
        ensures
            final(self).value == (old(self).value & !(0xFu32 << 2)) | ((new_value & 0xF) << 2),
            final(self).mask == old(self).mask | (0xFu32 << 2),
    {
        self.value = (self.value & !(0xFu32 << 2)) | ((new_value & 0xF) << 2);
        self.mask = self.mask | (0xFu32 << 2);
    }

    /// Clears every bit of the low byte of the control word.
    pub fn zero_all(&mut self)
        ensures
            final(self).value == 0,
            final(self).mask == 0xFF,
    {
        self.value = 0x00;
        self.mask = 0xFF;
    }

    /// Sets the ownership flag (bit 7).
    pub fn set_own(&mut self, own: BufferDescriptor_control_own)
        ensures
            final(self).value == match own {
                BufferDescriptor_control_own::Processor => old(self).value & !0x80u32,
                BufferDescriptor_control_own::Controller => old(self).value | 0x80u32,
            },
            final(self).mask == old(self).mask | 0x80,
    {
        match own {
            BufferDescriptor_control_own::Processor => {
                self.value = self.value & !0x80u32;
            },
            BufferDescriptor_control_own::Controller => {
                self.value = self.value | 0x80u32;
            },
        }
        self.mask = self.mask | 0x80;
    }

    /// Sets the data-toggle-synchronization flag (bit 3).
    pub fn set_dts(&mut self, dts: bool)
        ensures
            final(self).value == if dts {
                old(self).value | 0x8u32
            } else {
                old(self).value & !0x8u32
            },
            final(self).mask == old(self).mask | 0x8,
    {
        if dts {
            self.value = self.value | 0x8u32;
        } else {
            self.value = self.value & !0x8u32;
        }
        self.mask = self.mask | 0x8;
    }

    /// Sets the data-toggle flag (bit 6).
    pub fn set_data01(&mut self, data01: BufferDescriptor_control_data01)
        ensures
            final(self).value == match data01 {
                BufferDescriptor_control_data01::Data0 => old(self).value & !0x40u32,
                BufferDescriptor_control_data01::Data1 => old(self).value | 0x40u32,
            },
            final(self).mask == old(self).mask | 0x40,
    {
        match data01 {
            BufferDescriptor_control_data01::Data0 => {
                self.value = self.value & !0x40u32;
            },
            BufferDescriptor_control_data01::Data1 => {
                self.value = self.value | 0x40u32;
            },
        }
        self.mask = self.mask | 0x40;
    }

    /// Sets the byte count (bits 25..16).
    pub fn set_bc(&mut self, bc: u32)
        ensures
            final(self).value == (old(self).value & !(0x3FFu32 << 16)) | ((bc & 0x3FF) << 16),
            final(self).mask == old(self).mask | (0x3FFu32 << 16),
    {
        self.value = (self.value & !(0x3FFu32 << 16)) | ((bc & 0x3FF) << 16);
        self.mask = self.mask | (0x3FFu32 << 16);
    }

    /// Hands the buffer back to the USB controller: owned by the
    /// controller, data-toggle synchronization on, the given toggle value,
    /// and the buffer's byte count.
    pub fn give_back(&mut self, buffersize: usize, data01: BufferDescriptor_control_data01)
        requires
            buffersize <= 0x3FF,
        ensures
            final(self).value == ((((old(self).value | 0x80) | 0x8) & (match data01 {
                BufferDescriptor_control_data01::Data0 => !0x40u32,
                BufferDescriptor_control_data01::Data1 => 0xFFFFFFFFu32,
            }) | (match data01 {
                BufferDescriptor_control_data01::Data0 => 0u32,
                BufferDescriptor_control_data01::Data1 => 0x40u32,
            })) & !(0x3FFu32 << 16)) | (((buffersize as u32) & 0x3FF) << 16),
            final(self).mask == old(self).mask | 0x80 | 0x8 | 0x40 | (0x3FFu32 << 16),
    {
        self.set_own(BufferDescriptor_control_own::Controller);
        self.set_dts(true);
        proof {
            let v = old(self).value | 0x80 | 0x8;
            assert(v & !0x40u32 == (v & !0x40u32) | 0u32) by (bit_vector);
            assert(v | 0x40u32 == (v & 0xFFFFFFFFu32) | 0x40u32) by (bit_vector);
        }
        self.set_data01(data01);
        self.set_bc(buffersize as u32);
    }
}

/// The eight bytes of a USB SETUP request, as plain fields.
#[allow(non_snake_case)]
#[derive(Copy, Clone, Debug)]
pub struct SetupPacket {
    /// Request characteristics: direction, type and recipient.
    pub bmRequestType: u8,
    /// The specific request.
    pub bRequest: u8,
    /// Use varies according to the request.
    pub wValue: u16,
    /// Use varies according to the request.
    pub wIndex: u16,
    /// The number of bytes to transfer if there is a data stage.
    pub wLength: u16,
}

/// The direction of the request's data stage.
pub enum DataDirection {
    HostToDevice,
    DeviceToHost,
}

/// The type bits of the request.
pub enum RequestType {
    Standard,
    Class,
    Vendor,
    Reserved,
}

/// The recipient bits of the request.
pub enum RequestRecipient {
    Device,
    Interface,
    Endpoint,
    Other,
    Reserved,
}

impl SetupPacket {
    /// The data-stage direction: bit 7 of `bmRequestType`.
    pub fn data_direction(&self) -> (r: DataDirection)
        ensures
            (r is DeviceToHost) == (self.bmRequestType & 0x80 != 0),
    {
        if self.bmRequestType & 0x80 != 0 {
            DataDirection::DeviceToHost
        } else {
            DataDirection::HostToDevice
        }
    }

    /// The request type: bits 6..5 of `bmRequestType`.
    pub fn request_type(&self) -> (r: RequestType)
        ensures
            ({
                let v = (self.bmRequestType & 0x60) >> 5;
                match r {
                    RequestType::Standard => v == 0,
                    RequestType::Class => v == 1,
                    RequestType::Vendor => v == 2,
                    RequestType::Reserved => v == 3,
                }
            }),
    {
        let b = self.bmRequestType;
        let v = (b & 0x60) >> 5;
        proof {
            assert(((b & 0x60) >> 5) <= 3) by (bit_vector);
        }
        match v {
            0 => RequestType::Standard,
            1 => RequestType::Class,
            2 => RequestType::Vendor,
            _ => RequestType::Reserved,
        }
    }

    /// The recipient: bits 4..0 of `bmRequestType`.
    pub fn recipient(&self) -> (r: RequestRecipient)
        ensures
            ({
                let v = self.bmRequestType & 0x1F;
                match r {
                    RequestRecipient::Device => v == 0,
                    RequestRecipient::Interface => v == 1,
                    RequestRecipient::Endpoint => v == 2,
                    RequestRecipient::Other => v == 3,
                    RequestRecipient::Reserved => v >= 4,
                }
            }),
    {
        let v = self.bmRequestType & 0x1F;
        match v {
            0 => RequestRecipient::Device,
            1 => RequestRecipient::Interface,
            2 => RequestRecipient::Endpoint,
            3 => RequestRecipient::Other,
            _ => RequestRecipient::Reserved,
        }
    }

    /// The request byte.
    pub fn request(&self) -> (r: u8)
        ensures
            r == self.bRequest,
    {
        self.bRequest
    }

    /// Clears the request byte, marking the packet as handled.
    pub fn clear_request(&mut self)
        ensures
            *final(self) == (SetupPacket { bRequest: 0, ..*old(self) }),
    {
        self.bRequest = 0;
    }

    /// The first two bytes as one little-endian 16-bit value: the request
    /// type in the low byte, the request in the high byte.
    pub fn request_and_type(&self) -> (r: u16)
        ensures
            r == self.bmRequestType + 256 * self.bRequest,
    {
        self.bmRequestType as u16 + 256 * (self.bRequest as u16)
    }

    #[allow(non_snake_case)]
    pub fn wValue(&self) -> (r: u16)
        ensures
            r == self.wValue,
    {
        self.wValue
    }

    #[allow(non_snake_case)]
    pub fn wIndex(&self) -> (r: u16)
        ensures
            r == self.wIndex,
    {
        self.wIndex
    }

    #[allow(non_snake_case)]
    pub fn wLength(&self) -> (r: u16)
        ensures
            r == self.wLength,
    {
        self.wLength
    }
}

} // verus!
