//! The USB descriptor compiler.
//!
//! A caller builds a [`DescriptorTree`] out of plain descriptor values and
//! hands it to [`DescriptorTree::source`], which runs a five-stage pipeline:
//! string-table allocation, total-length calculation, endpoint validation,
//! buffer-descriptor-table sizing and binary serialization.  Every byte of
//! the emitted records is pinned down against the USB 2.0 / CDC 1.2 layouts
//! by the spec functions in this module.

use vstd::prelude::*;

use crate::seq_util::concat_map;
use crate::seq_util::sum_map;
use crate::seq_util::lemma_concat_map_split;
use crate::seq_util::lemma_concat_map_take_step;
use crate::seq_util::lemma_concat_map_take_all;
use crate::seq_util::lemma_sum_map_take_step;
use crate::seq_util::lemma_sum_map_nonneg;
use crate::seq_util::lemma_sum_map_take_bound;
use crate::seq_util::lemma_concat_map_pointwise;
use crate::seq_util::lemma_sum_map_pointwise;

verus! {

/// Everything that can make the descriptor compilation fail.  The compile
/// pipeline surfaces the first violation it meets in its deterministic
/// traversal order and aborts.
#[derive(Clone, Copy, PartialEq, Eq, Structural, Debug)]
pub enum CompileError {
    /// More than 254 user strings were registered (the fallback entry brings
    /// the total over 255).
    TooManyStrings,
    /// A string's UTF-16 payload exceeds 253 bytes and cannot be carried by
    /// the 8-bit length field of a string descriptor.
    StringTooLong,
    /// The tree holds more than one configuration descriptor.
    TooManyConfigurations,
    /// An interface carries class functional descriptors whose first entry
    /// is not the Header variant.
    InvalidFirstClassFunctionalDescriptor,
    /// Two endpoint descriptors claim the same physical endpoint number with
    /// the same direction.
    DuplicateEndpointDirection(u8),
    /// Endpoint descriptors sharing a physical number disagree on
    /// isochronous-versus-not.
    IsochronousModeConflict(u8),
    /// A class functional descriptor variant without a defined binary
    /// encoding was requested.
    UnsupportedClassFunctionalDescriptor,
    /// The configuration's maximum current is odd or exceeds 500 mA.
    InvalidMaxCurrent,
    /// An endpoint address carries a physical number of 16 or more.
    InvalidEndpointNumber(u8),
    /// Endpoint validation or buffer-table sizing was requested on a tree
    /// without any configuration.
    EndpointConfigTooFewConfigurations,
}

impl CompileError {
    /// The diagnostic text of the failure, naming the offending entity.
    pub open spec fn spec_message(&self) -> Seq<char> {
        match *self {
            CompileError::TooManyStrings => "Usb descriptor: too many strings."@,
            CompileError::StringTooLong
                => "Usb descriptor string too large. Max 253 encoded bytes."@,
            CompileError::TooManyConfigurations
                => "Usb devicetree: Maximum of one configuration descriptor supported."@,
            CompileError::InvalidFirstClassFunctionalDescriptor
                => "First cdc descriptor must be of type Header."@,
            CompileError::DuplicateEndpointDirection(n) => "Endpoint "@ + crate::util::u32_dec_str(
                n as u32,
            ) + " claims the same direction more than once."@,
            CompileError::IsochronousModeConflict(n) => "Endpoint "@ + crate::util::u32_dec_str(
                n as u32,
            ) + " is configured as isochronous and as not isochronous."@,
            CompileError::UnsupportedClassFunctionalDescriptor
                => "Cdc functional descriptor variant has no binary encoding."@,
            CompileError::InvalidMaxCurrent
                => "Usb current must be an even number of at most 500 mA."@,
            CompileError::InvalidEndpointNumber(n)
                => "Maximum usb endpoint number is 15; endpoint "@ + crate::util::u32_dec_str(
                n as u32,
            ) + " was requested."@,
            CompileError::EndpointConfigTooFewConfigurations
                => "Endpoint configuration requested without a configuration."@,
        }
    }

    /// Renders the diagnostic text of the failure.
    pub fn message(&self) -> (r: String)
        ensures
            r@ == self.spec_message(),
    {
        match self {
            CompileError::TooManyStrings => String::from_str(
                "Usb descriptor: too many strings.",
            ),
            CompileError::StringTooLong => String::from_str(
                "Usb descriptor string too large. Max 253 encoded bytes.",
            ),
            CompileError::TooManyConfigurations => String::from_str(
                "Usb devicetree: Maximum of one configuration descriptor supported.",
            ),
            CompileError::InvalidFirstClassFunctionalDescriptor => String::from_str(
                "First cdc descriptor must be of type Header.",
            ),
            CompileError::DuplicateEndpointDirection(n) => {
                let mut s = String::from_str("Endpoint ");
                let nr = crate::util::u32_to_string(*n as u32);
                s.append(nr.as_str());
                s.append(" claims the same direction more than once.");
                s
            },
            CompileError::IsochronousModeConflict(n) => {
                let mut s = String::from_str("Endpoint ");
                let nr = crate::util::u32_to_string(*n as u32);
                s.append(nr.as_str());
                s.append(" is configured as isochronous and as not isochronous.");
                s
            },
            CompileError::UnsupportedClassFunctionalDescriptor => String::from_str(
                "Cdc functional descriptor variant has no binary encoding.",
            ),
            CompileError::InvalidMaxCurrent => String::from_str(
                "Usb current must be an even number of at most 500 mA.",
            ),
            CompileError::InvalidEndpointNumber(n) => {
                let mut s = String::from_str("Maximum usb endpoint number is 15; endpoint ");
                let nr = crate::util::u32_to_string(*n as u32);
                s.append(nr.as_str());
                s.append(" was requested.");
                s
            },
            CompileError::EndpointConfigTooFewConfigurations => String::from_str(
                "Endpoint configuration requested without a configuration.",
            ),
        }
    }
}

/// The descriptor type identifiers of the USB and CDC specifications
/// (the `bDescriptorType` byte).
pub enum DescriptorTypes {
    Device,
    Configuration,
    String,
    Interface,
    Endpoint,
    DeviceQualifier,
    OtherSpeedConfiguration,
    InterfacePower,
    OnTheGo,
    CdcInterface,
    CdcEndpoint,
}

impl DescriptorTypes {
    /// The `bDescriptorType` value of this descriptor type.
    pub open spec fn spec_id(&self) -> u8 {
        match *self {
            DescriptorTypes::Device => 1,
            DescriptorTypes::Configuration => 2,
            DescriptorTypes::String => 3,
            DescriptorTypes::Interface => 4,
            DescriptorTypes::Endpoint => 5,
            DescriptorTypes::DeviceQualifier => 6,
            DescriptorTypes::OtherSpeedConfiguration => 7,
            DescriptorTypes::InterfacePower => 8,
            DescriptorTypes::OnTheGo => 9,
            DescriptorTypes::CdcInterface => 0x24,
            DescriptorTypes::CdcEndpoint => 0x25,
        }
    }

    pub fn id(&self) -> (r: u8)
        ensures
            r == self.spec_id(),
    {
        match *self {
            DescriptorTypes::Device => 1,
            DescriptorTypes::Configuration => 2,
            DescriptorTypes::String => 3,
            DescriptorTypes::Interface => 4,
            DescriptorTypes::Endpoint => 5,
            DescriptorTypes::DeviceQualifier => 6,
            DescriptorTypes::OtherSpeedConfiguration => 7,
            DescriptorTypes::InterfacePower => 8,
            DescriptorTypes::OnTheGo => 9,
            DescriptorTypes::CdcInterface => 0x24,
            DescriptorTypes::CdcEndpoint => 0x25,
        }
    }
}

/// The supported `bcdUSB` revision codes.
pub enum BcdUsb {
    Usb10,
    Usb11,
    Usb20,
}

impl BcdUsb {
    /// The binary-coded-decimal revision number of this USB version.
    pub open spec fn spec_id(&self) -> u16 {
        match *self {
            BcdUsb::Usb10 => 0x0100,
            BcdUsb::Usb11 => 0x0101,
            BcdUsb::Usb20 => 0x0200,
        }
    }

    pub fn id(&self) -> (r: u16)
        ensures
            r == self.spec_id(),
    {
        match *self {
            BcdUsb::Usb10 => 0x0100,
            BcdUsb::Usb11 => 0x0101,
            BcdUsb::Usb20 => 0x0200,
        }
    }
}

/// The supported `bcdCDC` revision codes.
pub enum BcdCdc {
    Cdc12,
}

impl BcdCdc {
    /// The binary-coded-decimal revision number of this CDC version.
    pub open spec fn spec_id(&self) -> u16 {
        match *self {
            BcdCdc::Cdc12 => 0x0110,
        }
    }

    pub fn id(&self) -> (r: u16)
        ensures
            r == self.spec_id(),
    {
        match *self {
            BcdCdc::Cdc12 => 0x0110,
        }
    }
}

/// A free-form binary-coded-decimal number, as used for `bcdDevice`.
pub struct Bcd(pub u16);

impl Bcd {
    /// True when every nibble of the value is a decimal digit.
    pub open spec fn spec_valid(&self) -> bool {
        self.0 % 16 <= 9 && (self.0 / 16) % 16 <= 9 && (self.0 / 256) % 16 <= 9 && self.0 / 4096
            <= 9
    }

    /// Checks that the value is well-formed binary-coded decimal.
    pub fn validate(&self) -> (r: bool)
        ensures
            r == self.spec_valid(),
    {
        self.0 % 16 <= 9 && (self.0 / 16) % 16 <= 9 && (self.0 / 256) % 16 <= 9 && self.0 / 4096
            <= 9
    }
}

/// The device class reported in the device descriptor.
pub enum DeviceClass {
    EachInterfaceDefinesOwnClass,
    VendorDefinedClass,
    ClassCode(u8),
}

impl DeviceClass {
    /// The `bDeviceClass` byte of this class choice.
    pub open spec fn spec_id(&self) -> u8 {
        match *self {
            DeviceClass::EachInterfaceDefinesOwnClass => 0x00,
            DeviceClass::VendorDefinedClass => 0xFF,
            DeviceClass::ClassCode(cc) => cc,
        }
    }

    pub fn id(&self) -> (r: u8)
        ensures
            r == self.spec_id(),
    {
        match *self {
            DeviceClass::EachInterfaceDefinesOwnClass => 0x00,
            DeviceClass::VendorDefinedClass => 0xFF,
            DeviceClass::ClassCode(cc) => cc,
        }
    }
}

/// The allowed maximum packet sizes of control endpoint zero.
pub enum MaxPacketSizeEP0 {
    Bytes8,
    Bytes16,
    Bytes32,
    Bytes64,
}

impl MaxPacketSizeEP0 {
    /// The `bMaxPacketSize0` byte of this packet size.
    pub open spec fn spec_id(&self) -> u8 {
        match *self {
            MaxPacketSizeEP0::Bytes8 => 8,
            MaxPacketSizeEP0::Bytes16 => 16,
            MaxPacketSizeEP0::Bytes32 => 32,
            MaxPacketSizeEP0::Bytes64 => 64,
        }
    }

    pub fn id(&self) -> (r: u8)
        ensures
            r == self.spec_id(),
    {
        match *self {
            MaxPacketSizeEP0::Bytes8 => 8,
            MaxPacketSizeEP0::Bytes16 => 16,
            MaxPacketSizeEP0::Bytes32 => 32,
            MaxPacketSizeEP0::Bytes64 => 64,
        }
    }
}

/// The UTF-16 code units encoding a single character.
pub open spec fn utf16_of_char(c: char) -> Seq<u16> {
    let v = c as int;
    if v < 0x10000 {
        seq![v as u16]
    } else {
        seq![
            (0xD800 + (v - 0x10000) / 0x400) as u16,
            (0xDC00 + (v - 0x10000) % 0x400) as u16,
        ]
    }
}

/// The UTF-16 encoding of a character sequence.
pub open spec fn utf16_units(s: Seq<char>) -> Seq<u16> {
    concat_map(s, |c: char| utf16_of_char(c))
}

/// Appends the UTF-16 encoding of `c` to `units`.
fn push_utf16_char(units: &mut Vec<u16>, c: char)
    ensures
        final(units)@ == old(units)@ + utf16_of_char(c),
{
    let v = c as u32;
    if v < 0x10000 {
        units.push(v as u16);
    } else {
        let w = v - 0x10000;
        units.push((0xD800 + w / 0x400) as u16);
        units.push((0xDC00 + w % 0x400) as u16);
        assert(old(units)@ + utf16_of_char(c) =~= final(units)@);
    }
    assert(old(units)@ + utf16_of_char(c) =~= final(units)@);
}

/// A human-readable string of the descriptor tree: its UTF-16 payload paired
/// with the table index the string allocator assigns.  A fresh string starts
/// out with the unassigned sentinel id 0.
pub struct StringId {
    /// The allocated string-table index; 0 while unassigned.
    pub id: u8,
    /// The string's UTF-16 code units.
    pub units: Vec<u16>,
}

impl StringId {
    /// A new, unallocated string holding the UTF-16 encoding of `s`.
    pub fn new(s: &str) -> (r: StringId)
        ensures
            r.id == 0,
            r.units@ == utf16_units(s@),
    {
        let n = s.unicode_len();
        let mut units: Vec<u16> = Vec::new();
        assert(units@ =~= utf16_units(s@.take(0)));
        for i in 0..n
            invariant
                n == s@.len(),
                units@ == utf16_units(s@.take(i as int)),
        {
            let c = s.get_char(i);
            push_utf16_char(&mut units, c);
            proof {
                lemma_concat_map_take_step(s@, |ch: char| utf16_of_char(ch), i as int);
            }
        }
        proof {
            lemma_concat_map_take_all(s@, |ch: char| utf16_of_char(ch));
        }
        StringId { id: 0, units }
    }
}

/// The configuration attribute bits (`bmAttributes` of the configuration
/// descriptor).
pub struct ConfAttributes {
    pub self_powered: bool,
    pub remote_wakeup: bool,
}

impl ConfAttributes {
    /// The `bmAttributes` byte: bit 7 always set, bit 6 for self-powered,
    /// bit 5 for remote wakeup.
    pub open spec fn spec_id(&self) -> u8 {
        (128 + (if self.self_powered {
            64int
        } else {
            0int
        }) + (if self.remote_wakeup {
            32int
        } else {
            0int
        })) as u8
    }

    pub fn id(&self) -> (r: u8)
        ensures
            r == self.spec_id(),
    {
        let mut b: u8 = 128;
        if self.self_powered {
            b = b + 64;
        }
        if self.remote_wakeup {
            b = b + 32;
        }
        b
    }
}

/// The configuration's maximum current draw, stored in milliamps and
/// encoded on the wire in 2 mA units.
pub struct MaxCurrent {
    pub milli_amps: u32,
}

impl MaxCurrent {
    /// True when the value can be encoded: even and at most 500 mA.
    pub open spec fn spec_valid(&self) -> bool {
        self.milli_amps % 2 == 0 && self.milli_amps <= 500
    }

    /// The `bMaxPower` byte: the current in half-milliamp pairs.
    pub open spec fn spec_id(&self) -> u8 {
        (self.milli_amps / 2) as u8
    }

    pub fn id(&self) -> (r: u8)
        requires
            self.spec_valid(),
        ensures
            r == self.spec_id(),
    {
        (self.milli_amps / 2) as u8
    }
}

/// An endpoint address: a direction and a physical endpoint number.
pub enum EndpointAddress {
    In(u8),
    Out(u8),
}

impl EndpointAddress {
    /// The physical endpoint number, regardless of direction.
    pub open spec fn spec_nr(&self) -> u8 {
        match *self {
            EndpointAddress::In(nr) => nr,
            EndpointAddress::Out(nr) => nr,
        }
    }

    /// True for an IN (device-to-host) endpoint.
    pub open spec fn spec_is_in(&self) -> bool {
        match *self {
            EndpointAddress::In(_) => true,
            EndpointAddress::Out(_) => false,
        }
    }

    /// The `bEndpointAddress` byte: the number, with bit 7 set for IN.
    pub open spec fn spec_id(&self) -> u8 {
        if self.spec_is_in() {
            (128 + self.spec_nr() as int) as u8
        } else {
            self.spec_nr()
        }
    }

    pub fn id(&self) -> (r: u8)
        requires
            self.spec_nr() < 16,
        ensures
            r == self.spec_id(),
    {
        match *self {
            EndpointAddress::Out(nr) => nr,
            EndpointAddress::In(nr) => 128 + nr,
        }
    }

    /// The physical endpoint number, regardless of direction.
    pub fn addr(&self) -> (r: u8)
        ensures
            r == self.spec_nr(),
    {
        match *self {
            EndpointAddress::Out(nr) => nr,
            EndpointAddress::In(nr) => nr,
        }
    }
}

/// The endpoint attribute byte is the transfer type.
pub type EndpointAttributes = TransferType;

/// The transfer type of an endpoint (`bmAttributes` of the endpoint
/// descriptor).
pub enum TransferType {
    Control,
    Isochronous(SyncType, UsageType),
    Bulk,
    Interrupt,
}

/// The synchronisation type of an isochronous endpoint.
pub enum SyncType {
    NoSync,
    Async,
    Adaptive,
    Sync,
}

/// The usage type of an isochronous endpoint.
pub enum UsageType {
    Data,
    Feedback,
    ImplicitFeedbackData,
}

impl SyncType {
    /// The two synchronisation bits of the endpoint attribute byte.
    pub open spec fn spec_id(&self) -> u8 {
        match *self {
            SyncType::NoSync => 0,
            SyncType::Async => 1,
            SyncType::Adaptive => 2,
            SyncType::Sync => 3,
        }
    }

    pub fn id(&self) -> (r: u8)
        ensures
            r == self.spec_id(),
    {
        match *self {
            SyncType::NoSync => 0,
            SyncType::Async => 1,
            SyncType::Adaptive => 2,
            SyncType::Sync => 3,
        }
    }
}

impl UsageType {
    /// The two usage bits of the endpoint attribute byte.
    pub open spec fn spec_id(&self) -> u8 {
        match *self {
            UsageType::Data => 0,
            UsageType::Feedback => 1,
            UsageType::ImplicitFeedbackData => 2,
        }
    }

    pub fn id(&self) -> (r: u8)
        ensures
            r == self.spec_id(),
    {
        match *self {
            UsageType::Data => 0,
            UsageType::Feedback => 1,
            UsageType::ImplicitFeedbackData => 2,
        }
    }
}

impl TransferType {
    /// The endpoint attribute byte: the transfer type in bits 0..1, and for
    /// isochronous endpoints the sync type in bits 2..3 and the usage type
    /// in bits 4..5.
    pub open spec fn spec_id(&self) -> u8 {
        match *self {
            TransferType::Control => 0,
            TransferType::Isochronous(sync, usage) => (1 + 4 * sync.spec_id() as int + 16
                * usage.spec_id() as int) as u8,
            TransferType::Bulk => 2,
            TransferType::Interrupt => 3,
        }
    }

    /// True for the isochronous transfer type.
    pub open spec fn spec_is_isochronous(&self) -> bool {
        match *self {
            TransferType::Isochronous(_, _) => true,
            _ => false,
        }
    }

    pub fn id(&self) -> (r: u8)
        ensures
            r == self.spec_id(),
    {
        match self {
            TransferType::Control => 0,
            TransferType::Isochronous(sync, usage) => 1 + 4 * sync.id() + 16 * usage.id(),
            TransferType::Bulk => 2,
            TransferType::Interrupt => 3,
        }
    }

    pub fn is_isochronus(&self) -> (r: bool)
        ensures
            r == self.spec_is_isochronous(),
    {
        match self {
            TransferType::Isochronous(_, _) => true,
            _ => false,
        }
    }
}

/// The low byte of a 16-bit value (little-endian wire order sends it first).
pub open spec fn spec_lsb(i: u16) -> u8 {
    (i % 256) as u8
}

/// The high byte of a 16-bit value.
pub open spec fn spec_msb(i: u16) -> u8 {
    (i / 256) as u8
}

/// A 16-bit value in little-endian wire order.
pub open spec fn u16_le(i: u16) -> Seq<u8> {
    seq![spec_lsb(i), spec_msb(i)]
}

/// A sequence of 16-bit values in little-endian wire order.
pub open spec fn units_le_bytes(s: Seq<u16>) -> Seq<u8> {
    concat_map(s, |u: u16| u16_le(u))
}

/// Extending the prefix of encoded 16-bit values by one appends its two
/// bytes.
proof fn lemma_units_le_bytes_take_step(s: Seq<u16>, i: int)
    requires
        0 <= i < s.len(),
    ensures
        units_le_bytes(s.take(i + 1)) == units_le_bytes(s.take(i)) + u16_le(s[i]),
{
    lemma_concat_map_take_step(s, |u: u16| u16_le(u), i);
}

/// The encoding of 16-bit values is two bytes per value.
proof fn lemma_units_le_bytes_len(s: Seq<u16>)
    ensures
        units_le_bytes(s).len() == 2 * s.len(),
    decreases s.len(),
{
    if s.len() > 0 {
        lemma_units_le_bytes_len(s.drop_last());
    }
}

fn lsb(i: u16) -> (r: u8)
    ensures
        r == spec_lsb(i),
{
    (i % 256) as u8
}

fn msb(i: u16) -> (r: u8)
    ensures
        r == spec_msb(i),
{
    (i / 256) as u8
}

/// Appends every byte of `src` to `dst`.
fn push_bytes(dst: &mut Vec<u8>, src: &Vec<u8>)
    ensures
        final(dst)@ == old(dst)@ + src@,
{
    let n = src.len();
    for i in 0..n
        invariant
            n == src@.len(),
            dst@ == old(dst)@ + src@.take(i as int),
    {
        dst.push(src[i]);
        assert(old(dst)@ + src@.take(i + 1) =~= dst@);
    }
    assert(old(dst)@ + src@.take(n as int) =~= old(dst)@ + src@);
}

/// A CDC class-specific interface functional descriptor.  The variant names
/// match the `bDescriptorSubtype` identifiers of the CDC specification; only
/// Header, CallManagement, AbstractControlManagement and Union have a binary
/// encoding here, every other variant is rejected by the compiler.
#[allow(non_snake_case)]
pub enum CdcInterfaceFunctionalDescriptor {
    Header { bcdCDC: BcdCdc },
    CallManagement { bmCapabilities: u8, bDataInterface: u8 },
    AbstractControlManagement { bmCapabilities: u8 },
    DirectLineManagement,
    TelephoneRinger,
    TelephoneCallAndLineStateReportingCapabilities,
    /// `bControlInterface` is the interface number of the controlling
    /// interface of the union, `bSubordinateInterfaces` the numbers of the
    /// subordinate interfaces, all zero-based indices into this
    /// configuration.
    Union { bControlInterface: u8, bSubordinateInterfaces: Vec<u8> },
    CountrySelection { iCountryCodeRelDate: StringId, wCountryCodes: Vec<u16> },
    TelephoneOperationalModes,
    UsbTerminal,
    NetworkChannel,
    ProtocolUnit,
    ExtensionUnit,
    MultiChannelManagement,
    CapiControlManagement,
    EthernetNetworking,
    AtmNetworking,
    WirelessHandsetControlModel,
    MobileDirectLineModel,
    MdlmDetail,
    DeviceManagementModel,
    Obex,
    CommandSet,
    CommandSetDetail,
    TelephoneControlModel,
    ObexServiceIdentifier,
    Ncm,
    Mbim,
    MbimExtended,
    /// Subtype identifiers 0x1D-0x7F.
    FutureUse { sub_type_id: u8, data: Vec<u8> },
    /// Subtype identifiers 0x80-0xFE.
    VendorSpecific { sub_type_id: u8, data: Vec<u8> },
}

impl CdcInterfaceFunctionalDescriptor {
    /// True for the four variants with a defined binary encoding.
    pub open spec fn spec_supported(&self) -> bool {
        match *self {
            CdcInterfaceFunctionalDescriptor::Header { .. } => true,
            CdcInterfaceFunctionalDescriptor::CallManagement { .. } => true,
            CdcInterfaceFunctionalDescriptor::AbstractControlManagement { .. } => true,
            CdcInterfaceFunctionalDescriptor::Union { .. } => true,
            _ => false,
        }
    }

    /// True when the descriptor fits its 8-bit length field: a union may
    /// name at most 251 subordinate interfaces.
    pub open spec fn spec_sized(&self) -> bool {
        match *self {
            CdcInterfaceFunctionalDescriptor::Union { bSubordinateInterfaces, .. } => {
                bSubordinateInterfaces@.len() <= 251
            },
            _ => true,
        }
    }

    /// The `bDescriptorSubtype` identifier of this variant.
    pub open spec fn spec_sub_type_id(&self) -> u8 {
        match *self {
            CdcInterfaceFunctionalDescriptor::Header { .. } => 0x00,
            CdcInterfaceFunctionalDescriptor::CallManagement { .. } => 0x01,
            CdcInterfaceFunctionalDescriptor::AbstractControlManagement { .. } => 0x02,
            CdcInterfaceFunctionalDescriptor::DirectLineManagement => 0x03,
            CdcInterfaceFunctionalDescriptor::TelephoneRinger => 0x04,
            CdcInterfaceFunctionalDescriptor::TelephoneCallAndLineStateReportingCapabilities
                => 0x05,
            CdcInterfaceFunctionalDescriptor::Union { .. } => 0x06,
            CdcInterfaceFunctionalDescriptor::CountrySelection { .. } => 0x07,
            CdcInterfaceFunctionalDescriptor::TelephoneOperationalModes => 0x08,
            CdcInterfaceFunctionalDescriptor::UsbTerminal => 0x09,
            CdcInterfaceFunctionalDescriptor::NetworkChannel => 0x0A,
            CdcInterfaceFunctionalDescriptor::ProtocolUnit => 0x0B,
            CdcInterfaceFunctionalDescriptor::ExtensionUnit => 0x0C,
            CdcInterfaceFunctionalDescriptor::MultiChannelManagement => 0x0D,
            CdcInterfaceFunctionalDescriptor::CapiControlManagement => 0x0E,
            CdcInterfaceFunctionalDescriptor::EthernetNetworking => 0x0F,
            CdcInterfaceFunctionalDescriptor::AtmNetworking => 0x10,
            CdcInterfaceFunctionalDescriptor::WirelessHandsetControlModel => 0x11,
            CdcInterfaceFunctionalDescriptor::MobileDirectLineModel => 0x12,
            CdcInterfaceFunctionalDescriptor::MdlmDetail => 0x13,
            CdcInterfaceFunctionalDescriptor::DeviceManagementModel => 0x14,
            CdcInterfaceFunctionalDescriptor::Obex => 0x15,
            CdcInterfaceFunctionalDescriptor::CommandSet => 0x16,
            CdcInterfaceFunctionalDescriptor::CommandSetDetail => 0x17,
            CdcInterfaceFunctionalDescriptor::TelephoneControlModel => 0x18,
            CdcInterfaceFunctionalDescriptor::ObexServiceIdentifier => 0x19,
            CdcInterfaceFunctionalDescriptor::Ncm => 0x1A,
            CdcInterfaceFunctionalDescriptor::Mbim => 0x1B,
            CdcInterfaceFunctionalDescriptor::MbimExtended => 0x1C,
            CdcInterfaceFunctionalDescriptor::FutureUse { sub_type_id, .. } => sub_type_id,
            CdcInterfaceFunctionalDescriptor::VendorSpecific { sub_type_id, .. } => sub_type_id,
        }
    }

    /// The length of the variant-specific data that follows the three-byte
    /// functional-descriptor header (zero for unsupported variants).
    pub open spec fn spec_data_len(&self) -> int {
        match *self {
            CdcInterfaceFunctionalDescriptor::Header { .. } => 2,
            CdcInterfaceFunctionalDescriptor::CallManagement { .. } => 2,
            CdcInterfaceFunctionalDescriptor::AbstractControlManagement { .. } => 1,
            CdcInterfaceFunctionalDescriptor::Union { bSubordinateInterfaces, .. } => {
                1 + bSubordinateInterfaces@.len() as int
            },
            _ => 0,
        }
    }

    /// The `bFunctionLength` of the descriptor: the three header bytes plus
    /// the variant-specific data.
    pub open spec fn spec_len(&self) -> int {
        3 + self.spec_data_len()
    }

    /// The variant-specific data bytes that follow the three-byte header.
    pub open spec fn spec_data_bytes(&self) -> Seq<u8> {
        match *self {
            CdcInterfaceFunctionalDescriptor::Header { bcdCDC } => u16_le(bcdCDC.spec_id()),
            CdcInterfaceFunctionalDescriptor::CallManagement { bmCapabilities, bDataInterface }
                => seq![bmCapabilities, bDataInterface],
            CdcInterfaceFunctionalDescriptor::AbstractControlManagement { bmCapabilities }
                => seq![bmCapabilities],
            CdcInterfaceFunctionalDescriptor::Union {
                bControlInterface,
                bSubordinateInterfaces,
            } => seq![bControlInterface] + bSubordinateInterfaces@,
            _ => Seq::empty(),
        }
    }

    /// The full binary encoding: length, the CS_INTERFACE type byte, the
    /// subtype, then the variant-specific data.
    pub open spec fn spec_bytes(&self) -> Seq<u8> {
        seq![self.spec_len() as u8, 0x24u8, self.spec_sub_type_id()] + self.spec_data_bytes()
    }

    /// True for the four variants with a defined binary encoding.
    pub fn is_supported(&self) -> (r: bool)
        ensures
            r == self.spec_supported(),
    {
        match self {
            CdcInterfaceFunctionalDescriptor::Header { .. } => true,
            CdcInterfaceFunctionalDescriptor::CallManagement { .. } => true,
            CdcInterfaceFunctionalDescriptor::AbstractControlManagement { .. } => true,
            CdcInterfaceFunctionalDescriptor::Union { .. } => true,
            _ => false,
        }
    }

    /// The encoded size of the descriptor in bytes.
    pub fn len(&self) -> (r: u8)
        requires
            self.spec_supported(),
            self.spec_sized(),
        ensures
            r as int == self.spec_len(),
    {
        let (_, datalength) = self.source_data_part();
        3 + datalength
    }

    /// The binary encoding of the descriptor.
    pub fn source(&self) -> (r: Vec<u8>)
        requires
            self.spec_supported(),
            self.spec_sized(),
        ensures
            r@ == self.spec_bytes(),
            r@.len() == self.spec_len(),
    {
        let (datasource, datalength) = self.source_data_part();
        let mut r: Vec<u8> = Vec::new();
        r.push(3 + datalength);
        r.push(0x24);
        r.push(self.sub_type_id());
        push_bytes(&mut r, &datasource);
        assert(r@ =~= self.spec_bytes());
        r
    }

    fn sub_type_id(&self) -> (r: u8)
        ensures
            r == self.spec_sub_type_id(),
    {
        match self {
            CdcInterfaceFunctionalDescriptor::Header { .. } => 0x00,
            CdcInterfaceFunctionalDescriptor::CallManagement { .. } => 0x01,
            CdcInterfaceFunctionalDescriptor::AbstractControlManagement { .. } => 0x02,
            CdcInterfaceFunctionalDescriptor::DirectLineManagement => 0x03,
            CdcInterfaceFunctionalDescriptor::TelephoneRinger => 0x04,
            CdcInterfaceFunctionalDescriptor::TelephoneCallAndLineStateReportingCapabilities
                => 0x05,
            CdcInterfaceFunctionalDescriptor::Union { .. } => 0x06,
            CdcInterfaceFunctionalDescriptor::CountrySelection { .. } => 0x07,
            CdcInterfaceFunctionalDescriptor::TelephoneOperationalModes => 0x08,
            CdcInterfaceFunctionalDescriptor::UsbTerminal => 0x09,
            CdcInterfaceFunctionalDescriptor::NetworkChannel => 0x0A,
            CdcInterfaceFunctionalDescriptor::ProtocolUnit => 0x0B,
            CdcInterfaceFunctionalDescriptor::ExtensionUnit => 0x0C,
            CdcInterfaceFunctionalDescriptor::MultiChannelManagement => 0x0D,
            CdcInterfaceFunctionalDescriptor::CapiControlManagement => 0x0E,
            CdcInterfaceFunctionalDescriptor::EthernetNetworking => 0x0F,
            CdcInterfaceFunctionalDescriptor::AtmNetworking => 0x10,
            CdcInterfaceFunctionalDescriptor::WirelessHandsetControlModel => 0x11,
            CdcInterfaceFunctionalDescriptor::MobileDirectLineModel => 0x12,
            CdcInterfaceFunctionalDescriptor::MdlmDetail => 0x13,
            CdcInterfaceFunctionalDescriptor::DeviceManagementModel => 0x14,
            CdcInterfaceFunctionalDescriptor::Obex => 0x15,
            CdcInterfaceFunctionalDescriptor::CommandSet => 0x16,
            CdcInterfaceFunctionalDescriptor::CommandSetDetail => 0x17,
            CdcInterfaceFunctionalDescriptor::TelephoneControlModel => 0x18,
            CdcInterfaceFunctionalDescriptor::ObexServiceIdentifier => 0x19,
            CdcInterfaceFunctionalDescriptor::Ncm => 0x1A,
            CdcInterfaceFunctionalDescriptor::Mbim => 0x1B,
            CdcInterfaceFunctionalDescriptor::MbimExtended => 0x1C,
            CdcInterfaceFunctionalDescriptor::FutureUse { sub_type_id, .. } => *sub_type_id,
            CdcInterfaceFunctionalDescriptor::VendorSpecific { sub_type_id, .. } => *sub_type_id,
        }
    }

    /// The name of the variant, as the CDC specification spells it.
    pub open spec fn spec_name(&self) -> Seq<char> {
        match *self {
            CdcInterfaceFunctionalDescriptor::Header { .. } => "Header"@,
            CdcInterfaceFunctionalDescriptor::CallManagement { .. } => "CallManagement"@,
            CdcInterfaceFunctionalDescriptor::AbstractControlManagement { .. }
                => "AbstractControlManagement"@,
            CdcInterfaceFunctionalDescriptor::DirectLineManagement => "DirectLineManagement"@,
            CdcInterfaceFunctionalDescriptor::TelephoneRinger => "TelephoneRinger"@,
            CdcInterfaceFunctionalDescriptor::TelephoneCallAndLineStateReportingCapabilities
                => "TelephoneCallAndLineStateReportingCapabilities"@,
            CdcInterfaceFunctionalDescriptor::Union { .. } => "Union"@,
            CdcInterfaceFunctionalDescriptor::CountrySelection { .. } => "CountrySelection"@,
            CdcInterfaceFunctionalDescriptor::TelephoneOperationalModes
                => "TelephoneOperationalModes"@,
            CdcInterfaceFunctionalDescriptor::UsbTerminal => "UsbTerminal"@,
            CdcInterfaceFunctionalDescriptor::NetworkChannel => "NetworkChannel"@,
            CdcInterfaceFunctionalDescriptor::ProtocolUnit => "ProtocolUnit"@,
            CdcInterfaceFunctionalDescriptor::ExtensionUnit => "ExtensionUnit"@,
            CdcInterfaceFunctionalDescriptor::MultiChannelManagement => "MultiChannelManagement"@,
            CdcInterfaceFunctionalDescriptor::CapiControlManagement => "CapiControlManagement"@,
            CdcInterfaceFunctionalDescriptor::EthernetNetworking => "EthernetNetworking"@,
            CdcInterfaceFunctionalDescriptor::AtmNetworking => "AtmNetworking"@,
            CdcInterfaceFunctionalDescriptor::WirelessHandsetControlModel
                => "WirelessHandsetControlModel"@,
            CdcInterfaceFunctionalDescriptor::MobileDirectLineModel => "MobileDirectLineModel"@,
            CdcInterfaceFunctionalDescriptor::MdlmDetail => "MdlmDetail"@,
            CdcInterfaceFunctionalDescriptor::DeviceManagementModel => "DeviceManagementModel"@,
            CdcInterfaceFunctionalDescriptor::Obex => "Obex"@,
            CdcInterfaceFunctionalDescriptor::CommandSet => "CommandSet"@,
            CdcInterfaceFunctionalDescriptor::CommandSetDetail => "CommandSetDetail"@,
            CdcInterfaceFunctionalDescriptor::TelephoneControlModel => "TelephoneControlModel"@,
            CdcInterfaceFunctionalDescriptor::ObexServiceIdentifier => "ObexServiceIdentifier"@,
            CdcInterfaceFunctionalDescriptor::Ncm => "Ncm"@,
            CdcInterfaceFunctionalDescriptor::Mbim => "Mbim"@,
            CdcInterfaceFunctionalDescriptor::MbimExtended => "MbimExtended"@,
            CdcInterfaceFunctionalDescriptor::FutureUse { .. } => "FutureUse"@,
            CdcInterfaceFunctionalDescriptor::VendorSpecific { .. } => "VendorSpecific"@,
        }
    }

    /// The name of the variant, for diagnostics.
    pub fn name(&self) -> (r: String)
        ensures
            r@ == self.spec_name(),
    {
        let s: &str = match self {
            CdcInterfaceFunctionalDescriptor::Header { .. } => "Header",
            CdcInterfaceFunctionalDescriptor::CallManagement { .. } => "CallManagement",
            CdcInterfaceFunctionalDescriptor::AbstractControlManagement { .. }
                => "AbstractControlManagement",
            CdcInterfaceFunctionalDescriptor::DirectLineManagement => "DirectLineManagement",
            CdcInterfaceFunctionalDescriptor::TelephoneRinger => "TelephoneRinger",
            CdcInterfaceFunctionalDescriptor::TelephoneCallAndLineStateReportingCapabilities
                => "TelephoneCallAndLineStateReportingCapabilities",
            CdcInterfaceFunctionalDescriptor::Union { .. } => "Union",
            CdcInterfaceFunctionalDescriptor::CountrySelection { .. } => "CountrySelection",
            CdcInterfaceFunctionalDescriptor::TelephoneOperationalModes
                => "TelephoneOperationalModes",
            CdcInterfaceFunctionalDescriptor::UsbTerminal => "UsbTerminal",
            CdcInterfaceFunctionalDescriptor::NetworkChannel => "NetworkChannel",
            CdcInterfaceFunctionalDescriptor::ProtocolUnit => "ProtocolUnit",
            CdcInterfaceFunctionalDescriptor::ExtensionUnit => "ExtensionUnit",
            CdcInterfaceFunctionalDescriptor::MultiChannelManagement => "MultiChannelManagement",
            CdcInterfaceFunctionalDescriptor::CapiControlManagement => "CapiControlManagement",
            CdcInterfaceFunctionalDescriptor::EthernetNetworking => "EthernetNetworking",
            CdcInterfaceFunctionalDescriptor::AtmNetworking => "AtmNetworking",
            CdcInterfaceFunctionalDescriptor::WirelessHandsetControlModel
                => "WirelessHandsetControlModel",
            CdcInterfaceFunctionalDescriptor::MobileDirectLineModel => "MobileDirectLineModel",
            CdcInterfaceFunctionalDescriptor::MdlmDetail => "MdlmDetail",
            CdcInterfaceFunctionalDescriptor::DeviceManagementModel => "DeviceManagementModel",
            CdcInterfaceFunctionalDescriptor::Obex => "Obex",
            CdcInterfaceFunctionalDescriptor::CommandSet => "CommandSet",
            CdcInterfaceFunctionalDescriptor::CommandSetDetail => "CommandSetDetail",
            CdcInterfaceFunctionalDescriptor::TelephoneControlModel => "TelephoneControlModel",
            CdcInterfaceFunctionalDescriptor::ObexServiceIdentifier => "ObexServiceIdentifier",
            CdcInterfaceFunctionalDescriptor::Ncm => "Ncm",
            CdcInterfaceFunctionalDescriptor::Mbim => "Mbim",
            CdcInterfaceFunctionalDescriptor::MbimExtended => "MbimExtended",
            CdcInterfaceFunctionalDescriptor::FutureUse { .. } => "FutureUse",
            CdcInterfaceFunctionalDescriptor::VendorSpecific { .. } => "VendorSpecific",
        };
        String::from_str(s)
    }

    /// The variant-specific data bytes and their count.
    fn source_data_part(&self) -> (r: (Vec<u8>, u8))
        requires
            self.spec_supported(),
            self.spec_sized(),
        ensures
            r.0@ == self.spec_data_bytes(),
            r.1 as int == self.spec_data_len(),
    {
        match self {
            CdcInterfaceFunctionalDescriptor::Header { bcdCDC } => {
                let mut data: Vec<u8> = Vec::new();
                data.push(lsb(bcdCDC.id()));
                data.push(msb(bcdCDC.id()));
                assert(data@ =~= self.spec_data_bytes());
                (data, 2)
            },
            CdcInterfaceFunctionalDescriptor::CallManagement {
                bmCapabilities,
                bDataInterface,
            } => {
                let mut data: Vec<u8> = Vec::new();
                data.push(*bmCapabilities);
                data.push(*bDataInterface);
                assert(data@ =~= self.spec_data_bytes());
                (data, 2)
            },
            CdcInterfaceFunctionalDescriptor::AbstractControlManagement { bmCapabilities } => {
                let mut data: Vec<u8> = Vec::new();
                data.push(*bmCapabilities);
                assert(data@ =~= self.spec_data_bytes());
                (data, 1)
            },
            CdcInterfaceFunctionalDescriptor::Union {
                bControlInterface,
                bSubordinateInterfaces,
            } => {
                let mut data: Vec<u8> = Vec::new();
                data.push(*bControlInterface);
                push_bytes(&mut data, bSubordinateInterfaces);
                assert(data@ =~= self.spec_data_bytes());
                (data, 1 + bSubordinateInterfaces.len() as u8)
            },
            _ => {
                // Unreachable: the requires-clause admits supported variants only.
                proof {
                    assert(false);
                }
                (Vec::new(), 0)
            },
        }
    }
}

/// A USB endpoint descriptor.
#[allow(non_snake_case)]
pub struct EndpointDescriptor {
    pub bEndpointAddress: EndpointAddress,
    pub bmAttributes: EndpointAttributes,
    pub wMaxPacketSize: u16,
    pub bInterval: u8,
}

impl EndpointDescriptor {
    /// The encoded size of an endpoint descriptor.
    pub open spec fn spec_len(&self) -> int {
        7
    }

    /// The seven bytes of the endpoint descriptor.
    pub open spec fn spec_bytes(&self) -> Seq<u8> {
        seq![
            7u8,
            5u8,
            self.bEndpointAddress.spec_id(),
            self.bmAttributes.spec_id(),
            spec_lsb(self.wMaxPacketSize),
            spec_msb(self.wMaxPacketSize),
            self.bInterval,
        ]
    }

    pub fn len(&self) -> (r: u8)
        ensures
            r as int == self.spec_len(),
    {
        7
    }

    /// The binary encoding of the descriptor.
    pub fn source(&self) -> (r: Vec<u8>)
        requires
            self.bEndpointAddress.spec_nr() < 16,
        ensures
            r@ == self.spec_bytes(),
            r@.len() == self.spec_len(),
    {
        let mut r: Vec<u8> = Vec::new();
        r.push(self.len());
        r.push(DescriptorTypes::Endpoint.id());
        r.push(self.bEndpointAddress.id());
        r.push(self.bmAttributes.id());
        r.push(lsb(self.wMaxPacketSize));
        r.push(msb(self.wMaxPacketSize));
        r.push(self.bInterval);
        assert(r@ =~= self.spec_bytes());
        r
    }
}

/// A USB interface descriptor with its endpoints and its CDC class
/// functional descriptors.
#[allow(non_snake_case)]
pub struct InterfaceDescriptor {
    pub bInterfaceNumber: u8,
    pub bAlternateSetting: u8,
    pub endpoints: Vec<EndpointDescriptor>,
    pub bInterfaceClass: u8,
    pub bInterfaceSubClass: u8,
    pub bInterfaceProtocol: u8,
    pub iInterface: StringId,
    pub cdcs: Vec<CdcInterfaceFunctionalDescriptor>,
}

impl InterfaceDescriptor {
    /// The encoded size of the interface descriptor itself, without the
    /// descriptors nested under it.
    pub open spec fn spec_len(&self) -> int {
        9
    }

    /// The nine bytes of the interface descriptor header.
    pub open spec fn spec_bytes(&self) -> Seq<u8> {
        seq![
            9u8,
            4u8,
            self.bInterfaceNumber,
            self.bAlternateSetting,
            self.endpoints@.len() as u8,
            self.bInterfaceClass,
            self.bInterfaceSubClass,
            self.bInterfaceProtocol,
            self.iInterface.id,
        ]
    }

    pub fn len(&self) -> (r: u8)
        ensures
            r as int == self.spec_len(),
    {
        9
    }

    /// The binary encoding of the interface descriptor header.
    pub fn source(&self) -> (r: Vec<u8>)
        requires
            self.endpoints@.len() <= 255,
        ensures
            r@ == self.spec_bytes(),
            r@.len() == self.spec_len(),
    {
        let mut r: Vec<u8> = Vec::new();
        r.push(self.len());
        r.push(DescriptorTypes::Interface.id());
        r.push(self.bInterfaceNumber);
        r.push(self.bAlternateSetting);
        r.push(self.endpoints.len() as u8);
        r.push(self.bInterfaceClass);
        r.push(self.bInterfaceSubClass);
        r.push(self.bInterfaceProtocol);
        r.push(self.iInterface.id);
        assert(r@ =~= self.spec_bytes());
        r
    }
}

/// A USB configuration descriptor with its interfaces.  `wTotalLength` is
/// computed by the length-calculation stage of the compile pipeline.
#[allow(non_snake_case)]
pub struct ConfigurationDescriptor {
    /// Computed by the compile pipeline; see `DescriptorTree::source`.
    pub wTotalLength: u16,
    pub interfaces: Vec<InterfaceDescriptor>,
    pub bConfigurationValue: u8,
    pub iConfiguration: StringId,
    pub bmAttributes: ConfAttributes,
    pub bMaxPower: MaxCurrent,
}

impl ConfigurationDescriptor {
    /// The encoded size of the configuration descriptor itself, without the
    /// descriptors nested under it.
    pub open spec fn spec_len(&self) -> int {
        9
    }

    /// The nine bytes of the configuration descriptor header.
    pub open spec fn spec_bytes(&self) -> Seq<u8> {
        seq![
            9u8,
            2u8,
            spec_lsb(self.wTotalLength),
            spec_msb(self.wTotalLength),
            self.interfaces@.len() as u8,
            self.bConfigurationValue,
            self.iConfiguration.id,
            self.bmAttributes.spec_id(),
            self.bMaxPower.spec_id(),
        ]
    }

    pub fn len(&self) -> (r: u8)
        ensures
            r as int == self.spec_len(),
    {
        9
    }

    /// The binary encoding of the configuration descriptor header.
    pub fn source(&self) -> (r: Vec<u8>)
        requires
            self.bMaxPower.spec_valid(),
            self.interfaces@.len() <= 255,
        ensures
            r@ == self.spec_bytes(),
            r@.len() == self.spec_len(),
    {
        let mut r: Vec<u8> = Vec::new();
        r.push(self.len());
        r.push(DescriptorTypes::Configuration.id());
        r.push(lsb(self.wTotalLength));
        r.push(msb(self.wTotalLength));
        r.push(self.interfaces.len() as u8);
        r.push(self.bConfigurationValue);
        r.push(self.iConfiguration.id);
        r.push(self.bmAttributes.id());
        r.push(self.bMaxPower.id());
        assert(r@ =~= self.spec_bytes());
        r
    }
}

/// The USB device descriptor at the root of the tree.
#[allow(non_snake_case)]
pub struct DeviceDescriptor {
    pub bcdUSB: BcdUsb,
    pub bDeviceClass: DeviceClass,
    pub bDeviceSubClass: u8,
    pub bDeviceProtocol: u8,
    pub bMaxPacketSize0: MaxPacketSizeEP0,
    pub idVendor: u16,
    pub idProduct: u16,
    pub bcdDevice: Bcd,
    pub iManufacturer: StringId,
    pub iProduct: StringId,
    pub iSerialNumber: StringId,
    pub configurations: Vec<ConfigurationDescriptor>,
}

impl DeviceDescriptor {
    /// The eighteen bytes of the device descriptor.
    pub open spec fn spec_bytes(&self) -> Seq<u8> {
        seq![
            18u8,
            1u8,
            spec_lsb(self.bcdUSB.spec_id()),
            spec_msb(self.bcdUSB.spec_id()),
            self.bDeviceClass.spec_id(),
            self.bDeviceSubClass,
            self.bDeviceProtocol,
            self.bMaxPacketSize0.spec_id(),
            spec_lsb(self.idVendor),
            spec_msb(self.idVendor),
            spec_lsb(self.idProduct),
            spec_msb(self.idProduct),
            spec_lsb(self.bcdDevice.0),
            spec_msb(self.bcdDevice.0),
            self.iManufacturer.id,
            self.iProduct.id,
            self.iSerialNumber.id,
            self.configurations@.len() as u8,
        ]
    }

    /// The binary encoding of the device descriptor.
    pub fn source(&self) -> (r: Vec<u8>)
        requires
            self.configurations@.len() <= 255,
        ensures
            r@ == self.spec_bytes(),
            r@.len() == 18,
    {
        let mut r: Vec<u8> = Vec::new();
        r.push(18);
        r.push(DescriptorTypes::Device.id());
        r.push(lsb(self.bcdUSB.id()));
        r.push(msb(self.bcdUSB.id()));
        r.push(self.bDeviceClass.id());
        r.push(self.bDeviceSubClass);
        r.push(self.bDeviceProtocol);
        r.push(self.bMaxPacketSize0.id());
        r.push(lsb(self.idVendor));
        r.push(msb(self.idVendor));
        r.push(lsb(self.idProduct));
        r.push(msb(self.idProduct));
        r.push(lsb(self.bcdDevice.0));
        r.push(msb(self.bcdDevice.0));
        r.push(self.iManufacturer.id);
        r.push(self.iProduct.id);
        r.push(self.iSerialNumber.id);
        r.push(self.configurations.len() as u8);
        assert(r@ =~= self.spec_bytes());
        r
    }
}

/// The string descriptor at index zero: the list of supported language
/// identifiers.  Only US English (0x0409) is supported.
#[allow(non_snake_case)]
pub struct StringDescriptorZero {
    pub wLANGID: Vec<u16>,
}

impl StringDescriptorZero {
    /// The language-list descriptor with the single supported language.
    pub fn default() -> (r: StringDescriptorZero)
        ensures
            r.wLANGID@ == seq![0x0409u16],
    {
        let mut langs: Vec<u16> = Vec::new();
        langs.push(0x0409);
        assert(langs@ =~= seq![0x0409u16]);
        StringDescriptorZero { wLANGID: langs }
    }

    /// The encoded size: the two-byte header plus two bytes per language.
    pub open spec fn spec_len(&self) -> int {
        2 + self.wLANGID@.len() * 2int
    }

    /// The binary encoding: header, then each language identifier
    /// little-endian.
    pub open spec fn spec_bytes(&self) -> Seq<u8> {
        seq![self.spec_len() as u8, 3u8] + units_le_bytes(self.wLANGID@)
    }

    pub fn len(&self) -> (r: u8)
        requires
            self.spec_len() <= 255,
        ensures
            r as int == self.spec_len(),
    {
        (2 + self.wLANGID.len() * 2) as u8
    }

    /// The binary encoding of the language-list descriptor.
    pub fn source(&self) -> (r: Vec<u8>)
        requires
            self.spec_len() <= 255,
        ensures
            r@ == self.spec_bytes(),
            r@.len() == self.spec_len(),
    {
        let mut r: Vec<u8> = Vec::new();
        r.push(self.len());
        r.push(DescriptorTypes::String.id());
        let n = self.wLANGID.len();
        for i in 0..n
            invariant
                n == self.wLANGID@.len(),
                self.spec_len() <= 255,
                r@ == seq![self.spec_len() as u8, 3u8] + units_le_bytes(
                    self.wLANGID@.take(i as int),
                ),
        {
            let langid = self.wLANGID[i];
            r.push(lsb(langid));
            r.push(msb(langid));
            proof {
                lemma_units_le_bytes_take_step(self.wLANGID@, i as int);
                assert(r@ =~= seq![self.spec_len() as u8, 3u8] + units_le_bytes(
                    self.wLANGID@.take(i + 1),
                ));
            }
        }
        proof {
            assert(self.wLANGID@.take(n as int) =~= self.wLANGID@);
            lemma_units_le_bytes_len(self.wLANGID@);
        }
        r
    }
}

/// An allocated entry of the string table: the UTF-16 payload and the
/// assigned table index.
#[allow(non_snake_case)]
pub struct StringDescriptor {
    pub bString: Vec<u16>,
    pub id: u8,
}

impl StringDescriptor {
    /// The encoded size: the two-byte header plus two bytes per code unit.
    pub open spec fn spec_len(&self) -> int {
        2 + 2 * self.bString@.len() as int
    }

    /// The binary encoding: header, then each code unit little-endian.
    pub open spec fn spec_bytes(&self) -> Seq<u8> {
        seq![self.spec_len() as u8, 3u8] + units_le_bytes(self.bString@)
    }

    /// A table entry holding a copy of `units` under index `id`.
    pub fn new(units: &Vec<u16>, id: u8) -> (r: StringDescriptor)
        requires
            2 * units@.len() <= 253,
        ensures
            r.bString@ == units@,
            r.id == id,
    {
        let n = units.len();
        let mut copied: Vec<u16> = Vec::new();
        for i in 0..n
            invariant
                n == units@.len(),
                copied@ == units@.take(i as int),
        {
            copied.push(units[i]);
            assert(copied@ =~= units@.take(i + 1));
        }
        assert(copied@ =~= units@);
        StringDescriptor { bString: copied, id }
    }

    pub fn len(&self) -> (r: u8)
        requires
            self.spec_len() <= 255,
        ensures
            r as int == self.spec_len(),
    {
        (2 + 2 * self.bString.len()) as u8
    }

    /// The binary encoding of the string descriptor.
    pub fn source(&self) -> (r: Vec<u8>)
        requires
            self.spec_len() <= 255,
        ensures
            r@ == self.spec_bytes(),
            r@.len() == self.spec_len(),
    {
        let mut r: Vec<u8> = Vec::new();
        r.push(self.len());
        r.push(DescriptorTypes::String.id());
        let n = self.bString.len();
        for i in 0..n
            invariant
                n == self.bString@.len(),
                self.spec_len() <= 255,
                r@ == seq![self.spec_len() as u8, 3u8] + units_le_bytes(
                    self.bString@.take(i as int),
                ),
        {
            let unit = self.bString[i];
            r.push(lsb(unit));
            r.push(msb(unit));
            proof {
                lemma_units_le_bytes_take_step(self.bString@, i as int);
                assert(r@ =~= seq![self.spec_len() as u8, 3u8] + units_le_bytes(
                    self.bString@.take(i + 1),
                ));
            }
        }
        proof {
            assert(self.bString@.take(n as int) =~= self.bString@);
            lemma_units_le_bytes_len(self.bString@);
        }
        r
    }
}

/// The concatenated encodings of a list of CDC functional descriptors.
pub open spec fn cdcs_bytes(s: Seq<CdcInterfaceFunctionalDescriptor>) -> Seq<u8> {
    concat_map(s, |c: CdcInterfaceFunctionalDescriptor| c.spec_bytes())
}

/// The summed encoded lengths of a list of CDC functional descriptors.
pub open spec fn cdcs_total_len(s: Seq<CdcInterfaceFunctionalDescriptor>) -> int {
    sum_map(s, |c: CdcInterfaceFunctionalDescriptor| c.spec_len())
}

/// The concatenated encodings of a list of endpoint descriptors.
pub open spec fn endpoints_bytes(s: Seq<EndpointDescriptor>) -> Seq<u8> {
    concat_map(s, |e: EndpointDescriptor| e.spec_bytes())
}

/// The wire region of one interface: its header, then all of its CDC
/// functional descriptors, then all of its endpoint descriptors.
pub open spec fn interface_bytes(i: InterfaceDescriptor) -> Seq<u8> {
    i.spec_bytes() + cdcs_bytes(i.cdcs@) + endpoints_bytes(i.endpoints@)
}

/// The concatenated wire regions of a list of interfaces.
pub open spec fn interfaces_bytes(s: Seq<InterfaceDescriptor>) -> Seq<u8> {
    concat_map(s, |i: InterfaceDescriptor| interface_bytes(i))
}

/// The whole configuration descriptor tree as sent to the host: the
/// configuration header followed by every interface region.
pub open spec fn config_tree_bytes(c: ConfigurationDescriptor) -> Seq<u8> {
    c.spec_bytes() + interfaces_bytes(c.interfaces@)
}

/// The total encoded length of one interface region.
pub open spec fn interface_total_len(i: InterfaceDescriptor) -> int {
    9 + cdcs_total_len(i.cdcs@) + 7 * i.endpoints@.len() as int
}

/// The summed total lengths of a list of interfaces.
pub open spec fn interfaces_total_len(s: Seq<InterfaceDescriptor>) -> int {
    sum_map(s, |i: InterfaceDescriptor| interface_total_len(i))
}

/// The `wTotalLength` value of a configuration: its own header plus every
/// interface region beneath it.
pub open spec fn config_total_len(c: ConfigurationDescriptor) -> int {
    9 + interfaces_total_len(c.interfaces@)
}

proof fn lemma_cdcs_bytes_take_step(s: Seq<CdcInterfaceFunctionalDescriptor>, i: int)
    requires
        0 <= i < s.len(),
    ensures
        cdcs_bytes(s.take(i + 1)) == cdcs_bytes(s.take(i)) + s[i].spec_bytes(),
{
    lemma_concat_map_take_step(s, |c: CdcInterfaceFunctionalDescriptor| c.spec_bytes(), i);
}

proof fn lemma_endpoints_bytes_take_step(s: Seq<EndpointDescriptor>, i: int)
    requires
        0 <= i < s.len(),
    ensures
        endpoints_bytes(s.take(i + 1)) == endpoints_bytes(s.take(i)) + s[i].spec_bytes(),
{
    lemma_concat_map_take_step(s, |e: EndpointDescriptor| e.spec_bytes(), i);
}

proof fn lemma_interfaces_bytes_take_step(s: Seq<InterfaceDescriptor>, i: int)
    requires
        0 <= i < s.len(),
    ensures
        interfaces_bytes(s.take(i + 1)) == interfaces_bytes(s.take(i)) + interface_bytes(s[i]),
{
    lemma_concat_map_take_step(s, |i: InterfaceDescriptor| interface_bytes(i), i);
}

proof fn lemma_cdcs_total_len_take_step(s: Seq<CdcInterfaceFunctionalDescriptor>, i: int)
    requires
        0 <= i < s.len(),
    ensures
        cdcs_total_len(s.take(i + 1)) == cdcs_total_len(s.take(i)) + s[i].spec_len(),
{
    lemma_sum_map_take_step(s, |c: CdcInterfaceFunctionalDescriptor| c.spec_len(), i);
}

proof fn lemma_interfaces_total_len_take_step(s: Seq<InterfaceDescriptor>, i: int)
    requires
        0 <= i < s.len(),
    ensures
        interfaces_total_len(s.take(i + 1)) == interfaces_total_len(s.take(i))
            + interface_total_len(s[i]),
{
    lemma_sum_map_take_step(s, |i: InterfaceDescriptor| interface_total_len(i), i);
}

/// Every descriptor encodes at least its header, so the summed lengths only
/// grow along the traversal.
proof fn lemma_cdcs_total_len_nonneg(s: Seq<CdcInterfaceFunctionalDescriptor>)
    ensures
        cdcs_total_len(s) >= 0,
{
    assert forall|j: int| 0 <= j < s.len() implies (
    |c: CdcInterfaceFunctionalDescriptor| c.spec_len())(s[j]) >= 0 by {
        assert(s[j].spec_data_len() >= 0);
    }
    lemma_sum_map_nonneg(s, |c: CdcInterfaceFunctionalDescriptor| c.spec_len());
}

proof fn lemma_interfaces_total_len_nonneg(s: Seq<InterfaceDescriptor>)
    ensures
        interfaces_total_len(s) >= 0,
{
    assert forall|j: int| 0 <= j < s.len() implies (
    |i: InterfaceDescriptor| interface_total_len(i))(s[j]) >= 0 by {
        lemma_cdcs_total_len_nonneg(s[j].cdcs@);
    }
    lemma_sum_map_nonneg(s, |i: InterfaceDescriptor| interface_total_len(i));
}

/// A prefix of the interfaces never exceeds the total over all of them.
proof fn lemma_interfaces_total_len_prefix(s: Seq<InterfaceDescriptor>, i: int)
    requires
        0 <= i <= s.len(),
    ensures
        interfaces_total_len(s.take(i)) <= interfaces_total_len(s),
{
    assert forall|j: int| 0 <= j < s.len() implies (
    |i: InterfaceDescriptor| interface_total_len(i))(s[j]) >= 0 by {
        lemma_cdcs_total_len_nonneg(s[j].cdcs@);
    }
    lemma_sum_map_take_bound(s, |i: InterfaceDescriptor| interface_total_len(i), i);
}

/// Likewise for a prefix of one interface's CDC descriptors.
proof fn lemma_cdcs_total_len_prefix(s: Seq<CdcInterfaceFunctionalDescriptor>, i: int)
    requires
        0 <= i <= s.len(),
    ensures
        cdcs_total_len(s.take(i)) <= cdcs_total_len(s),
{
    assert forall|j: int| 0 <= j < s.len() implies (
    |c: CdcInterfaceFunctionalDescriptor| c.spec_len())(s[j]) >= 0 by {
        assert(s[j].spec_data_len() >= 0);
    }
    lemma_sum_map_take_bound(s, |c: CdcInterfaceFunctionalDescriptor| c.spec_len(), i);
}

/// The encoding of a CDC functional descriptor is exactly `spec_len` bytes.
proof fn lemma_cdc_bytes_len(c: CdcInterfaceFunctionalDescriptor)
    ensures
        c.spec_bytes().len() == c.spec_len(),
{
    assert(c.spec_data_bytes().len() == c.spec_data_len());
}

proof fn lemma_cdcs_bytes_len(s: Seq<CdcInterfaceFunctionalDescriptor>)
    ensures
        cdcs_bytes(s).len() == cdcs_total_len(s),
    decreases s.len(),
{
    if s.len() > 0 {
        lemma_cdcs_bytes_len(s.drop_last());
        lemma_cdc_bytes_len(s.last());
    }
}

proof fn lemma_endpoints_bytes_len(s: Seq<EndpointDescriptor>)
    ensures
        endpoints_bytes(s).len() == 7 * s.len(),
    decreases s.len(),
{
    if s.len() > 0 {
        lemma_endpoints_bytes_len(s.drop_last());
    }
}

proof fn lemma_interface_bytes_len(i: InterfaceDescriptor)
    ensures
        interface_bytes(i).len() == interface_total_len(i),
{
    lemma_cdcs_bytes_len(i.cdcs@);
    lemma_endpoints_bytes_len(i.endpoints@);
}

proof fn lemma_interfaces_bytes_len(s: Seq<InterfaceDescriptor>)
    ensures
        interfaces_bytes(s).len() == interfaces_total_len(s),
    decreases s.len(),
{
    if s.len() > 0 {
        lemma_interfaces_bytes_len(s.drop_last());
        lemma_interface_bytes_len(s.last());
    }
}

/// The length roll-up agrees with the serializer: for every configuration,
/// the byte length of the emitted configuration descriptor tree equals the
/// computed total length.  `wTotalLength` itself is encoded inside the
/// header and does not influence the byte count.
pub proof fn lemma_total_length_matches_serialization(c: ConfigurationDescriptor)
    ensures
        config_tree_bytes(c).len() == config_total_len(c),
{
    lemma_interfaces_bytes_len(c.interfaces@);
}

/// All endpoint descriptors of a list of interfaces, in traversal order.
pub open spec fn interfaces_endpoints(s: Seq<InterfaceDescriptor>) -> Seq<EndpointDescriptor> {
    concat_map(s, |i: InterfaceDescriptor| i.endpoints@)
}

/// All endpoint descriptors of a configuration, in traversal order.
pub open spec fn config_endpoints(c: ConfigurationDescriptor) -> Seq<EndpointDescriptor> {
    interfaces_endpoints(c.interfaces@)
}

proof fn lemma_interfaces_endpoints_take_step(s: Seq<InterfaceDescriptor>, i: int)
    requires
        0 <= i < s.len(),
    ensures
        interfaces_endpoints(s.take(i + 1)) == interfaces_endpoints(s.take(i)) + s[i].endpoints@,
{
    lemma_concat_map_take_step(s, |i: InterfaceDescriptor| i.endpoints@, i);
}

/// True when some endpoint in `s` claims physical number `n` with the given
/// direction.
pub open spec fn has_dir_at(s: Seq<EndpointDescriptor>, n: int, is_in: bool) -> bool {
    exists|j: int|
        0 <= j < s.len() && s[j].bEndpointAddress.spec_nr() == n
            && s[j].bEndpointAddress.spec_is_in() == is_in
}

/// True when some endpoint in `s` claims physical number `n` with the given
/// isochronous-or-not mode.
pub open spec fn has_iso_flag_at(s: Seq<EndpointDescriptor>, n: int, iso: bool) -> bool {
    exists|j: int|
        0 <= j < s.len() && s[j].bEndpointAddress.spec_nr() == n
            && s[j].bmAttributes.spec_is_isochronous() == iso
}

/// The endpoint-control register value derived from three facts about one
/// physical endpoint number: bit 3 enables reception (an OUT endpoint is
/// present), bit 2 enables transmission (an IN endpoint is present), bit 0
/// marks the endpoint as not isochronous.
pub open spec fn cfg_value(out_seen: bool, in_seen: bool, noniso_seen: bool) -> u8 {
    ((if out_seen {
        8int
    } else {
        0int
    }) + (if in_seen {
        4int
    } else {
        0int
    }) + (if noniso_seen {
        1int
    } else {
        0int
    })) as u8
}

/// The register value endpoint validation derives for physical number `n`
/// from the endpoint list `s`.
pub open spec fn spec_endpoint_cfg(s: Seq<EndpointDescriptor>, n: int) -> u8 {
    cfg_value(has_dir_at(s, n, false), has_dir_at(s, n, true), has_iso_flag_at(s, n, false))
}

/// The error, if any, that endpoint validation raises while processing the
/// endpoint at position `i` of `s`: an out-of-range physical number, then a
/// duplicate direction among the endpoints already processed, then an
/// isochronous-mode disagreement with any endpoint of the whole list.
pub open spec fn ep_error_at(s: Seq<EndpointDescriptor>, i: int) -> Option<CompileError> {
    let nr = s[i].bEndpointAddress.spec_nr();
    if nr >= 16 {
        Some(CompileError::InvalidEndpointNumber(nr))
    } else if has_dir_at(s.take(i), nr as int, s[i].bEndpointAddress.spec_is_in()) {
        Some(CompileError::DuplicateEndpointDirection(nr))
    } else if has_iso_flag_at(s, nr as int, !s[i].bmAttributes.spec_is_isochronous()) {
        Some(CompileError::IsochronousModeConflict(nr))
    } else {
        None
    }
}

/// The first error raised at or after position `i` of the endpoint list.
pub open spec fn first_ep_error_from(s: Seq<EndpointDescriptor>, i: int) -> Option<CompileError>
    decreases s.len() - i,
{
    if i < 0 || i >= s.len() {
        None
    } else if ep_error_at(s, i) is Some {
        ep_error_at(s, i)
    } else {
        first_ep_error_from(s, i + 1)
    }
}

/// The first error endpoint validation raises on `s`, if any.
pub open spec fn first_ep_error(s: Seq<EndpointDescriptor>) -> Option<CompileError> {
    first_ep_error_from(s, 0)
}

proof fn lemma_first_ep_error_from_none(s: Seq<EndpointDescriptor>, i: int)
    requires
        0 <= i <= s.len(),
        forall|j: int| i <= j < s.len() ==> #[trigger] ep_error_at(s, j) is None,
    ensures
        first_ep_error_from(s, i) is None,
    decreases s.len() - i,
{
    if i < s.len() {
        lemma_first_ep_error_from_none(s, i + 1);
    }
}

proof fn lemma_first_ep_error_from_finds(s: Seq<EndpointDescriptor>, i: int, k: int)
    requires
        0 <= i <= k < s.len(),
        forall|j: int| i <= j < k ==> #[trigger] ep_error_at(s, j) is None,
        ep_error_at(s, k) is Some,
    ensures
        first_ep_error_from(s, i) == ep_error_at(s, k),
    decreases k - i,
{
    if i < k {
        lemma_first_ep_error_from_finds(s, i + 1, k);
    }
}

/// The register-value bit algebra behind `cfg_value`: which flag bits are
/// set, and what setting one more flag yields.
proof fn lemma_cfg_value_bits(o: bool, d: bool, z: bool)
    ensures
        (cfg_value(o, d, z) & 8 != 0) == o,
        (cfg_value(o, d, z) & 4 != 0) == d,
        (cfg_value(o, d, z) & 1 != 0) == z,
        cfg_value(o, d, z) | 8 == cfg_value(true, d, z),
        cfg_value(o, d, z) | 4 == cfg_value(o, true, z),
        cfg_value(o, d, z) | 1 == cfg_value(o, d, true),
{
    let a: u8 = if o {
        8
    } else {
        0
    };
    let b: u8 = if d {
        4
    } else {
        0
    };
    let c: u8 = if z {
        1
    } else {
        0
    };
    assert((a == 0 || a == 8) && (b == 0 || b == 4) && (c == 0 || c == 1) ==> {
        let v = (a + b + c) as u8;
        &&& (v & 8 != 0) == (a == 8)
        &&& (v & 4 != 0) == (b == 4)
        &&& (v & 1 != 0) == (c == 1)
        &&& v | 8 == (8 + b + c) as u8
        &&& v | 4 == (a + 4 + c) as u8
        &&& v | 1 == (a + b + 1) as u8
    }) by (bit_vector);
    assert(cfg_value(o, d, z) == (a + b + c) as u8);
}

proof fn lemma_has_dir_at_take_step(s: Seq<EndpointDescriptor>, n: int, is_in: bool, j: int)
    requires
        0 <= j < s.len(),
    ensures
        has_dir_at(s.take(j + 1), n, is_in) == (has_dir_at(s.take(j), n, is_in) || (
        s[j].bEndpointAddress.spec_nr() == n && s[j].bEndpointAddress.spec_is_in() == is_in)),
{
    let t = s.take(j + 1);
    let p = s.take(j);
    if has_dir_at(t, n, is_in) {
        let w = choose|w: int|
            0 <= w < t.len() && t[w].bEndpointAddress.spec_nr() == n
                && t[w].bEndpointAddress.spec_is_in() == is_in;
        if w < j {
            assert(p[w] == t[w]);
            assert(has_dir_at(p, n, is_in));
        }
    }
    if has_dir_at(p, n, is_in) {
        let w = choose|w: int|
            0 <= w < p.len() && p[w].bEndpointAddress.spec_nr() == n
                && p[w].bEndpointAddress.spec_is_in() == is_in;
        assert(t[w] == p[w]);
        assert(has_dir_at(t, n, is_in));
    }
    if s[j].bEndpointAddress.spec_nr() == n && s[j].bEndpointAddress.spec_is_in() == is_in {
        assert(t[j] == s[j]);
        assert(has_dir_at(t, n, is_in));
    }
}

proof fn lemma_has_iso_flag_at_take_step(s: Seq<EndpointDescriptor>, n: int, iso: bool, j: int)
    requires
        0 <= j < s.len(),
    ensures
        has_iso_flag_at(s.take(j + 1), n, iso) == (has_iso_flag_at(s.take(j), n, iso) || (
        s[j].bEndpointAddress.spec_nr() == n && s[j].bmAttributes.spec_is_isochronous() == iso)),
{
    let t = s.take(j + 1);
    let p = s.take(j);
    if has_iso_flag_at(t, n, iso) {
        let w = choose|w: int|
            0 <= w < t.len() && t[w].bEndpointAddress.spec_nr() == n
                && t[w].bmAttributes.spec_is_isochronous() == iso;
        if w < j {
            assert(p[w] == t[w]);
            assert(has_iso_flag_at(p, n, iso));
        }
    }
    if has_iso_flag_at(p, n, iso) {
        let w = choose|w: int|
            0 <= w < p.len() && p[w].bEndpointAddress.spec_nr() == n
                && p[w].bmAttributes.spec_is_isochronous() == iso;
        assert(t[w] == p[w]);
        assert(has_iso_flag_at(t, n, iso));
    }
    if s[j].bEndpointAddress.spec_nr() == n && s[j].bmAttributes.spec_is_isochronous() == iso {
        assert(t[j] == s[j]);
        assert(has_iso_flag_at(t, n, iso));
    }
}

/// One entry of the endpoint-control register table: the 8-bit value the
/// hardware register of one physical endpoint number is programmed with.
/// It is derived by endpoint validation, never built by the caller.
#[derive(Default, Copy, Clone, PartialEq, Eq, Structural, Debug)]
pub struct Endpointconfig(pub u8);

impl Endpointconfig {
    /// True when the receive-enable bit is set.
    pub open spec fn spec_rx(&self) -> bool {
        self.0 & 8 != 0
    }

    /// True when the transmit-enable bit is set.
    pub open spec fn spec_tx(&self) -> bool {
        self.0 & 4 != 0
    }

    /// True when the not-isochronous bit is set.
    pub open spec fn spec_notisochronous(&self) -> bool {
        self.0 & 1 != 0
    }

    /// Sets the receive-enable bit.
    pub fn set_rx(&mut self)
        ensures
            final(self).0 == old(self).0 | 8,
    {
        self.0 = self.0 | 8;
    }

    /// Reads the receive-enable bit.
    pub fn rx(&self) -> (r: bool)
        ensures
            r == self.spec_rx(),
    {
        self.0 & 8 != 0
    }

    /// Sets the transmit-enable bit.
    pub fn set_tx(&mut self)
        ensures
            final(self).0 == old(self).0 | 4,
    {
        self.0 = self.0 | 4;
    }

    /// Reads the transmit-enable bit.
    pub fn tx(&self) -> (r: bool)
        ensures
            r == self.spec_tx(),
    {
        self.0 & 4 != 0
    }

    /// Sets the not-isochronous bit.
    pub fn set_notisochronous(&mut self)
        ensures
            final(self).0 == old(self).0 | 1,
    {
        self.0 = self.0 | 1;
    }
}

/// True when some endpoint in `s` claims physical number `n`.
pub open spec fn has_ep_at(s: Seq<EndpointDescriptor>, n: int) -> bool {
    exists|j: int| 0 <= j < s.len() && s[j].bEndpointAddress.spec_nr() == n
}

/// For every endpoint list without physical-number collisions (each number
/// below 16 and claimed by at most one endpoint), endpoint validation never
/// fails, each claimed number's register value enables exactly the
/// direction of its endpoint and carries the not-isochronous flag exactly
/// when no isochronous endpoint claims that number, and every unclaimed
/// number keeps a zero register value.
pub proof fn lemma_endpoint_config_collision_free(s: Seq<EndpointDescriptor>)
    requires
        forall|i: int| 0 <= i < s.len() ==> #[trigger] s[i].bEndpointAddress.spec_nr() < 16,
        forall|i: int, j: int|
            0 <= i < s.len() && 0 <= j < s.len() && i != j
                ==> s[i].bEndpointAddress.spec_nr() != s[j].bEndpointAddress.spec_nr(),
    ensures
        first_ep_error(s) is None,
        forall|n: int|
            0 <= n < 16 && !has_ep_at(s, n) ==> #[trigger] spec_endpoint_cfg(s, n) == 0,
        forall|i: int|
            #![trigger s[i]]
            0 <= i < s.len() ==> {
                let n = s[i].bEndpointAddress.spec_nr() as int;
                let v = spec_endpoint_cfg(s, n);
                &&& (v & 8 != 0) == !s[i].bEndpointAddress.spec_is_in()
                &&& (v & 4 != 0) == s[i].bEndpointAddress.spec_is_in()
                &&& (v & 1 != 0) == !has_iso_flag_at(s, n, true)
            },
{
    assert forall|i: int| 0 <= i < s.len() implies #[trigger] ep_error_at(s, i) is None by {
        let nr = s[i].bEndpointAddress.spec_nr();
        if has_dir_at(s.take(i), nr as int, s[i].bEndpointAddress.spec_is_in()) {
            let w = choose|w: int|
                0 <= w < s.take(i).len() && s.take(i)[w].bEndpointAddress.spec_nr() == nr as int
                    && s.take(i)[w].bEndpointAddress.spec_is_in()
                    == s[i].bEndpointAddress.spec_is_in();
            assert(s[w] == s.take(i)[w]);
            assert(false);
        }
        if has_iso_flag_at(s, nr as int, !s[i].bmAttributes.spec_is_isochronous()) {
            let w = choose|w: int|
                0 <= w < s.len() && s[w].bEndpointAddress.spec_nr() == nr as int
                    && s[w].bmAttributes.spec_is_isochronous()
                    == !s[i].bmAttributes.spec_is_isochronous();
            assert(w != i);
            assert(false);
        }
    }
    lemma_first_ep_error_from_none(s, 0);
    assert forall|n: int| 0 <= n < 16 && !has_ep_at(s, n) implies #[trigger] spec_endpoint_cfg(
        s,
        n,
    ) == 0 by {
        assert(!has_dir_at(s, n, false));
        assert(!has_dir_at(s, n, true));
        assert(!has_iso_flag_at(s, n, false));
        lemma_cfg_value_bits(false, false, false);
    }
    assert forall|i: int| #![trigger s[i]] 0 <= i < s.len() implies {
        let n = s[i].bEndpointAddress.spec_nr() as int;
        let v = spec_endpoint_cfg(s, n);
        &&& (v & 8 != 0) == !s[i].bEndpointAddress.spec_is_in()
        &&& (v & 4 != 0) == s[i].bEndpointAddress.spec_is_in()
        &&& (v & 1 != 0) == !has_iso_flag_at(s, n, true)
    } by {
        let n = s[i].bEndpointAddress.spec_nr() as int;
        let is_in = s[i].bEndpointAddress.spec_is_in();
        let iso = s[i].bmAttributes.spec_is_isochronous();
        // Only endpoint `i` claims number `n`, so each existential reduces
        // to a fact about that endpoint alone.
        assert(has_dir_at(s, n, is_in));
        if has_dir_at(s, n, !is_in) {
            let w = choose|w: int|
                0 <= w < s.len() && s[w].bEndpointAddress.spec_nr() == n
                    && s[w].bEndpointAddress.spec_is_in() == !is_in;
            assert(w != i);
            assert(false);
        }
        assert(has_iso_flag_at(s, n, iso));
        if has_iso_flag_at(s, n, !iso) {
            let w = choose|w: int|
                0 <= w < s.len() && s[w].bEndpointAddress.spec_nr() == n
                    && s[w].bmAttributes.spec_is_isochronous() == !iso;
            assert(w != i);
            assert(false);
        }
        lemma_cfg_value_bits(has_dir_at(s, n, false), has_dir_at(s, n, true), has_iso_flag_at(s, n, false));
    }
}

/// The highest physical endpoint number claimed by any endpoint of `s`
/// (zero when there is none).
pub open spec fn spec_max_endpoint_addr(s: Seq<EndpointDescriptor>) -> int
    decreases s.len(),
{
    if s.len() == 0 {
        0
    } else {
        let rest = spec_max_endpoint_addr(s.drop_last());
        let last = s.last().bEndpointAddress.spec_nr() as int;
        if last > rest {
            last
        } else {
            rest
        }
    }
}

proof fn lemma_max_endpoint_addr_take_step(s: Seq<EndpointDescriptor>, i: int)
    requires
        0 <= i < s.len(),
    ensures
        spec_max_endpoint_addr(s.take(i + 1)) == if s[i].bEndpointAddress.spec_nr() as int
            > spec_max_endpoint_addr(s.take(i)) {
            s[i].bEndpointAddress.spec_nr() as int
        } else {
            spec_max_endpoint_addr(s.take(i))
        },
{
    let t = s.take(i + 1);
    assert(t.drop_last() =~= s.take(i));
    assert(t.last() == s[i]);
}

/// A physical endpoint number is an 8-bit value, so the maximum is too.
proof fn lemma_max_endpoint_addr_bound(s: Seq<EndpointDescriptor>)
    ensures
        0 <= spec_max_endpoint_addr(s) <= 255,
    decreases s.len(),
{
    if s.len() > 0 {
        lemma_max_endpoint_addr_bound(s.drop_last());
    }
}

/// The physical number, direction and isochronous flag of every endpoint of
/// the interface list, flattened into traversal order.
fn flatten_endpoint_shapes(interfaces: &Vec<InterfaceDescriptor>) -> (r: Vec<(u8, bool, bool)>)
    ensures
        r@.len() == interfaces_endpoints(interfaces@).len(),
        forall|k: int|
            0 <= k < r@.len() ==> {
                let e = interfaces_endpoints(interfaces@)[k];
                #[trigger] r@[k] == (
                    e.bEndpointAddress.spec_nr(),
                    e.bEndpointAddress.spec_is_in(),
                    e.bmAttributes.spec_is_isochronous(),
                )
            },
{
    let mut r: Vec<(u8, bool, bool)> = Vec::new();
    let ghost all = interfaces_endpoints(interfaces@);
    let n_ifaces = interfaces.len();
    for t in 0..n_ifaces
        invariant
            n_ifaces == interfaces@.len(),
            all == interfaces_endpoints(interfaces@),
            r@.len() == interfaces_endpoints(interfaces@.take(t as int)).len(),
            forall|k: int|
                0 <= k < r@.len() ==> {
                    let e = all[k];
                    #[trigger] r@[k] == (
                        e.bEndpointAddress.spec_nr(),
                        e.bEndpointAddress.spec_is_in(),
                        e.bmAttributes.spec_is_isochronous(),
                    )
                },
    {
        let iface = &interfaces[t];
        let n_eps = iface.endpoints.len();
        let ghost r_base = r@.len() as int;
        proof {
            lemma_concat_map_split(
                interfaces@,
                |i: InterfaceDescriptor| i.endpoints@,
                t + 1,
            );
            lemma_interfaces_endpoints_take_step(interfaces@, t as int);
        }
        let ghost tail = interfaces_endpoints(interfaces@.skip(t + 1));
        assert(all == interfaces_endpoints(interfaces@.take(t as int)) + iface.endpoints@ + tail);
        for u in 0..n_eps
            invariant
                n_eps == iface.endpoints@.len(),
                t < n_ifaces,
                n_ifaces == interfaces@.len(),
                iface == &interfaces@[t as int],
                all == interfaces_endpoints(interfaces@),
                all == interfaces_endpoints(interfaces@.take(t as int)) + iface.endpoints@ + tail,
                r_base == interfaces_endpoints(interfaces@.take(t as int)).len(),
                r@.len() == r_base + u,
                forall|k: int|
                    0 <= k < r@.len() ==> {
                        let e = all[k];
                        #[trigger] r@[k] == (
                            e.bEndpointAddress.spec_nr(),
                            e.bEndpointAddress.spec_is_in(),
                            e.bmAttributes.spec_is_isochronous(),
                        )
                    },
        {
            let ep = &iface.endpoints[u];
            let nr = ep.bEndpointAddress.addr();
            let is_in = match ep.bEndpointAddress {
                EndpointAddress::In(_) => true,
                EndpointAddress::Out(_) => false,
            };
            let iso = ep.bmAttributes.is_isochronus();
            r.push((nr, is_in, iso));
            proof {
                assert(all[r_base + u] == iface.endpoints@[u as int]);
            }
        }
        proof {
            lemma_interfaces_endpoints_take_step(interfaces@, t as int);
        }
    }
    proof {
        assert(interfaces@.take(n_ifaces as int) =~= interfaces@);
    }
    r
}

/// The interface strings of an interface list, in traversal order.
pub open spec fn interfaces_string_units(s: Seq<InterfaceDescriptor>) -> Seq<Seq<u16>> {
    s.map_values(|i: InterfaceDescriptor| i.iInterface.units@)
}

/// Every user string of the tree in allocation order: the three device
/// strings, then the configuration string, then one string per interface.
pub open spec fn spec_string_units(d: DeviceDescriptor) -> Seq<Seq<u16>> {
    let base = seq![d.iManufacturer.units@, d.iProduct.units@, d.iSerialNumber.units@];
    if d.configurations@.len() == 0 {
        base
    } else {
        base + seq![d.configurations@[0].iConfiguration.units@] + interfaces_string_units(
            d.configurations@[0].interfaces@,
        )
    }
}

/// The payload of the synthetic fallback string the allocator appends last.
pub open spec fn fallback_units() -> Seq<u16> {
    utf16_units("No str fnd."@)
}

/// Every string the allocator registers, fallback included.
pub open spec fn spec_all_string_units(d: DeviceDescriptor) -> Seq<Seq<u16>> {
    spec_string_units(d).push(fallback_units())
}

/// The error string registration raises at table position `k`: position 255
/// no longer fits an 8-bit index, and a payload over 253 bytes no longer
/// fits the descriptor's 8-bit length field.
pub open spec fn string_entry_error(all: Seq<Seq<u16>>, k: int) -> Option<CompileError> {
    if k >= 255 {
        Some(CompileError::TooManyStrings)
    } else if all[k].len() * 2 > 253 {
        Some(CompileError::StringTooLong)
    } else {
        None
    }
}

/// The first error string registration raises at or after position `k`.
pub open spec fn first_string_error_from(all: Seq<Seq<u16>>, k: int) -> Option<CompileError>
    decreases all.len() - k,
{
    if k < 0 || k >= all.len() {
        None
    } else if string_entry_error(all, k) is Some {
        string_entry_error(all, k)
    } else {
        first_string_error_from(all, k + 1)
    }
}

proof fn lemma_first_string_error_from_none(all: Seq<Seq<u16>>, k: int)
    requires
        0 <= k <= all.len(),
        forall|j: int| k <= j < all.len() ==> #[trigger] string_entry_error(all, j) is None,
    ensures
        first_string_error_from(all, k) is None,
    decreases all.len() - k,
{
    if k < all.len() {
        lemma_first_string_error_from_none(all, k + 1);
    }
}

proof fn lemma_first_string_error_from_finds(all: Seq<Seq<u16>>, i: int, k: int)
    requires
        0 <= i <= k < all.len(),
        forall|j: int| i <= j < k ==> #[trigger] string_entry_error(all, j) is None,
        string_entry_error(all, k) is Some,
    ensures
        first_string_error_from(all, i) == string_entry_error(all, k),
    decreases k - i,
{
    if i < k {
        lemma_first_string_error_from_finds(all, i + 1, k);
    }
}

/// The outcome of the string-allocation stage on the tree.
pub open spec fn spec_string_stage_error(d: DeviceDescriptor) -> Option<CompileError> {
    first_string_error_from(spec_all_string_units(d), 0)
}

/// True when every CDC functional descriptor of the tree has a defined
/// binary encoding.
pub open spec fn spec_all_cdcs_supported(d: DeviceDescriptor) -> bool {
    forall|k: int, t: int, u: int|
        0 <= k < d.configurations@.len() && 0 <= t < d.configurations@[k].interfaces@.len() && 0
            <= u < d.configurations@[k].interfaces@[t].cdcs@.len()
            ==> #[trigger] d.configurations@[k].interfaces@[t].cdcs@[u].spec_supported()
}

/// The outcome of the string-allocation and length-calculation stages
/// combined: string errors in allocation order first, then the rejection of
/// a functional descriptor the length calculator cannot size.
pub open spec fn spec_collect_error(d: DeviceDescriptor) -> Option<CompileError> {
    if spec_string_stage_error(d) is Some {
        spec_string_stage_error(d)
    } else if !spec_all_cdcs_supported(d) {
        Some(CompileError::UnsupportedClassFunctionalDescriptor)
    } else {
        None
    }
}

/// UTF-16 encodes each character as at most two code units.
pub proof fn lemma_utf16_units_len_bound(s: Seq<char>)
    ensures
        utf16_units(s).len() <= 2 * s.len(),
    decreases s.len(),
{
    if s.len() > 0 {
        assert(utf16_units(s.drop_last()) == concat_map(
            s.drop_last(),
            |c: char| utf16_of_char(c),
        ));
        lemma_utf16_units_len_bound(s.drop_last());
    }
}

/// The string table holds exactly the payloads of `all`, in order, under
/// the one-based indices the allocator hands out.
pub open spec fn strings_match(strs: Seq<StringDescriptor>, all: Seq<Seq<u16>>) -> bool {
    &&& strs.len() == all.len()
    &&& forall|k: int|
        0 <= k < strs.len() ==> (#[trigger] strs[k].bString@ == all[k] && strs[k].id as int == k
            + 1)
}

/// Field-by-field: `ni` is `oi` with the interface string assigned table
/// index `id`.
pub open spec fn spec_resolved_iface(oi: InterfaceDescriptor, ni: InterfaceDescriptor, id: int) -> bool {
    &&& ni.bInterfaceNumber == oi.bInterfaceNumber
    &&& ni.bAlternateSetting == oi.bAlternateSetting
    &&& ni.endpoints == oi.endpoints
    &&& ni.bInterfaceClass == oi.bInterfaceClass
    &&& ni.bInterfaceSubClass == oi.bInterfaceSubClass
    &&& ni.bInterfaceProtocol == oi.bInterfaceProtocol
    &&& ni.iInterface.units == oi.iInterface.units
    &&& ni.iInterface.id as int == id
    &&& ni.cdcs == oi.cdcs
}

/// Field-by-field: `nc` is `oc` with its string assigned index 4, its
/// interfaces resolved to indices 5, 6, ... and its total length computed.
pub open spec fn spec_resolved_config(oc: ConfigurationDescriptor, nc: ConfigurationDescriptor) -> bool {
    &&& nc.wTotalLength as int == config_total_len(oc)
    &&& nc.interfaces@.len() == oc.interfaces@.len()
    &&& forall|j: int|
        0 <= j < oc.interfaces@.len() ==> spec_resolved_iface(
            oc.interfaces@[j],
            #[trigger] nc.interfaces@[j],
            5 + j,
        )
    &&& nc.bConfigurationValue == oc.bConfigurationValue
    &&& nc.iConfiguration.units == oc.iConfiguration.units
    &&& nc.iConfiguration.id == 4
    &&& nc.bmAttributes == oc.bmAttributes
    &&& nc.bMaxPower == oc.bMaxPower
}

/// Field-by-field: `nd` is `od` after string allocation and length
/// calculation, with the device strings assigned indices 1 to 3.
pub open spec fn spec_resolved_device(od: DeviceDescriptor, nd: DeviceDescriptor) -> bool {
    &&& nd.bcdUSB == od.bcdUSB
    &&& nd.bDeviceClass == od.bDeviceClass
    &&& nd.bDeviceSubClass == od.bDeviceSubClass
    &&& nd.bDeviceProtocol == od.bDeviceProtocol
    &&& nd.bMaxPacketSize0 == od.bMaxPacketSize0
    &&& nd.idVendor == od.idVendor
    &&& nd.idProduct == od.idProduct
    &&& nd.bcdDevice == od.bcdDevice
    &&& nd.iManufacturer.units == od.iManufacturer.units
    &&& nd.iManufacturer.id == 1
    &&& nd.iProduct.units == od.iProduct.units
    &&& nd.iProduct.id == 2
    &&& nd.iSerialNumber.units == od.iSerialNumber.units
    &&& nd.iSerialNumber.id == 3
    &&& nd.configurations@.len() == od.configurations@.len()
    &&& forall|k: int|
        0 <= k < od.configurations@.len() ==> spec_resolved_config(
            od.configurations@[k],
            #[trigger] nd.configurations@[k],
        )
}

/// A CDC functional descriptor fits its length field (a union names at most
/// 251 subordinates), as the binary format forces.
pub open spec fn interface_wf(i: InterfaceDescriptor) -> bool {
    &&& i.endpoints@.len() <= 255
    &&& forall|u: int| 0 <= u < i.cdcs@.len() ==> (#[trigger] i.cdcs@[u]).spec_sized()
}

/// What the binary format forces on a configuration: the 8-bit counts fit,
/// and if every functional descriptor can be sized, the total length fits
/// its 16-bit field.
pub open spec fn config_wf(c: ConfigurationDescriptor) -> bool {
    &&& c.interfaces@.len() <= 255
    &&& forall|t: int| 0 <= t < c.interfaces@.len() ==> interface_wf(#[trigger] c.interfaces@[t])
    &&& ((forall|t: int, u: int|
        0 <= t < c.interfaces@.len() && 0 <= u < c.interfaces@[t].cdcs@.len()
            ==> (#[trigger] c.interfaces@[t].cdcs@[u]).spec_supported()) ==> config_total_len(c)
        <= 0xFFFF)
}

/// What the binary format forces on the whole tree.
pub open spec fn device_wf(d: DeviceDescriptor) -> bool {
    &&& d.configurations@.len() <= 255
    &&& forall|k: int| 0 <= k < d.configurations@.len() ==> config_wf(#[trigger] d.configurations@[k])
}

/// True when an interface's class functional descriptors may be emitted:
/// either there are none, or the first is the Header variant.
pub open spec fn iface_first_cdc_ok(i: InterfaceDescriptor) -> bool {
    i.cdcs@.len() == 0 || i.cdcs@[0] is Header
}

/// The outcome of the serialization stage on one configuration: an
/// unencodable maximum current is found while the configuration header is
/// emitted, a functional-descriptor list that does not start with the
/// Header variant while its interface is emitted.
pub open spec fn spec_serialize_error(c: ConfigurationDescriptor) -> Option<CompileError> {
    if !c.bMaxPower.spec_valid() {
        Some(CompileError::InvalidMaxCurrent)
    } else if exists|t: int| 0 <= t < c.interfaces@.len() && !iface_first_cdc_ok(#[trigger] c.interfaces@[t]) {
        Some(CompileError::InvalidFirstClassFunctionalDescriptor)
    } else {
        None
    }
}

proof fn lemma_first_ep_error_from_all_none(s: Seq<EndpointDescriptor>, i: int)
    requires
        0 <= i <= s.len(),
        first_ep_error_from(s, i) is None,
    ensures
        forall|j: int| i <= j < s.len() ==> #[trigger] ep_error_at(s, j) is None,
    decreases s.len() - i,
{
    if i < s.len() {
        lemma_first_ep_error_from_all_none(s, i + 1);
    }
}

/// Locates one interface's endpoint inside the flattened endpoint list.
proof fn lemma_interfaces_endpoints_at(s: Seq<InterfaceDescriptor>, t: int, v: int)
    requires
        0 <= t < s.len(),
        0 <= v < s[t].endpoints@.len(),
    ensures
        ({
            let base = interfaces_endpoints(s.take(t)).len();
            &&& base + v < interfaces_endpoints(s).len()
            &&& interfaces_endpoints(s)[base + v] == s[t].endpoints@[v]
        }),
{
    lemma_concat_map_split(s, |i: InterfaceDescriptor| i.endpoints@, t + 1);
    lemma_interfaces_endpoints_take_step(s, t);
}

/// When the flattened endpoint list raises no error, every endpoint's
/// physical number is in range.
proof fn lemma_no_ep_error_nrs_in_range(s: Seq<InterfaceDescriptor>)
    requires
        first_ep_error(interfaces_endpoints(s)) is None,
    ensures
        forall|t: int, v: int|
            0 <= t < s.len() && 0 <= v < s[t].endpoints@.len()
                ==> (#[trigger] s[t].endpoints@[v]).bEndpointAddress.spec_nr() < 16,
{
    let flat = interfaces_endpoints(s);
    lemma_first_ep_error_from_all_none(flat, 0);
    assert forall|t: int, v: int|
        0 <= t < s.len() && 0 <= v < s[t].endpoints@.len() implies (#[trigger] s[t].endpoints@[v]).bEndpointAddress.spec_nr() < 16 by {
        lemma_interfaces_endpoints_at(s, t, v);
        let base = interfaces_endpoints(s.take(t)).len();
        assert(ep_error_at(flat, base + v) is None);
    }
}

/// Serializes the whole configuration descriptor tree: the configuration
/// header, then per interface its header, its functional descriptors and
/// its endpoint descriptors.  Fails when the maximum current cannot be
/// encoded, then on the first interface whose functional descriptors do not
/// start with the Header variant.
fn source_config_tree(config: &ConfigurationDescriptor) -> (r: Result<Vec<u8>, CompileError>)
    requires
        config.interfaces@.len() <= 255,
        forall|t: int| 0 <= t < config.interfaces@.len() ==> interface_wf(#[trigger] config.interfaces@[t]),
        forall|t: int, u: int|
            0 <= t < config.interfaces@.len() && 0 <= u < config.interfaces@[t].cdcs@.len()
                ==> (#[trigger] config.interfaces@[t].cdcs@[u]).spec_supported(),
        forall|t: int, v: int|
            0 <= t < config.interfaces@.len() && 0 <= v < config.interfaces@[t].endpoints@.len()
                ==> (#[trigger] config.interfaces@[t].endpoints@[v]).bEndpointAddress.spec_nr() < 16,
    ensures
        match r {
            Ok(v) => {
                &&& spec_serialize_error(*config) is None
                &&& v@ == config_tree_bytes(*config)
            },
            Err(e) => spec_serialize_error(*config) == Some(e),
        },
{
    if config.bMaxPower.milli_amps % 2 != 0 || config.bMaxPower.milli_amps > 500 {
        return Err(CompileError::InvalidMaxCurrent);
    }
    let mut out = config.source();
    let n_ifaces = config.interfaces.len();
    proof {
        assert(config.interfaces@.take(0) =~= Seq::<InterfaceDescriptor>::empty());
        assert(out@ =~= config.spec_bytes() + interfaces_bytes(config.interfaces@.take(0)));
    }
    for t in 0..n_ifaces
        invariant
            n_ifaces == config.interfaces@.len(),
            n_ifaces <= 255,
            config.bMaxPower.spec_valid(),
            forall|t2: int| 0 <= t2 < n_ifaces ==> interface_wf(#[trigger] config.interfaces@[t2]),
            forall|t2: int, u: int|
                0 <= t2 < n_ifaces && 0 <= u < config.interfaces@[t2].cdcs@.len()
                    ==> (#[trigger] config.interfaces@[t2].cdcs@[u]).spec_supported(),
            forall|t2: int, v: int|
                0 <= t2 < n_ifaces && 0 <= v < config.interfaces@[t2].endpoints@.len()
                    ==> (#[trigger] config.interfaces@[t2].endpoints@[v]).bEndpointAddress.spec_nr() < 16,
            forall|t2: int| 0 <= t2 < t ==> iface_first_cdc_ok(#[trigger] config.interfaces@[t2]),
            out@ == config.spec_bytes() + interfaces_bytes(config.interfaces@.take(t as int)),
    {
        let iface = &config.interfaces[t];
        if iface.cdcs.len() > 0 {
            let ok = match &iface.cdcs[0] {
                CdcInterfaceFunctionalDescriptor::Header { .. } => true,
                _ => false,
            };
            if !ok {
                proof {
                    assert(!iface_first_cdc_ok(config.interfaces@[t as int]));
                }
                return Err(CompileError::InvalidFirstClassFunctionalDescriptor);
            }
        }
        let header = iface.source();
        push_bytes(&mut out, &header);
        let n_cdcs = iface.cdcs.len();
        let ghost mid0 = out@;
        proof {
            assert(iface.cdcs@.take(0) =~= Seq::<CdcInterfaceFunctionalDescriptor>::empty());
            assert(out@ =~= mid0 + cdcs_bytes(iface.cdcs@.take(0)));
        }
        for u in 0..n_cdcs
            invariant
                n_cdcs == iface.cdcs@.len(),
                t < n_ifaces,
                n_ifaces == config.interfaces@.len(),
                iface == &config.interfaces@[t as int],
                forall|u2: int|
                    0 <= u2 < n_cdcs ==> (#[trigger] iface.cdcs@[u2]).spec_supported(),
                interface_wf(config.interfaces@[t as int]),
                out@ == mid0 + cdcs_bytes(iface.cdcs@.take(u as int)),
        {
            proof {
                assert(iface.cdcs@[u as int].spec_supported());
                assert(iface.cdcs@[u as int].spec_sized());
            }
            let cdcbytes = iface.cdcs[u].source();
            push_bytes(&mut out, &cdcbytes);
            proof {
                lemma_cdcs_bytes_take_step(iface.cdcs@, u as int);
                assert(out@ =~= mid0 + cdcs_bytes(iface.cdcs@.take(u + 1)));
            }
        }
        proof {
            assert(iface.cdcs@.take(n_cdcs as int) =~= iface.cdcs@);
        }
        let n_eps = iface.endpoints.len();
        let ghost mid1 = out@;
        proof {
            assert(iface.endpoints@.take(0) =~= Seq::<EndpointDescriptor>::empty());
            assert(out@ =~= mid1 + endpoints_bytes(iface.endpoints@.take(0)));
        }
        for v in 0..n_eps
            invariant
                n_eps == iface.endpoints@.len(),
                t < n_ifaces,
                n_ifaces == config.interfaces@.len(),
                iface == &config.interfaces@[t as int],
                forall|v2: int|
                    0 <= v2 < n_eps
                        ==> (#[trigger] iface.endpoints@[v2]).bEndpointAddress.spec_nr() < 16,
                out@ == mid1 + endpoints_bytes(iface.endpoints@.take(v as int)),
        {
            let epbytes = iface.endpoints[v].source();
            push_bytes(&mut out, &epbytes);
            proof {
                lemma_endpoints_bytes_take_step(iface.endpoints@, v as int);
                assert(out@ =~= mid1 + endpoints_bytes(iface.endpoints@.take(v + 1)));
            }
        }
        proof {
            assert(iface.endpoints@.take(n_eps as int) =~= iface.endpoints@);
            lemma_interfaces_bytes_take_step(config.interfaces@, t as int);
            assert(out@ =~= config.spec_bytes() + interfaces_bytes(
                config.interfaces@.take(t + 1),
            ));
        }
    }
    proof {
        assert(config.interfaces@.take(n_ifaces as int) =~= config.interfaces@);
    }
    Ok(out)
}

proof fn lemma_first_string_error_from_all_none(all: Seq<Seq<u16>>, i: int)
    requires
        0 <= i <= all.len(),
        first_string_error_from(all, i) is None,
    ensures
        forall|j: int| i <= j < all.len() ==> #[trigger] string_entry_error(all, j) is None,
    decreases all.len() - i,
{
    if i < all.len() {
        lemma_first_string_error_from_all_none(all, i + 1);
    }
}

/// String allocation touches neither the endpoints nor the functional
/// descriptors, so the resolved configuration keeps the flattened endpoint
/// list, the total length and the serialization-stage outcome of the
/// original.
proof fn lemma_resolved_preserves_config(oc: ConfigurationDescriptor, nc: ConfigurationDescriptor)
    requires
        spec_resolved_config(oc, nc),
    ensures
        config_endpoints(nc) == config_endpoints(oc),
        config_total_len(nc) == config_total_len(oc),
        spec_serialize_error(nc) == spec_serialize_error(oc),
{
    assert forall|j: int| 0 <= j < nc.interfaces@.len() implies (
    |i: InterfaceDescriptor| i.endpoints@)(#[trigger] nc.interfaces@[j]) == (
    |i: InterfaceDescriptor| i.endpoints@)(oc.interfaces@[j]) by {
        assert(spec_resolved_iface(oc.interfaces@[j], nc.interfaces@[j], 5 + j));
    }
    lemma_concat_map_pointwise(
        nc.interfaces@,
        oc.interfaces@,
        |i: InterfaceDescriptor| i.endpoints@,
    );
    assert forall|j: int| 0 <= j < nc.interfaces@.len() implies (
    |i: InterfaceDescriptor| interface_total_len(i))(#[trigger] nc.interfaces@[j]) == (
    |i: InterfaceDescriptor| interface_total_len(i))(oc.interfaces@[j]) by {
        assert(spec_resolved_iface(oc.interfaces@[j], nc.interfaces@[j], 5 + j));
    }
    lemma_sum_map_pointwise(
        nc.interfaces@,
        oc.interfaces@,
        |i: InterfaceDescriptor| interface_total_len(i),
    );
    assert forall|t: int| 0 <= t < nc.interfaces@.len() implies iface_first_cdc_ok(
        #[trigger] nc.interfaces@[t],
    ) == iface_first_cdc_ok(oc.interfaces@[t]) by {
        assert(spec_resolved_iface(oc.interfaces@[t], nc.interfaces@[t], 5 + t));
    }
    if exists|t: int|
        0 <= t < oc.interfaces@.len() && !iface_first_cdc_ok(#[trigger] oc.interfaces@[t]) {
        let t = choose|t: int|
            0 <= t < oc.interfaces@.len() && !iface_first_cdc_ok(#[trigger] oc.interfaces@[t]);
        assert(!iface_first_cdc_ok(nc.interfaces@[t]));
    }
    if exists|t: int|
        0 <= t < nc.interfaces@.len() && !iface_first_cdc_ok(#[trigger] nc.interfaces@[t]) {
        let t = choose|t: int|
            0 <= t < nc.interfaces@.len() && !iface_first_cdc_ok(#[trigger] nc.interfaces@[t]);
        assert(!iface_first_cdc_ok(oc.interfaces@[t]));
    }
}

/// The finished build artifacts of one compile pass, in the order the
/// surrounding build tool consumes them.
#[derive(Debug)]
pub struct Artifacts {
    /// The 18-byte device descriptor.
    pub devicedescriptor: Vec<u8>,
    /// The configuration descriptor tree: configuration header, interfaces,
    /// functional descriptors and endpoints, concatenated in wire order.
    pub configdescriptortree: Vec<u8>,
    /// One encoded string descriptor per table index: the language list at
    /// index 0, then every allocated string, the fallback entry last.
    pub stringdescriptors: Vec<Vec<u8>>,
    /// The table index of the fallback string descriptor.
    pub miss: u8,
    /// The number of buffer-descriptor-table slots to reserve.
    pub num_bufferdescriptors: usize,
    /// The byte size of the buffer descriptor table.
    pub usbbufferdescriptors_size: usize,
    /// The sixteen endpoint-control register values.
    pub endpointconfig_for_registers: Vec<Endpointconfig>,
}

/// The first violation the compile pipeline meets on `d`, in its stage
/// order: configuration count, string allocation, length calculation,
/// endpoint validation, serialization.
pub open spec fn spec_compile_error(d: DeviceDescriptor) -> Option<CompileError> {
    if d.configurations@.len() > 1 {
        Some(CompileError::TooManyConfigurations)
    } else if spec_collect_error(d) is Some {
        spec_collect_error(d)
    } else if d.configurations@.len() == 0 {
        Some(CompileError::EndpointConfigTooFewConfigurations)
    } else if first_ep_error(config_endpoints(d.configurations@[0])) is Some {
        first_ep_error(config_endpoints(d.configurations@[0]))
    } else if spec_serialize_error(d.configurations@[0]) is Some {
        spec_serialize_error(d.configurations@[0])
    } else {
        None
    }
}

/// The root of the descriptor model: the device descriptor plus the string
/// table the compile pipeline builds from it.
pub struct DescriptorTree {
    pub device: DeviceDescriptor,
    /// Table index of the fallback string descriptor; 255 until allocated.
    pub miss: u8,
    pub strings: Vec<StringDescriptor>,
    pub string0: StringDescriptorZero,
}

impl DescriptorTree {
    /// A fresh tree around `device`, with an empty string table and the
    /// default language list.
    pub fn new(device: DeviceDescriptor) -> (r: DescriptorTree)
        ensures
            r.device == device,
            r.strings@.len() == 0,
            r.string0.wLANGID@ == seq![0x0409u16],
            r.miss == 255,
    {
        DescriptorTree { device, strings: Vec::new(), string0: StringDescriptorZero::default(), miss: 255 }
    }

    /// Registers one string: hands it the next one-based table index,
    /// records the index in the tree's string reference and appends the
    /// table entry.  The 256th registration fails, since a string index is
    /// one 8-bit byte; a failed registration changes nothing.
    fn register_string(strings: &mut Vec<StringDescriptor>, i_string: &mut StringId) -> (r:
        Result<(), CompileError>)
        requires
            old(i_string).units@.len() * 2 <= 253,
        ensures
            match r {
                Ok(()) => {
                    &&& old(strings)@.len() <= 254
                    &&& final(strings)@.len() == old(strings)@.len() + 1
                    &&& forall|k: int|
                        0 <= k < old(strings)@.len() ==> final(strings)@[k] == old(strings)@[k]
                    &&& final(strings)@[old(strings)@.len() as int].bString@ == old(
                        i_string,
                    ).units@
                    &&& final(strings)@[old(strings)@.len() as int].id as int == old(
                        strings,
                    )@.len() + 1
                    &&& final(i_string).id as int == old(strings)@.len() + 1
                    &&& final(i_string).units == old(i_string).units
                },
                Err(e) => {
                    &&& e == CompileError::TooManyStrings
                    &&& old(strings)@.len() > 254
                    &&& *final(strings) == *old(strings)
                    &&& *final(i_string) == *old(i_string)
                },
            },
    {
        if strings.len() > 254 {
            return Err(CompileError::TooManyStrings);
        }
        let id = (strings.len() + 1) as u8;
        let newdescr = StringDescriptor::new(&i_string.units, id);
        i_string.id = id;
        strings.push(newdescr);
        Ok(())
    }

    /// The string-allocation and length-calculation stages: walks the tree
    /// in its fixed order (device strings, configuration string, interface
    /// strings), assigns each string the next one-based table index,
    /// appends the fallback entry, and writes the computed total length
    /// into the configuration.  Fails on the first over-long string, on the
    /// 256th table entry, and on a functional descriptor that cannot be
    /// sized; a failed tree is left unchanged.
    pub fn collect_strings_calc_len(&mut self) -> (r: Result<(), CompileError>)
        requires
            old(self).device.configurations@.len() <= 1,
            device_wf(old(self).device),
        ensures
            match r {
                Ok(()) => {
                    &&& spec_collect_error(old(self).device) is None
                    &&& spec_resolved_device(old(self).device, final(self).device)
                    &&& strings_match(
                        final(self).strings@,
                        spec_all_string_units(old(self).device),
                    )
                    &&& final(self).miss as int == spec_all_string_units(old(self).device).len()
                    &&& final(self).string0 == old(self).string0
                },
                Err(e) => {
                    &&& spec_collect_error(old(self).device) == Some(e)
                    &&& *final(self) == *old(self)
                },
            },
    {
        let ghost d0 = old(self).device;
        let ghost all = spec_all_string_units(d0);
        proof {
            assert(all[0] == d0.iManufacturer.units@);
            assert(all[1] == d0.iProduct.units@);
            assert(all[2] == d0.iSerialNumber.units@);
        }
        // String allocation: validate every entry in allocation order.
        if self.device.iManufacturer.units.len() > 126 {
            proof {
                lemma_first_string_error_from_finds(all, 0, 0);
            }
            return Err(CompileError::StringTooLong);
        }
        if self.device.iProduct.units.len() > 126 {
            proof {
                lemma_first_string_error_from_finds(all, 0, 1);
            }
            return Err(CompileError::StringTooLong);
        }
        if self.device.iSerialNumber.units.len() > 126 {
            proof {
                lemma_first_string_error_from_finds(all, 0, 2);
            }
            return Err(CompileError::StringTooLong);
        }
        let n_configs = self.device.configurations.len();
        if n_configs == 1 {
            let config = &self.device.configurations[0];
            proof {
                assert(all[3] == d0.configurations@[0].iConfiguration.units@);
            }
            if config.iConfiguration.units.len() > 126 {
                proof {
                    lemma_first_string_error_from_finds(all, 0, 3);
                }
                return Err(CompileError::StringTooLong);
            }
            let n_ifaces = config.interfaces.len();
            for j in 0..n_ifaces
                invariant
                    n_configs == 1,
                    self == old(self),
                    d0 == self.device,
                    all == spec_all_string_units(d0),
                    d0.configurations@.len() == 1,
                    config == &d0.configurations@[0],
                    n_ifaces == config.interfaces@.len(),
                    n_ifaces <= 255,
                    all.len() == 5 + n_ifaces,
                    forall|m: int| 0 <= m < 4 + j ==> #[trigger] string_entry_error(all, m) is None,
            {
                proof {
                    assert(interfaces_string_units(d0.configurations@[0].interfaces@)[j as int]
                        == d0.configurations@[0].interfaces@[j as int].iInterface.units@);
                    assert(all[4 + j] == config.interfaces@[j as int].iInterface.units@);
                }
                if j >= 251 {
                    proof {
                        assert(string_entry_error(all, 4 + j) == Some(
                            CompileError::TooManyStrings,
                        ));
                        lemma_first_string_error_from_finds(all, 0, 4 + j);
                    }
                    return Err(CompileError::TooManyStrings);
                }
                if config.interfaces[j].iInterface.units.len() > 126 {
                    proof {
                        assert(string_entry_error(all, 4 + j) == Some(
                            CompileError::StringTooLong,
                        ));
                        lemma_first_string_error_from_finds(all, 0, 4 + j);
                    }
                    return Err(CompileError::StringTooLong);
                }
            }
        }
        // The fallback entry: check its position, then its (fixed) length.
        let count: usize = if n_configs == 1 {
            4 + self.device.configurations[0].interfaces.len()
        } else {
            3
        };
        proof {
            assert(count as int == all.len() - 1);
        }
        if count >= 255 {
            proof {
                assert(string_entry_error(all, count as int) == Some(
                    CompileError::TooManyStrings,
                ));
                lemma_first_string_error_from_finds(all, 0, count as int);
            }
            return Err(CompileError::TooManyStrings);
        }
        proof {
            reveal_strlit("No str fnd.");
            lemma_utf16_units_len_bound("No str fnd."@);
            assert(all[count as int] == fallback_units());
            assert(string_entry_error(all, count as int) is None);
            assert(forall|m: int| 0 <= m < all.len() ==> #[trigger] string_entry_error(all, m) is None);
            lemma_first_string_error_from_none(all, 0);
        }
        // Length calculation can size only the supported functional
        // descriptor variants; reject the tree on the first other one.
        if n_configs == 1 {
            let config = &self.device.configurations[0];
            let n_ifaces = config.interfaces.len();
            for t in 0..n_ifaces
                invariant
                    self == old(self),
                    d0 == self.device,
                    d0.configurations@.len() == 1,
                    config == &d0.configurations@[0],
                    n_ifaces == config.interfaces@.len(),
                    spec_string_stage_error(d0) is None,
                    forall|t2: int, u2: int|
                        0 <= t2 < t && 0 <= u2 < config.interfaces@[t2].cdcs@.len()
                            ==> (#[trigger] config.interfaces@[t2].cdcs@[u2]).spec_supported(),
            {
                let n_cdcs = config.interfaces[t].cdcs.len();
                for u in 0..n_cdcs
                    invariant
                        self == old(self),
                        d0 == self.device,
                        d0.configurations@.len() == 1,
                        config == &d0.configurations@[0],
                        t < config.interfaces@.len(),
                        n_cdcs == config.interfaces@[t as int].cdcs@.len(),
                        spec_string_stage_error(d0) is None,
                        forall|u2: int|
                            0 <= u2 < u
                                ==> (#[trigger] config.interfaces@[t as int].cdcs@[u2]).spec_supported(),
                {
                    if !config.interfaces[t].cdcs[u].is_supported() {
                        proof {
                            assert(!spec_all_cdcs_supported(d0));
                        }
                        return Err(CompileError::UnsupportedClassFunctionalDescriptor);
                    }
                }
            }
        }
        proof {
            assert(spec_all_cdcs_supported(d0));
            assert(spec_collect_error(d0) is None);
        }
        // Allocation and length calculation proper.
        let mut strings: Vec<StringDescriptor> = Vec::new();
        if let Err(e) = Self::register_string(&mut strings, &mut self.device.iManufacturer) {
            // Unreachable: the allocation-order validation bounded the count.
            proof {
                assert(false);
            }
            return Err(e);
        }
        if let Err(e) = Self::register_string(&mut strings, &mut self.device.iProduct) {
            // Unreachable: the allocation-order validation bounded the count.
            proof {
                assert(false);
            }
            return Err(e);
        }
        if let Err(e) = Self::register_string(&mut strings, &mut self.device.iSerialNumber) {
            // Unreachable: the allocation-order validation bounded the count.
            proof {
                assert(false);
            }
            return Err(e);
        }
        proof {
            assert(strings_match(strings@, all.take(3)));
        }
        if n_configs == 1 {
            let mut config = self.device.configurations.remove(0);
            proof {
                assert(config == d0.configurations@[0]);
            }
            if let Err(e) = Self::register_string(&mut strings, &mut config.iConfiguration) {
            // Unreachable: the allocation-order validation bounded the count.
            proof {
                assert(false);
            }
            return Err(e);
        }
            proof {
                assert(strings_match(strings@, all.take(4)));
            }
            let ghost old_ifaces = d0.configurations@[0].interfaces@;
            let n_ifaces = config.interfaces.len();
            let mut new_ifaces: Vec<InterfaceDescriptor> = Vec::new();
            let mut length: u32 = 9;
            proof {
                assert(old_ifaces.take(0) =~= Seq::<InterfaceDescriptor>::empty());
                lemma_interfaces_total_len_prefix(old_ifaces, 0);
                assert(config_total_len(d0.configurations@[0]) <= 0xFFFF);
            }
            for j in 0..n_ifaces
                invariant
                    old_ifaces == d0.configurations@[0].interfaces@,
                    n_ifaces == old_ifaces.len(),
                    n_ifaces <= 255,
                    config.interfaces@ == old_ifaces.skip(j as int),
                    config.iConfiguration.units == d0.configurations@[0].iConfiguration.units,
                    config.iConfiguration.id == 4,
                    config.bConfigurationValue == d0.configurations@[0].bConfigurationValue,
                    config.bmAttributes == d0.configurations@[0].bmAttributes,
                    config.bMaxPower == d0.configurations@[0].bMaxPower,
                    config.wTotalLength == d0.configurations@[0].wTotalLength,
                    new_ifaces@.len() == j,
                    forall|m: int|
                        0 <= m < j ==> spec_resolved_iface(
                            old_ifaces[m],
                            #[trigger] new_ifaces@[m],
                            5 + m,
                        ),
                    strings@.len() == 4 + j,
                    strings_match(strings@, all.take(4 + j)),
                    all == spec_all_string_units(d0),
                    all.len() == 5 + n_ifaces,
                    all.len() <= 255,
                    d0.configurations@.len() == 1,
                    device_wf(d0),
                    spec_all_cdcs_supported(d0),
                    length as int == 9 + interfaces_total_len(old_ifaces.take(j as int)),
                    length <= 0xFFFF,
                    config_total_len(d0.configurations@[0]) <= 0xFFFF,
                    forall|m: int|
                        0 <= m < all.len() ==> #[trigger] string_entry_error(all, m) is None,
            {
                let mut iface = config.interfaces.remove(0);
                proof {
                    assert(old_ifaces.skip(j as int)[0] == old_ifaces[j as int]);
                    assert(old_ifaces.skip(j as int).remove(0) =~= old_ifaces.skip(j + 1));
                    assert(iface == old_ifaces[j as int]);
                    assert(interfaces_string_units(old_ifaces)[j as int] == old_ifaces[j as int].iInterface.units@);
                    assert(all[4 + j] == old_ifaces[j as int].iInterface.units@);
                    assert(string_entry_error(all, 4 + j) is None);
                }
                if let Err(e) = Self::register_string(&mut strings, &mut iface.iInterface) {
                    // Unreachable: the allocation-order validation bounded
                    // the count.
                    proof {
                        assert(false);
                    }
                    return Err(e);
                }
                proof {
                    assert(strings_match(strings@, all.take(4 + j + 1)));
                    assert(interface_wf(old_ifaces[j as int]));
                }
                let mut cdclen: u32 = 0;
                let n_cdcs = iface.cdcs.len();
                proof {
                    assert(iface.cdcs@ == old_ifaces[j as int].cdcs@);
                    assert(iface.cdcs@.take(0) =~= Seq::<
                        CdcInterfaceFunctionalDescriptor,
                    >::empty());
                    lemma_cdcs_total_len_nonneg(iface.cdcs@);
                    lemma_interfaces_total_len_take_step(old_ifaces, j as int);
                    lemma_interfaces_total_len_prefix(old_ifaces, j + 1);
                }
                for u in 0..n_cdcs
                    invariant
                        n_cdcs == iface.cdcs@.len(),
                        iface.cdcs@ == old_ifaces[j as int].cdcs@,
                        j < old_ifaces.len(),
                        d0.configurations@.len() == 1,
                        old_ifaces == d0.configurations@[0].interfaces@,
                        device_wf(d0),
                        spec_all_cdcs_supported(d0),
                        cdclen as int == cdcs_total_len(iface.cdcs@.take(u as int)),
                        cdclen as int <= cdcs_total_len(iface.cdcs@),
                        cdcs_total_len(iface.cdcs@) <= 0xFFFF,
                {
                    proof {
                        assert(iface.cdcs@[u as int] == d0.configurations@[0].interfaces@[j as int].cdcs@[u as int]);
                        assert(iface.cdcs@[u as int].spec_supported());
                        assert(interface_wf(d0.configurations@[0].interfaces@[j as int]));
                        assert(iface.cdcs@[u as int].spec_sized());
                        lemma_cdcs_total_len_take_step(iface.cdcs@, u as int);
                        lemma_cdcs_total_len_prefix(iface.cdcs@, u + 1);
                    }
                    cdclen = cdclen + iface.cdcs[u].len() as u32;
                }
                proof {
                    assert(iface.cdcs@.take(n_cdcs as int) =~= iface.cdcs@);
                    assert(cdclen as int == cdcs_total_len(old_ifaces[j as int].cdcs@));
                    assert(interface_wf(old_ifaces[j as int]));
                    assert(old_ifaces[j as int].endpoints@.len() <= 255);
                    // The running length stays under the (bounded) total.
                    lemma_interfaces_total_len_take_step(old_ifaces, j as int);
                    lemma_interfaces_total_len_prefix(old_ifaces, j + 1);
                }
                let epslen: u32 = 7 * (iface.endpoints.len() as u32);
                length = length + 9 + cdclen + epslen;
                new_ifaces.push(iface);
            }
            proof {
                assert(old_ifaces.take(n_ifaces as int) =~= old_ifaces);
            }
            config.interfaces = new_ifaces;
            config.wTotalLength = length as u16;
            self.device.configurations.push(config);
        }
        let mut miss = StringId::new("No str fnd.");
        proof {
            reveal_strlit("No str fnd.");
            lemma_utf16_units_len_bound("No str fnd."@);
            assert(all[all.len() - 1] == fallback_units());
        }
        if let Err(e) = Self::register_string(&mut strings, &mut miss) {
            // Unreachable: the allocation-order validation bounded the count.
            proof {
                assert(false);
            }
            return Err(e);
        }
        self.miss = miss.id;
        self.strings = strings;
        proof {
            assert(self.strings@.len() == all.len());
            assert(all.take(all.len() - 1).push(all[all.len() - 1]) =~= all);
            assert(strings_match(self.strings@, all));
            assert(spec_resolved_device(d0, self.device));
        }
        Ok(())
    }

    /// The endpoint list the validator and the sizer work on: every
    /// endpoint of the first configuration, or none when the tree has no
    /// configuration.
    pub open spec fn spec_endpoints(&self) -> Seq<EndpointDescriptor> {
        if self.device.configurations@.len() == 0 {
            Seq::empty()
        } else {
            config_endpoints(self.device.configurations@[0])
        }
    }

    /// The highest physical endpoint number in use.
    pub open spec fn spec_max_addr(&self) -> int {
        spec_max_endpoint_addr(self.spec_endpoints())
    }

    fn max_endpoint_addr(&self) -> (r: usize)
        ensures
            r as int == self.spec_max_addr(),
            r <= 255,
    {
        let mut max_addr: usize = 0;
        if self.device.configurations.len() > 0 {
            let config = &self.device.configurations[0];
            let flat = flatten_endpoint_shapes(&config.interfaces);
            let ghost eps = self.spec_endpoints();
            let n = flat.len();
            for k in 0..n
                invariant
                    n == eps.len(),
                    n == flat@.len(),
                    forall|j: int|
                        0 <= j < n ==> #[trigger] flat@[j].0 == eps[j].bEndpointAddress.spec_nr(),
                    max_addr as int == spec_max_endpoint_addr(eps.take(k as int)),
                    max_addr <= 255,
            {
                let nr = flat[k].0;
                if nr as usize > max_addr {
                    max_addr = nr as usize;
                }
                proof {
                    lemma_max_endpoint_addr_take_step(eps, k as int);
                }
            }
            proof {
                assert(eps.take(n as int) =~= eps);
            }
        } else {
            proof {
                assert(self.spec_endpoints() =~= Seq::<EndpointDescriptor>::empty());
            }
        }
        max_addr
    }

    /// The number of buffer-descriptor-table slots the hardware needs:
    /// four per physical endpoint number up to the highest in use
    /// ({EVEN, ODD} x {RX, TX}).
    pub fn num_bufferdescriptors(&self) -> (r: usize)
        ensures
            r as int == (self.spec_max_addr() + 1) * 4,
            r <= 1024,
    {
        (self.max_endpoint_addr() + 1) * 4
    }

    /// The byte size of the buffer descriptor table: each slot is an
    /// 8-byte control-and-address record.
    pub fn usbbufferdescriptors_size(&self) -> (r: usize)
        ensures
            r as int == (self.spec_max_addr() + 1) * 4 * 8,
            r <= 8192,
    {
        self.num_bufferdescriptors() * 8
    }

    /// The outcome of the endpoint-validation stage on this tree.
    pub open spec fn spec_endpoint_stage_error(&self) -> Option<CompileError> {
        if self.device.configurations@.len() == 0 {
            Some(CompileError::EndpointConfigTooFewConfigurations)
        } else {
            first_ep_error(config_endpoints(self.device.configurations@[0]))
        }
    }

    /// Validates every endpoint of the first configuration and derives the
    /// sixteen endpoint-control register values: reception is enabled where
    /// an OUT endpoint is present, transmission where an IN endpoint is
    /// present, and the not-isochronous flag is set where a non-isochronous
    /// endpoint is present.  Fails on the first endpoint whose physical
    /// number is out of range, whose direction is already claimed at that
    /// number, or whose isochronous mode disagrees with another endpoint of
    /// the same number.
    pub fn endpoint_config(&self) -> (r: Result<Vec<Endpointconfig>, CompileError>)
        ensures
            match r {
                Ok(v) => {
                    &&& self.spec_endpoint_stage_error() is None
                    &&& self.device.configurations@.len() >= 1
                    &&& v@.len() == 16
                    &&& forall|n: int|
                        0 <= n < 16 ==> #[trigger] v@[n].0 == spec_endpoint_cfg(
                            config_endpoints(self.device.configurations@[0]),
                            n,
                        )
                },
                Err(e) => self.spec_endpoint_stage_error() == Some(e),
            },
    {
        if self.device.configurations.len() == 0 {
            return Err(CompileError::EndpointConfigTooFewConfigurations);
        }
        let config = &self.device.configurations[0];
        let flat = flatten_endpoint_shapes(&config.interfaces);
        let ghost eps = config_endpoints(self.device.configurations@[0]);
        let mut cfgs: Vec<Endpointconfig> = Vec::new();
        for _s in 0..16usize
            invariant
                cfgs@.len() == _s,
                forall|n: int| 0 <= n < _s ==> #[trigger] cfgs@[n].0 == 0,
        {
            cfgs.push(Endpointconfig(0));
        }
        proof {
            assert(eps.take(0) =~= Seq::<EndpointDescriptor>::empty());
            assert forall|n: int| 0 <= n < 16 implies #[trigger] cfgs@[n].0
                == spec_endpoint_cfg(eps.take(0), n) by {
                lemma_cfg_value_bits(false, false, false);
                assert(!has_dir_at(eps.take(0), n, false));
                assert(!has_dir_at(eps.take(0), n, true));
                assert(!has_iso_flag_at(eps.take(0), n, false));
            }
        }
        let n_eps = flat.len();
        for k in 0..n_eps
            invariant
                n_eps == eps.len(),
                n_eps == flat@.len(),
                eps == config_endpoints(self.device.configurations@[0]),
                self.device.configurations@.len() >= 1,
                forall|j: int|
                    0 <= j < n_eps ==> {
                        let e = eps[j];
                        #[trigger] flat@[j] == (
                            e.bEndpointAddress.spec_nr(),
                            e.bEndpointAddress.spec_is_in(),
                            e.bmAttributes.spec_is_isochronous(),
                        )
                    },
                forall|j: int| 0 <= j < k ==> #[trigger] ep_error_at(eps, j) is None,
                cfgs@.len() == 16,
                forall|n: int|
                    0 <= n < 16 ==> #[trigger] cfgs@[n].0 == spec_endpoint_cfg(
                        eps.take(k as int),
                        n,
                    ),
        {
            let nr = flat[k].0;
            let is_in = flat[k].1;
            let iso = flat[k].2;
            if nr >= 16 {
                proof {
                    assert(ep_error_at(eps, k as int) == Some(
                        CompileError::InvalidEndpointNumber(nr),
                    ));
                    lemma_first_ep_error_from_finds(eps, 0, k as int);
                }
                return Err(CompileError::InvalidEndpointNumber(nr));
            }
            let idx = nr as usize;
            proof {
                lemma_cfg_value_bits(
                    has_dir_at(eps.take(k as int), idx as int, false),
                    has_dir_at(eps.take(k as int), idx as int, true),
                    has_iso_flag_at(eps.take(k as int), idx as int, false),
                );
            }
            let dup = if is_in {
                cfgs[idx].tx()
            } else {
                cfgs[idx].rx()
            };
            if dup {
                proof {
                    assert(ep_error_at(eps, k as int) == Some(
                        CompileError::DuplicateEndpointDirection(nr),
                    ));
                    lemma_first_ep_error_from_finds(eps, 0, k as int);
                }
                return Err(CompileError::DuplicateEndpointDirection(nr));
            }
            let mut conflict = false;
            for j in 0..n_eps
                invariant
                    n_eps == eps.len(),
                    n_eps == flat@.len(),
                    forall|m: int|
                        0 <= m < n_eps ==> {
                            let e = eps[m];
                            #[trigger] flat@[m] == (
                                e.bEndpointAddress.spec_nr(),
                                e.bEndpointAddress.spec_is_in(),
                                e.bmAttributes.spec_is_isochronous(),
                            )
                        },
                    k < n_eps,
                    nr == eps[k as int].bEndpointAddress.spec_nr(),
                    iso == eps[k as int].bmAttributes.spec_is_isochronous(),
                    conflict == has_iso_flag_at(eps.take(j as int), nr as int, !iso),
            {
                if flat[j].0 == nr && flat[j].2 != iso {
                    conflict = true;
                }
                proof {
                    lemma_has_iso_flag_at_take_step(eps, nr as int, !iso, j as int);
                }
            }
            proof {
                assert(eps.take(n_eps as int) =~= eps);
            }
            if conflict {
                proof {
                    assert(ep_error_at(eps, k as int) == Some(
                        CompileError::IsochronousModeConflict(nr),
                    ));
                    lemma_first_ep_error_from_finds(eps, 0, k as int);
                }
                return Err(CompileError::IsochronousModeConflict(nr));
            }
            assert(ep_error_at(eps, k as int) is None);
            let mut c = cfgs[idx];
            if is_in {
                c.set_tx();
            } else {
                c.set_rx();
            }
            if !iso {
                c.set_notisochronous();
            }
            cfgs.set(idx, c);
            proof {
                let pre = eps.take(k as int);
                let post = eps.take(k + 1);
                assert forall|n: int| 0 <= n < 16 implies #[trigger] cfgs@[n].0
                    == spec_endpoint_cfg(post, n) by {
                    let o = has_dir_at(pre, n, false);
                    let d = has_dir_at(pre, n, true);
                    let z = has_iso_flag_at(pre, n, false);
                    lemma_has_dir_at_take_step(eps, n, false, k as int);
                    lemma_has_dir_at_take_step(eps, n, true, k as int);
                    lemma_has_iso_flag_at_take_step(eps, n, false, k as int);
                    lemma_cfg_value_bits(o, d, z);
                    if n != idx as int {
                        assert(spec_endpoint_cfg(post, n) == spec_endpoint_cfg(pre, n));
                    } else {
                        if is_in {
                            lemma_cfg_value_bits(o, true, z);
                            assert(has_dir_at(post, n, false) == o);
                            assert(has_dir_at(post, n, true));
                            if iso {
                                assert(has_iso_flag_at(post, n, false) == z);
                                assert(cfgs@[n].0 == cfg_value(o, true, z));
                            } else {
                                assert(has_iso_flag_at(post, n, false));
                                assert(cfgs@[n].0 == cfg_value(o, true, true));
                            }
                        } else {
                            lemma_cfg_value_bits(true, d, z);
                            assert(has_dir_at(post, n, false));
                            assert(has_dir_at(post, n, true) == d);
                            if iso {
                                assert(has_iso_flag_at(post, n, false) == z);
                                assert(cfgs@[n].0 == cfg_value(true, d, z));
                            } else {
                                assert(has_iso_flag_at(post, n, false));
                                assert(cfgs@[n].0 == cfg_value(true, d, true));
                            }
                        }
                    }
                }
            }
        }
        proof {
            assert(eps.take(n_eps as int) =~= eps);
            lemma_first_ep_error_from_none(eps, 0);
        }
        Ok(cfgs)
    }

    /// The whole compile pipeline: allocate the string table, compute the
    /// configuration's total length, validate the endpoints, size the
    /// buffer descriptor table, and serialize every descriptor.  The first
    /// violation met in stage order aborts the compilation; a tree refused
    /// before allocation is left unchanged.
    pub fn source(&mut self) -> (r: Result<Artifacts, CompileError>)
        requires
            device_wf(old(self).device),
            old(self).string0.spec_len() <= 255,
        ensures
            match r {
                Ok(a) => {
                    &&& spec_compile_error(old(self).device) is None
                    &&& spec_resolved_device(old(self).device, final(self).device)
                    &&& strings_match(
                        final(self).strings@,
                        spec_all_string_units(old(self).device),
                    )
                    &&& final(self).miss as int == spec_all_string_units(old(self).device).len()
                    &&& final(self).string0 == old(self).string0
                    &&& a.devicedescriptor@ == final(self).device.spec_bytes()
                    &&& a.devicedescriptor@.len() == 18
                    &&& a.configdescriptortree@ == config_tree_bytes(
                        final(self).device.configurations@[0],
                    )
                    &&& a.configdescriptortree@.len()
                        == final(self).device.configurations@[0].wTotalLength
                    &&& a.stringdescriptors@.len() == final(self).strings@.len() + 1
                    &&& a.stringdescriptors@[0]@ == final(self).string0.spec_bytes()
                    &&& forall|k: int|
                        0 <= k < final(self).strings@.len()
                            ==> #[trigger] a.stringdescriptors@[k + 1]@
                            == final(self).strings@[k].spec_bytes()
                    &&& a.miss == final(self).miss
                    &&& a.num_bufferdescriptors as int == (final(self).spec_max_addr() + 1) * 4
                    &&& a.usbbufferdescriptors_size as int == (final(self).spec_max_addr() + 1) * 4
                        * 8
                    &&& a.endpointconfig_for_registers@.len() == 16
                    &&& forall|n: int|
                        0 <= n < 16 ==> #[trigger] a.endpointconfig_for_registers@[n].0
                            == spec_endpoint_cfg(
                            config_endpoints(final(self).device.configurations@[0]),
                            n,
                        )
                },
                Err(e) => {
                    &&& spec_compile_error(old(self).device) == Some(e)
                    &&& (*final(self) == *old(self) || (spec_resolved_device(
                        old(self).device,
                        final(self).device,
                    ) && strings_match(
                        final(self).strings@,
                        spec_all_string_units(old(self).device),
                    ) && final(self).miss as int == spec_all_string_units(old(self).device).len()
                        && final(self).string0 == old(self).string0))
                },
            },
    {
        let ghost od = old(self).device;
        if self.device.configurations.len() > 1 {
            return Err(CompileError::TooManyConfigurations);
        }
        match self.collect_strings_calc_len() {
            Err(e) => {
                return Err(e);
            },
            Ok(()) => {},
        }
        proof {
            if od.configurations@.len() == 1 {
                assert(spec_resolved_config(od.configurations@[0], self.device.configurations@[0]));
                lemma_resolved_preserves_config(
                    od.configurations@[0],
                    self.device.configurations@[0],
                );
            }
        }
        let endpointconfig_for_registers = match self.endpoint_config() {
            Err(e) => {
                return Err(e);
            },
            Ok(v) => v,
        };
        let num_bufferdescriptors = self.num_bufferdescriptors();
        let usbbufferdescriptors_size = self.usbbufferdescriptors_size();
        let devicedescriptor = self.device.source();
        proof {
            let oc = od.configurations@[0];
            let nc = self.device.configurations@[0];
            assert(config_wf(oc));
            assert forall|t: int| 0 <= t < nc.interfaces@.len() implies interface_wf(
                #[trigger] nc.interfaces@[t],
            ) by {
                assert(spec_resolved_iface(oc.interfaces@[t], nc.interfaces@[t], 5 + t));
                assert(interface_wf(oc.interfaces@[t]));
            }
            assert forall|t: int, u: int|
                0 <= t < nc.interfaces@.len() && 0 <= u < nc.interfaces@[t].cdcs@.len() implies (
            #[trigger] nc.interfaces@[t].cdcs@[u]).spec_supported() by {
                assert(spec_resolved_iface(oc.interfaces@[t], nc.interfaces@[t], 5 + t));
                assert(oc.interfaces@[t].cdcs@[u].spec_supported());
            }
            lemma_no_ep_error_nrs_in_range(nc.interfaces@);
        }
        let config = &self.device.configurations[0];
        let configdescriptortree = match source_config_tree(config) {
            Err(e) => {
                proof {
                    lemma_resolved_preserves_config(
                        od.configurations@[0],
                        self.device.configurations@[0],
                    );
                }
                return Err(e);
            },
            Ok(v) => v,
        };
        proof {
            lemma_resolved_preserves_config(od.configurations@[0], self.device.configurations@[0]);
            lemma_total_length_matches_serialization(self.device.configurations@[0]);
        }
        let mut stringdescriptors: Vec<Vec<u8>> = Vec::new();
        stringdescriptors.push(self.string0.source());
        let n_strings = self.strings.len();
        proof {
            lemma_first_string_error_from_all_none(spec_all_string_units(od), 0);
        }
        for k in 0..n_strings
            invariant
                n_strings == self.strings@.len(),
                strings_match(self.strings@, spec_all_string_units(od)),
                forall|m: int|
                    0 <= m < spec_all_string_units(od).len()
                        ==> #[trigger] string_entry_error(spec_all_string_units(od), m) is None,
                stringdescriptors@.len() == k + 1,
                stringdescriptors@[0]@ == self.string0.spec_bytes(),
                forall|m: int|
                    0 <= m < k ==> #[trigger] stringdescriptors@[m + 1]@
                        == self.strings@[m].spec_bytes(),
        {
            proof {
                assert(string_entry_error(spec_all_string_units(od), k as int) is None);
                assert(self.strings@[k as int].bString@ == spec_all_string_units(od)[k as int]);
            }
            stringdescriptors.push(self.strings[k].source());
        }
        let miss = self.miss;
        Ok(
            Artifacts {
                devicedescriptor,
                configdescriptortree,
                stringdescriptors,
                miss,
                num_bufferdescriptors,
                usbbufferdescriptors_size,
                endpointconfig_for_registers,
            },
        )
    }
}

} // verus!
