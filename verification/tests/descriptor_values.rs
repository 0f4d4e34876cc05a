//! Tests of the individual descriptor value types: identifier bytes,
//! lengths and leaf serializations.

use platformtreeb::k20::usbdescriptors::Bcd;
use platformtreeb::k20::usbdescriptors::BcdCdc;
use platformtreeb::k20::usbdescriptors::BcdUsb;
use platformtreeb::k20::usbdescriptors::CdcInterfaceFunctionalDescriptor;
use platformtreeb::k20::usbdescriptors::ConfAttributes;
use platformtreeb::k20::usbdescriptors::DescriptorTypes;
use platformtreeb::k20::usbdescriptors::EndpointAddress;
use platformtreeb::k20::usbdescriptors::EndpointDescriptor;
use platformtreeb::k20::usbdescriptors::MaxCurrent;
use platformtreeb::k20::usbdescriptors::MaxPacketSizeEP0;
use platformtreeb::k20::usbdescriptors::StringDescriptorZero;
use platformtreeb::k20::usbdescriptors::StringId;
use platformtreeb::k20::usbdescriptors::SyncType;
use platformtreeb::k20::usbdescriptors::TransferType;
use platformtreeb::k20::usbdescriptors::UsageType;

#[test]
fn descriptor_type_identifiers() {
    assert_eq!(DescriptorTypes::Device.id(), 1);
    assert_eq!(DescriptorTypes::Configuration.id(), 2);
    assert_eq!(DescriptorTypes::String.id(), 3);
    assert_eq!(DescriptorTypes::Interface.id(), 4);
    assert_eq!(DescriptorTypes::Endpoint.id(), 5);
    assert_eq!(DescriptorTypes::CdcInterface.id(), 0x24);
    assert_eq!(DescriptorTypes::CdcEndpoint.id(), 0x25);
}

#[test]
fn bcd_identifiers() {
    assert_eq!(BcdUsb::Usb10.id(), 0x0100);
    assert_eq!(BcdUsb::Usb11.id(), 0x0101);
    assert_eq!(BcdUsb::Usb20.id(), 0x0200);
    assert_eq!(BcdCdc::Cdc12.id(), 0x0110);
}

#[test]
fn bcd_validation() {
    assert!(Bcd(0x0100).validate());
    assert!(Bcd(0x1999).validate());
    assert!(!Bcd(0x19A9).validate());
    assert!(!Bcd(0xA000).validate());
}

#[test]
fn configuration_attribute_byte() {
    assert_eq!(
        ConfAttributes { self_powered: false, remote_wakeup: false }.id(),
        0b1000_0000
    );
    assert_eq!(
        ConfAttributes { self_powered: true, remote_wakeup: false }.id(),
        0b1100_0000
    );
    assert_eq!(
        ConfAttributes { self_powered: true, remote_wakeup: true }.id(),
        0b1110_0000
    );
}

#[test]
fn max_current_encodes_half_milliamp_pairs() {
    assert_eq!(MaxCurrent { milli_amps: 100 }.id(), 50);
    assert_eq!(MaxCurrent { milli_amps: 500 }.id(), 250);
    assert_eq!(MaxCurrent { milli_amps: 0 }.id(), 0);
}

#[test]
fn endpoint_address_bytes() {
    assert_eq!(EndpointAddress::Out(3).id(), 0x03);
    assert_eq!(EndpointAddress::In(2).id(), 0x82);
    assert_eq!(EndpointAddress::Out(3).addr(), 3);
    assert_eq!(EndpointAddress::In(2).addr(), 2);
    assert_eq!(EndpointAddress::In(15).id(), 0x8F);
}

#[test]
fn transfer_type_attribute_bytes() {
    assert_eq!(TransferType::Control.id(), 0);
    assert_eq!(TransferType::Bulk.id(), 2);
    assert_eq!(TransferType::Interrupt.id(), 3);
    assert_eq!(
        TransferType::Isochronous(SyncType::NoSync, UsageType::Data).id(),
        1
    );
    assert_eq!(
        TransferType::Isochronous(SyncType::Adaptive, UsageType::Feedback).id(),
        1 | (2 << 2) | (1 << 4)
    );
    assert!(TransferType::Isochronous(SyncType::Sync, UsageType::Data).is_isochronus());
    assert!(!TransferType::Bulk.is_isochronus());
}

#[test]
fn max_packet_size_bytes() {
    assert_eq!(MaxPacketSizeEP0::Bytes8.id(), 8);
    assert_eq!(MaxPacketSizeEP0::Bytes16.id(), 16);
    assert_eq!(MaxPacketSizeEP0::Bytes32.id(), 32);
    assert_eq!(MaxPacketSizeEP0::Bytes64.id(), 64);
}

#[test]
fn cdc_functional_descriptor_lengths() {
    assert_eq!(
        CdcInterfaceFunctionalDescriptor::Header { bcdCDC: BcdCdc::Cdc12 }.len(),
        5
    );
    assert_eq!(
        CdcInterfaceFunctionalDescriptor::CallManagement {
            bmCapabilities: 0,
            bDataInterface: 1
        }
        .len(),
        5
    );
    assert_eq!(
        CdcInterfaceFunctionalDescriptor::AbstractControlManagement { bmCapabilities: 6 }.len(),
        4
    );
    assert_eq!(
        CdcInterfaceFunctionalDescriptor::Union {
            bControlInterface: 0,
            bSubordinateInterfaces: vec![1, 2]
        }
        .len(),
        6
    );
}

#[test]
fn cdc_functional_descriptor_bytes() {
    assert_eq!(
        CdcInterfaceFunctionalDescriptor::Header { bcdCDC: BcdCdc::Cdc12 }.source(),
        vec![5, 0x24, 0, 0x10, 0x01]
    );
    assert_eq!(
        CdcInterfaceFunctionalDescriptor::Union {
            bControlInterface: 0,
            bSubordinateInterfaces: vec![1]
        }
        .source(),
        vec![5, 0x24, 6, 0, 1]
    );
}

#[test]
fn cdc_functional_descriptor_support_and_names() {
    assert!(CdcInterfaceFunctionalDescriptor::Header { bcdCDC: BcdCdc::Cdc12 }.is_supported());
    assert!(!CdcInterfaceFunctionalDescriptor::Obex.is_supported());
    assert!(!CdcInterfaceFunctionalDescriptor::EthernetNetworking.is_supported());
    assert_eq!(CdcInterfaceFunctionalDescriptor::Obex.name(), "Obex");
    assert_eq!(
        CdcInterfaceFunctionalDescriptor::Header { bcdCDC: BcdCdc::Cdc12 }.name(),
        "Header"
    );
}

#[test]
fn endpoint_descriptor_bytes() {
    let e = EndpointDescriptor {
        bEndpointAddress: EndpointAddress::In(2),
        bmAttributes: TransferType::Interrupt,
        wMaxPacketSize: 0x1234,
        bInterval: 64,
    };
    assert_eq!(e.len(), 7);
    assert_eq!(e.source(), vec![7, 5, 0x82, 3, 0x34, 0x12, 64]);
}

#[test]
fn string_descriptor_zero_bytes() {
    let z = StringDescriptorZero::default();
    assert_eq!(z.len(), 4);
    assert_eq!(z.source(), vec![4, 3, 0x09, 0x04]);
}

#[test]
fn string_id_encodes_utf16() {
    let ascii = StringId::new("Ab");
    assert_eq!(ascii.id, 0);
    assert_eq!(ascii.units, vec![0x41, 0x62]);
    // A character outside the basic multilingual plane becomes a
    // surrogate pair.
    let emoji = StringId::new("\u{1F600}");
    assert_eq!(emoji.units, vec![0xD83D, 0xDE00]);
    let mixed = StringId::new("\u{00E9}\u{4E2D}");
    assert_eq!(mixed.units, vec![0x00E9, 0x4E2D]);
}
