//! The canonical CDC-ACM serial device: a communications-class interface
//! with an interrupt IN endpoint, and a data-class interface with a bulk
//! OUT / bulk IN endpoint pair.

use vstd::prelude::*;

use crate::k20::usbdescriptors::Bcd;
use crate::k20::usbdescriptors::BcdCdc;
use crate::k20::usbdescriptors::BcdUsb;
use crate::k20::usbdescriptors::CdcInterfaceFunctionalDescriptor;
use crate::k20::usbdescriptors::ConfAttributes;
use crate::k20::usbdescriptors::ConfigurationDescriptor;
use crate::k20::usbdescriptors::DescriptorTree;
use crate::k20::usbdescriptors::DeviceClass;
use crate::k20::usbdescriptors::DeviceDescriptor;
use crate::k20::usbdescriptors::EndpointAddress;
use crate::k20::usbdescriptors::EndpointDescriptor;
use crate::k20::usbdescriptors::InterfaceDescriptor;
use crate::k20::usbdescriptors::MaxCurrent;
use crate::k20::usbdescriptors::MaxPacketSizeEP0;
use crate::k20::usbdescriptors::StringId;
use crate::k20::usbdescriptors::TransferType;
use crate::k20::usbdescriptors::utf16_units;

verus! {

/// Builds the descriptor tree of the Teensy CDC-ACM serial example: one
/// configuration, a communications-class interface (interrupt IN endpoint
/// 2, four class functional descriptors starting with the Header) and a
/// data-class interface (bulk OUT endpoint 3, bulk IN endpoint 4).
pub fn make_device_tree_for_teensy_serial() -> (r: DescriptorTree)
    ensures
        r.strings@.len() == 0,
        r.miss == 255,
        r.string0.wLANGID@ == seq![0x0409u16],
        r.device.bcdUSB is Usb11,
        r.device.bDeviceClass == DeviceClass::ClassCode(2),
        r.device.bDeviceSubClass == 0,
        r.device.bDeviceProtocol == 0,
        r.device.bMaxPacketSize0 is Bytes64,
        r.device.idVendor == 0x16C0,
        r.device.idProduct == 0x0483,
        r.device.bcdDevice.0 == 0x0100,
        r.device.iManufacturer.id == 0,
        r.device.iManufacturer.units@ == utf16_units("Daniel"@),
        r.device.iProduct.id == 0,
        r.device.iProduct.units@ == utf16_units("THE Profud"@),
        r.device.iSerialNumber.id == 0,
        r.device.iSerialNumber.units@ == utf16_units("12345"@),
        r.device.configurations@.len() == 1,
        ({
            let c = r.device.configurations@[0];
            &&& c.wTotalLength == 0
            &&& c.bConfigurationValue == 1
            &&& c.iConfiguration.id == 0
            &&& c.iConfiguration.units@ == utf16_units("Blub"@)
            &&& c.bmAttributes.self_powered
            &&& !c.bmAttributes.remote_wakeup
            &&& c.bMaxPower.milli_amps == 100
            &&& c.interfaces@.len() == 2
        }),
        ({
            let i0 = r.device.configurations@[0].interfaces@[0];
            &&& i0.bInterfaceNumber == 0
            &&& i0.bAlternateSetting == 0
            &&& i0.bInterfaceClass == 0x02
            &&& i0.bInterfaceSubClass == 0x02
            &&& i0.bInterfaceProtocol == 0x01
            &&& i0.iInterface.id == 0
            &&& i0.iInterface.units@ == utf16_units("Int1"@)
            &&& i0.cdcs@.len() == 4
            &&& i0.cdcs@[0] == CdcInterfaceFunctionalDescriptor::Header { bcdCDC: BcdCdc::Cdc12 }
            &&& i0.cdcs@[1] == CdcInterfaceFunctionalDescriptor::CallManagement {
                bmCapabilities: 0,
                bDataInterface: 1,
            }
            &&& i0.cdcs@[2] == CdcInterfaceFunctionalDescriptor::AbstractControlManagement {
                bmCapabilities: 0x06,
            }
            &&& i0.cdcs@[3] is Union
            &&& i0.cdcs@[3]->Union_bControlInterface == 0
            &&& i0.cdcs@[3]->Union_bSubordinateInterfaces@ == seq![1u8]
            &&& i0.endpoints@.len() == 1
            &&& i0.endpoints@[0].bEndpointAddress == EndpointAddress::In(2)
            &&& i0.endpoints@[0].bmAttributes is Interrupt
            &&& i0.endpoints@[0].wMaxPacketSize == 16
            &&& i0.endpoints@[0].bInterval == 64
        }),
        ({
            let i1 = r.device.configurations@[0].interfaces@[1];
            &&& i1.bInterfaceNumber == 1
            &&& i1.bAlternateSetting == 0
            &&& i1.bInterfaceClass == 0x0A
            &&& i1.bInterfaceSubClass == 0x00
            &&& i1.bInterfaceProtocol == 0x00
            &&& i1.iInterface.id == 0
            &&& i1.iInterface.units@ == utf16_units("Int2"@)
            &&& i1.cdcs@.len() == 0
            &&& i1.endpoints@.len() == 2
            &&& i1.endpoints@[0].bEndpointAddress == EndpointAddress::Out(3)
            &&& i1.endpoints@[0].bmAttributes is Bulk
            &&& i1.endpoints@[0].wMaxPacketSize == 64
            &&& i1.endpoints@[0].bInterval == 0
            &&& i1.endpoints@[1].bEndpointAddress == EndpointAddress::In(4)
            &&& i1.endpoints@[1].bmAttributes is Bulk
            &&& i1.endpoints@[1].wMaxPacketSize == 64
            &&& i1.endpoints@[1].bInterval == 0
        }),
{
    let mut subordinates: Vec<u8> = Vec::new();
    subordinates.push(1);
    let mut cdcs: Vec<CdcInterfaceFunctionalDescriptor> = Vec::new();
    cdcs.push(CdcInterfaceFunctionalDescriptor::Header { bcdCDC: BcdCdc::Cdc12 });
    cdcs.push(
        CdcInterfaceFunctionalDescriptor::CallManagement { bmCapabilities: 0, bDataInterface: 1 },
    );
    cdcs.push(
        CdcInterfaceFunctionalDescriptor::AbstractControlManagement { bmCapabilities: 0x06 },
    );
    cdcs.push(
        CdcInterfaceFunctionalDescriptor::Union {
            bControlInterface: 0,
            bSubordinateInterfaces: subordinates,
        },
    );
    let mut comm_endpoints: Vec<EndpointDescriptor> = Vec::new();
    comm_endpoints.push(
        EndpointDescriptor {
            bEndpointAddress: EndpointAddress::In(2),
            bmAttributes: TransferType::Interrupt,
            wMaxPacketSize: 16,
            bInterval: 64,
        },
    );
    let mut data_endpoints: Vec<EndpointDescriptor> = Vec::new();
    data_endpoints.push(
        EndpointDescriptor {
            bEndpointAddress: EndpointAddress::Out(3),
            bmAttributes: TransferType::Bulk,
            wMaxPacketSize: 64,
            bInterval: 0,
        },
    );
    data_endpoints.push(
        EndpointDescriptor {
            bEndpointAddress: EndpointAddress::In(4),
            bmAttributes: TransferType::Bulk,
            wMaxPacketSize: 64,
            bInterval: 0,
        },
    );
    let mut interfaces: Vec<InterfaceDescriptor> = Vec::new();
    // Communications Class Interface: Abstract Control Model over the
    // V.250 control protocol.
    interfaces.push(
        InterfaceDescriptor {
            bInterfaceNumber: 0,
            bAlternateSetting: 0,
            bInterfaceClass: 0x02,
            bInterfaceSubClass: 0x02,
            bInterfaceProtocol: 0x01,
            iInterface: StringId::new("Int1"),
            cdcs,
            endpoints: comm_endpoints,
        },
    );
    // Data Class Interface: no class-specific subclass or protocol.
    interfaces.push(
        InterfaceDescriptor {
            bInterfaceNumber: 1,
            bAlternateSetting: 0,
            bInterfaceClass: 0x0A,
            bInterfaceSubClass: 0x00,
            bInterfaceProtocol: 0x00,
            iInterface: StringId::new("Int2"),
            cdcs: Vec::new(),
            endpoints: data_endpoints,
        },
    );
    let mut configurations: Vec<ConfigurationDescriptor> = Vec::new();
    configurations.push(
        ConfigurationDescriptor {
            wTotalLength: 0,  // computed by the compile pipeline
            bConfigurationValue: 1,
            iConfiguration: StringId::new("Blub"),
            bmAttributes: ConfAttributes { self_powered: true, remote_wakeup: false },
            bMaxPower: MaxCurrent { milli_amps: 100 },
            interfaces,
        },
    );
    let d = DeviceDescriptor {
        bcdUSB: BcdUsb::Usb11,
        // Communications Device Class; subclass and protocol are unused at
        // the device level.
        bDeviceClass: DeviceClass::ClassCode(2),
        bDeviceSubClass: 0,
        bDeviceProtocol: 0,
        bMaxPacketSize0: MaxPacketSizeEP0::Bytes64,
        idVendor: 0x16C0,
        idProduct: 0x0483,
        bcdDevice: Bcd(0x0100),
        iManufacturer: StringId::new("Daniel"),
        iProduct: StringId::new("THE Profud"),
        iSerialNumber: StringId::new("12345"),
        configurations,
    };
    DescriptorTree::new(d)
}

} // verus!
