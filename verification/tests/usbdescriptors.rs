//! Tests of the USB descriptor compiler: the compile pipeline on the
//! canonical CDC-ACM tree, the endpoint validator, the string allocator
//! and the buffer-descriptor-table sizer.

use platformtreeb::k20::usbdescriptors::Bcd;
use platformtreeb::k20::usbdescriptors::BcdCdc;
use platformtreeb::k20::usbdescriptors::BcdUsb;
use platformtreeb::k20::usbdescriptors::CdcInterfaceFunctionalDescriptor;
use platformtreeb::k20::usbdescriptors::CompileError;
use platformtreeb::k20::usbdescriptors::ConfAttributes;
use platformtreeb::k20::usbdescriptors::ConfigurationDescriptor;
use platformtreeb::k20::usbdescriptors::DescriptorTree;
use platformtreeb::k20::usbdescriptors::DeviceClass;
use platformtreeb::k20::usbdescriptors::DeviceDescriptor;
use platformtreeb::k20::usbdescriptors::EndpointAddress;
use platformtreeb::k20::usbdescriptors::EndpointDescriptor;
use platformtreeb::k20::usbdescriptors::InterfaceDescriptor;
use platformtreeb::k20::usbdescriptors::MaxCurrent;
use platformtreeb::k20::usbdescriptors::MaxPacketSizeEP0;
use platformtreeb::k20::usbdescriptors::StringId;
use platformtreeb::k20::usbdescriptors::SyncType;
use platformtreeb::k20::usbdescriptors::TransferType;
use platformtreeb::k20::usbdescriptors::UsageType;
use platformtreeb::k20::usbserial::make_device_tree_for_teensy_serial;

fn endpoint(addr: EndpointAddress, attrs: TransferType) -> EndpointDescriptor {
    EndpointDescriptor {
        bEndpointAddress: addr,
        bmAttributes: attrs,
        wMaxPacketSize: 64,
        bInterval: 0,
    }
}

fn interface(nr: u8, name: &str, endpoints: Vec<EndpointDescriptor>) -> InterfaceDescriptor {
    InterfaceDescriptor {
        bInterfaceNumber: nr,
        bAlternateSetting: 0,
        endpoints,
        bInterfaceClass: 0xFF,
        bInterfaceSubClass: 0,
        bInterfaceProtocol: 0,
        iInterface: StringId::new(name),
        cdcs: vec![],
    }
}

fn device_with_configs(configurations: Vec<ConfigurationDescriptor>) -> DeviceDescriptor {
    DeviceDescriptor {
        bcdUSB: BcdUsb::Usb20,
        bDeviceClass: DeviceClass::EachInterfaceDefinesOwnClass,
        bDeviceSubClass: 0,
        bDeviceProtocol: 0,
        bMaxPacketSize0: MaxPacketSizeEP0::Bytes64,
        idVendor: 0x1234,
        idProduct: 0x5678,
        bcdDevice: Bcd(0x0100),
        iManufacturer: StringId::new("maker"),
        iProduct: StringId::new("product"),
        iSerialNumber: StringId::new("serial"),
        configurations,
    }
}

fn config_with_interfaces(interfaces: Vec<InterfaceDescriptor>) -> ConfigurationDescriptor {
    ConfigurationDescriptor {
        wTotalLength: 0,
        interfaces,
        bConfigurationValue: 1,
        iConfiguration: StringId::new("config"),
        bmAttributes: ConfAttributes { self_powered: false, remote_wakeup: false },
        bMaxPower: MaxCurrent { milli_amps: 100 },
    }
}

fn tree_with_endpoints(endpoints: Vec<EndpointDescriptor>) -> DescriptorTree {
    let config = config_with_interfaces(vec![interface(0, "iface", endpoints)]);
    DescriptorTree::new(device_with_configs(vec![config]))
}

#[test]
fn duplicate_in_direction_is_rejected() {
    let tree = tree_with_endpoints(vec![
        endpoint(EndpointAddress::In(2), TransferType::Bulk),
        endpoint(EndpointAddress::In(2), TransferType::Bulk),
    ]);
    assert_eq!(
        tree.endpoint_config().unwrap_err(),
        CompileError::DuplicateEndpointDirection(2)
    );
}

#[test]
fn duplicate_out_direction_is_rejected() {
    let tree = tree_with_endpoints(vec![
        endpoint(EndpointAddress::Out(5), TransferType::Interrupt),
        endpoint(EndpointAddress::Out(5), TransferType::Interrupt),
    ]);
    assert_eq!(
        tree.endpoint_config().unwrap_err(),
        CompileError::DuplicateEndpointDirection(5)
    );
}

#[test]
fn isochronous_mode_conflict_is_rejected() {
    let tree = tree_with_endpoints(vec![
        endpoint(
            EndpointAddress::Out(2),
            TransferType::Isochronous(SyncType::NoSync, UsageType::Data),
        ),
        endpoint(EndpointAddress::In(2), TransferType::Bulk),
    ]);
    assert_eq!(
        tree.endpoint_config().unwrap_err(),
        CompileError::IsochronousModeConflict(2)
    );
}

#[test]
fn endpoint_number_sixteen_is_rejected() {
    let tree = tree_with_endpoints(vec![endpoint(EndpointAddress::In(16), TransferType::Bulk)]);
    assert_eq!(
        tree.endpoint_config().unwrap_err(),
        CompileError::InvalidEndpointNumber(16)
    );
}

#[test]
fn endpoint_config_without_configuration_is_rejected() {
    let tree = DescriptorTree::new(device_with_configs(vec![]));
    assert_eq!(
        tree.endpoint_config().unwrap_err(),
        CompileError::EndpointConfigTooFewConfigurations
    );
}

#[test]
fn endpoint_config_sets_rx_tx_and_not_isochronous_bits() {
    let tree = tree_with_endpoints(vec![
        endpoint(EndpointAddress::Out(1), TransferType::Bulk),
        endpoint(
            EndpointAddress::In(2),
            TransferType::Isochronous(SyncType::NoSync, UsageType::Data),
        ),
        endpoint(EndpointAddress::Out(3), TransferType::Interrupt),
        endpoint(EndpointAddress::In(3), TransferType::Interrupt),
    ]);
    let cfgs = tree.endpoint_config().unwrap();
    assert_eq!(cfgs.len(), 16);
    assert_eq!(cfgs[0].0, 0);
    // OUT only, not isochronous: rx + notiso.
    assert_eq!(cfgs[1].0, 0b0000_1001);
    // IN only, isochronous: tx, notiso stays clear.
    assert_eq!(cfgs[2].0, 0b0000_0100);
    // Both directions, not isochronous: rx + tx + notiso.
    assert_eq!(cfgs[3].0, 0b0000_1101);
    for n in 4..16 {
        assert_eq!(cfgs[n].0, 0);
    }
    let probe = cfgs[1];
    assert!(probe.rx());
    assert!(!probe.tx());
    let probe2 = cfgs[2];
    assert!(!probe2.rx());
    assert!(probe2.tx());
}

#[test]
fn too_many_strings_is_rejected() {
    // Three device strings, one configuration string and 252 interface
    // strings ask for table entry 256: one more than an 8-bit index allows.
    let mut interfaces = Vec::new();
    for i in 0..252u32 {
        interfaces.push(interface((i % 256) as u8, "if", vec![]));
    }
    let mut tree = DescriptorTree::new(device_with_configs(vec![config_with_interfaces(
        interfaces,
    )]));
    assert_eq!(tree.source().unwrap_err(), CompileError::TooManyStrings);
}

#[test]
fn string_of_254_encoded_bytes_is_rejected() {
    // 127 ASCII characters encode to 127 UTF-16 units = 254 bytes.
    let long = "x".repeat(127);
    let mut device = device_with_configs(vec![config_with_interfaces(vec![])]);
    device.iManufacturer = StringId::new(&long);
    let mut tree = DescriptorTree::new(device);
    assert_eq!(tree.source().unwrap_err(), CompileError::StringTooLong);
}

#[test]
fn string_of_252_encoded_bytes_is_accepted() {
    let long = "x".repeat(126);
    let mut device = device_with_configs(vec![config_with_interfaces(vec![])]);
    device.iManufacturer = StringId::new(&long);
    let mut tree = DescriptorTree::new(device);
    // 252 encoded bytes still fit the 8-bit length field of the string
    // descriptor, so the whole pipeline goes through.
    assert!(tree.source().is_ok());
}

#[test]
fn two_configurations_are_rejected() {
    let mut tree = DescriptorTree::new(device_with_configs(vec![
        config_with_interfaces(vec![]),
        config_with_interfaces(vec![]),
    ]));
    assert_eq!(tree.source().unwrap_err(), CompileError::TooManyConfigurations);
}

#[test]
fn zero_configurations_fail_at_the_validator() {
    let mut tree = DescriptorTree::new(device_with_configs(vec![]));
    assert_eq!(
        tree.source().unwrap_err(),
        CompileError::EndpointConfigTooFewConfigurations
    );
}

#[test]
fn unsupported_functional_descriptor_is_rejected() {
    let mut iface = interface(0, "iface", vec![]);
    iface.cdcs = vec![
        CdcInterfaceFunctionalDescriptor::Header { bcdCDC: BcdCdc::Cdc12 },
        CdcInterfaceFunctionalDescriptor::DirectLineManagement,
    ];
    let mut tree = DescriptorTree::new(device_with_configs(vec![config_with_interfaces(vec![
        iface,
    ])]));
    assert_eq!(
        tree.source().unwrap_err(),
        CompileError::UnsupportedClassFunctionalDescriptor
    );
}

#[test]
fn non_header_first_functional_descriptor_is_rejected() {
    let mut iface = interface(0, "iface", vec![]);
    iface.cdcs = vec![CdcInterfaceFunctionalDescriptor::CallManagement {
        bmCapabilities: 0,
        bDataInterface: 1,
    }];
    let mut tree = DescriptorTree::new(device_with_configs(vec![config_with_interfaces(vec![
        iface,
    ])]));
    assert_eq!(
        tree.source().unwrap_err(),
        CompileError::InvalidFirstClassFunctionalDescriptor
    );
}

#[test]
fn odd_max_current_is_rejected() {
    let mut config = config_with_interfaces(vec![]);
    config.bMaxPower = MaxCurrent { milli_amps: 101 };
    let mut tree = DescriptorTree::new(device_with_configs(vec![config]));
    assert_eq!(tree.source().unwrap_err(), CompileError::InvalidMaxCurrent);
}

#[test]
fn max_current_over_500_is_rejected() {
    let mut config = config_with_interfaces(vec![]);
    config.bMaxPower = MaxCurrent { milli_amps: 502 };
    let mut tree = DescriptorTree::new(device_with_configs(vec![config]));
    assert_eq!(tree.source().unwrap_err(), CompileError::InvalidMaxCurrent);
}

#[test]
fn buffer_table_sizing_for_highest_endpoint_four() {
    let tree = tree_with_endpoints(vec![
        endpoint(EndpointAddress::Out(3), TransferType::Bulk),
        endpoint(EndpointAddress::In(4), TransferType::Bulk),
    ]);
    assert_eq!(tree.num_bufferdescriptors(), 20);
    assert_eq!(tree.usbbufferdescriptors_size(), 160);
}

#[test]
fn buffer_table_sizing_without_endpoints() {
    let tree = tree_with_endpoints(vec![]);
    assert_eq!(tree.num_bufferdescriptors(), 4);
    assert_eq!(tree.usbbufferdescriptors_size(), 32);
}

#[test]
fn teensy_serial_total_length_is_67() {
    let mut tree = make_device_tree_for_teensy_serial();
    let artifacts = tree.source().unwrap();
    // 9 (config) + 9 (iface0) + 5+5+4+5 (CDC functionals) + 7 (endpoint 2)
    // + 9 (iface1) + 7 + 7 (endpoints 3, 4).
    assert_eq!(artifacts.configdescriptortree.len(), 67);
    assert_eq!(artifacts.configdescriptortree[2], 67);
    assert_eq!(artifacts.configdescriptortree[3], 0);
}

#[test]
fn teensy_serial_device_descriptor_bytes() {
    let mut tree = make_device_tree_for_teensy_serial();
    let artifacts = tree.source().unwrap();
    assert_eq!(
        artifacts.devicedescriptor,
        vec![
            18, 1, // length, device descriptor type
            0x01, 0x01, // bcdUSB 1.1, little-endian
            2, 0, 0, // communications device class
            64, // max packet size of endpoint 0
            0xC0, 0x16, // idVendor
            0x83, 0x04, // idProduct
            0x00, 0x01, // bcdDevice
            1, 2, 3, // manufacturer, product, serial string indices
            1, // one configuration
        ]
    );
}

#[test]
fn teensy_serial_configuration_tree_bytes() {
    let mut tree = make_device_tree_for_teensy_serial();
    let artifacts = tree.source().unwrap();
    let expected: Vec<u8> = vec![
        // configuration header: total length 67, 2 interfaces, value 1,
        // string 4, self-powered, 100 mA in 2 mA units
        9, 2, 67, 0, 2, 1, 4, 0xC0, 50,
        // interface 0: communications class, 1 endpoint, string 5
        9, 4, 0, 0, 1, 2, 2, 1, 5,
        // CDC header functional descriptor, CDC 1.2
        5, 0x24, 0, 0x10, 0x01,
        // CDC call management: no capabilities, data interface 1
        5, 0x24, 1, 0, 1,
        // CDC abstract control management, capabilities 0x06
        4, 0x24, 2, 6,
        // CDC union: controlling interface 0, subordinate interface 1
        5, 0x24, 6, 0, 1,
        // endpoint: IN 2, interrupt, max packet 16, interval 64
        7, 5, 0x82, 3, 16, 0, 64,
        // interface 1: data class, 2 endpoints, string 6
        9, 4, 1, 0, 2, 0x0A, 0, 0, 6,
        // endpoint: OUT 3, bulk, max packet 64
        7, 5, 0x03, 2, 64, 0, 0,
        // endpoint: IN 4, bulk, max packet 64
        7, 5, 0x84, 2, 64, 0, 0,
    ];
    assert_eq!(artifacts.configdescriptortree, expected);
}

#[test]
fn teensy_serial_string_table_and_fallback() {
    let mut tree = make_device_tree_for_teensy_serial();
    let artifacts = tree.source().unwrap();
    // Language list, six user strings, one fallback entry.
    assert_eq!(artifacts.stringdescriptors.len(), 8);
    assert_eq!(artifacts.miss, 7);
    assert_eq!(artifacts.stringdescriptors[0], vec![4, 3, 0x09, 0x04]);
    // "Daniel" as UTF-16 little-endian, behind a 2-byte header.
    assert_eq!(
        artifacts.stringdescriptors[1],
        vec![14, 3, b'D', 0, b'a', 0, b'n', 0, b'i', 0, b'e', 0, b'l', 0]
    );
    // The fallback entry spells "No str fnd.".
    assert_eq!(artifacts.stringdescriptors[7][0], 2 + 2 * 11);
    assert_eq!(artifacts.stringdescriptors[7][1], 3);
    assert_eq!(artifacts.stringdescriptors[7][2], b'N');
}

#[test]
fn teensy_serial_hardware_artifacts() {
    let mut tree = make_device_tree_for_teensy_serial();
    let artifacts = tree.source().unwrap();
    assert_eq!(artifacts.num_bufferdescriptors, 20);
    assert_eq!(artifacts.usbbufferdescriptors_size, 160);
    let cfg: Vec<u8> = artifacts
        .endpointconfig_for_registers
        .iter()
        .map(|c| c.0)
        .collect();
    assert_eq!(
        cfg,
        vec![0, 0, 0b101, 0b1001, 0b101, 0, 0, 0, 0, 0, 0, 0, 0, 0, 0, 0]
    );
}

#[test]
fn compile_resolves_string_indices_in_place() {
    let mut tree = make_device_tree_for_teensy_serial();
    tree.source().unwrap();
    assert_eq!(tree.device.iManufacturer.id, 1);
    assert_eq!(tree.device.iProduct.id, 2);
    assert_eq!(tree.device.iSerialNumber.id, 3);
    let config = &tree.device.configurations[0];
    assert_eq!(config.iConfiguration.id, 4);
    assert_eq!(config.interfaces[0].iInterface.id, 5);
    assert_eq!(config.interfaces[1].iInterface.id, 6);
    assert_eq!(config.wTotalLength, 67);
}

#[test]
fn fallback_entry_over_the_table_limit_is_rejected() {
    // 255 user strings fit, but the synthetic fallback entry would become
    // the 256th.
    let mut interfaces = Vec::new();
    for i in 0..251u32 {
        interfaces.push(interface((i % 256) as u8, "if", vec![]));
    }
    let mut tree = DescriptorTree::new(device_with_configs(vec![config_with_interfaces(
        interfaces,
    )]));
    assert_eq!(tree.source().unwrap_err(), CompileError::TooManyStrings);
}

#[test]
fn agreeing_isochronous_endpoints_share_a_number() {
    let tree = tree_with_endpoints(vec![
        endpoint(
            EndpointAddress::Out(2),
            TransferType::Isochronous(SyncType::NoSync, UsageType::Data),
        ),
        endpoint(
            EndpointAddress::In(2),
            TransferType::Isochronous(SyncType::NoSync, UsageType::Data),
        ),
    ]);
    let cfgs = tree.endpoint_config().unwrap();
    // Both directions enabled, the not-isochronous flag stays clear.
    assert_eq!(cfgs[2].0, 0b0000_1100);
}

#[test]
fn error_messages_name_the_offending_endpoint() {
    assert_eq!(
        CompileError::DuplicateEndpointDirection(2).message(),
        "Endpoint 2 claims the same direction more than once."
    );
    assert_eq!(
        CompileError::IsochronousModeConflict(12).message(),
        "Endpoint 12 is configured as isochronous and as not isochronous."
    );
    assert_eq!(
        CompileError::InvalidEndpointNumber(16).message(),
        "Maximum usb endpoint number is 15; endpoint 16 was requested."
    );
    assert_eq!(
        CompileError::TooManyStrings.message(),
        "Usb descriptor: too many strings."
    );
}
