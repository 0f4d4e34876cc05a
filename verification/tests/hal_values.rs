//! Tests of the hardware value models: SETUP packet decoding and the
//! buffer-descriptor control-word arithmetic.

use platformtreeb::hal::k20::usb::BufferDescriptor_control;
use platformtreeb::hal::k20::usb::BufferDescriptor_control_Get;
use platformtreeb::hal::k20::usb::BufferDescriptor_control_Update;
use platformtreeb::hal::k20::usb::BufferDescriptor_control_data01;
use platformtreeb::hal::k20::usb::BufferDescriptor_control_own;
use platformtreeb::hal::k20::usb::DataDirection;
use platformtreeb::hal::k20::usb::RequestRecipient;
use platformtreeb::hal::k20::usb::RequestType;
use platformtreeb::hal::k20::usb::SetupPacket;

fn packet(bm_request_type: u8, b_request: u8) -> SetupPacket {
    SetupPacket {
        bmRequestType: bm_request_type,
        bRequest: b_request,
        wValue: 0x0102,
        wIndex: 0x0304,
        wLength: 0x0506,
    }
}

#[test]
fn setup_packet_decodes_direction() {
    assert!(matches!(
        packet(0x80, 0).data_direction(),
        DataDirection::DeviceToHost
    ));
    assert!(matches!(
        packet(0x21, 0).data_direction(),
        DataDirection::HostToDevice
    ));
}

#[test]
fn setup_packet_decodes_request_type() {
    assert!(matches!(packet(0x00, 0).request_type(), RequestType::Standard));
    assert!(matches!(packet(0x21, 0).request_type(), RequestType::Class));
    assert!(matches!(packet(0x40, 0).request_type(), RequestType::Vendor));
    assert!(matches!(packet(0x60, 0).request_type(), RequestType::Reserved));
}

#[test]
fn setup_packet_decodes_recipient() {
    assert!(matches!(packet(0x00, 0).recipient(), RequestRecipient::Device));
    assert!(matches!(
        packet(0x21, 0).recipient(),
        RequestRecipient::Interface
    ));
    assert!(matches!(
        packet(0x02, 0).recipient(),
        RequestRecipient::Endpoint
    ));
    assert!(matches!(packet(0x03, 0).recipient(), RequestRecipient::Other));
    assert!(matches!(
        packet(0x1F, 0).recipient(),
        RequestRecipient::Reserved
    ));
}

#[test]
fn setup_packet_request_handling() {
    let mut p = packet(0x21, 0x20);
    assert_eq!(p.request(), 0x20);
    assert_eq!(p.request_and_type(), 0x2021);
    assert_eq!(p.wValue(), 0x0102);
    assert_eq!(p.wIndex(), 0x0304);
    assert_eq!(p.wLength(), 0x0506);
    p.clear_request();
    assert_eq!(p.request(), 0);
    assert_eq!(p.wValue(), 0x0102);
}

#[test]
fn control_word_token_bits() {
    let reg = BufferDescriptor_control { value: 0b10_0100 };
    assert_eq!(reg.pid_tok(), 0b1001);
    assert_eq!(BufferDescriptor_control_Get::new(&reg).pid_tok(), 0b1001);
    let setter = reg.set_pid_tok(0b1101);
    assert_eq!(setter.value, 0b11_0100);
    assert_eq!(setter.mask, 0b11_1100);
}

#[test]
fn control_word_update_flags() {
    let reg = BufferDescriptor_control { value: 0 };
    let mut up = BufferDescriptor_control_Update::new(&reg);
    up.zero_all();
    assert_eq!(up.value, 0);
    assert_eq!(up.mask, 0xFF);
    up.set_own(BufferDescriptor_control_own::Controller);
    assert_eq!(up.value, 0x80);
    up.set_dts(true);
    assert_eq!(up.value, 0x88);
    up.set_data01(BufferDescriptor_control_data01::Data1);
    assert_eq!(up.value, 0xC8);
    up.set_bc(8);
    assert_eq!(up.value, 0x0008_00C8);
}

#[test]
fn give_back_hands_the_buffer_to_the_controller() {
    let reg = BufferDescriptor_control { value: 0 };
    let mut up = BufferDescriptor_control_Update::new(&reg);
    up.give_back(64, BufferDescriptor_control_data01::Data1);
    assert_eq!(up.value, 0x0040_00C8);
    assert_eq!(up.mask, 0x03FF_00C8);
    let mut up2 = BufferDescriptor_control_Update::new(&reg);
    up2.give_back(8, BufferDescriptor_control_data01::Data0);
    assert_eq!(up2.value, 0x0008_0088);
}
