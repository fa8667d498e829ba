use ergodox::report::KeyboardReport;
use ergodox::usb::{
    descriptor_packets, setup_action, Descriptor, SetupAction, SetupPacket, UsbKeyboard,
    CONFIG_DESCRIPTOR, DEVICE_DESCRIPTOR, HID_REPORT_DESCRIPTOR,
};

fn packet(request_type: u8, request: u8, value: u16, length: u16) -> SetupPacket {
    SetupPacket { request_type, request, value, index: 0, length }
}

#[test]
fn setup_packet_decodes_little_endian_fields() {
    let p = SetupPacket::from_bytes([0x80, 0x06, 0x00, 0x01, 0x09, 0x04, 0x12, 0x00]);
    assert_eq!(p.request_type, 0x80);
    assert_eq!(p.request, 0x06);
    assert_eq!(p.value, 0x0100);
    assert_eq!(p.index, 0x0409);
    assert_eq!(p.length, 18);
}

#[test]
fn get_descriptor_requests_pick_the_descriptor() {
    assert_eq!(
        setup_action(&packet(0x80, 0x06, 0x0100, 64), false),
        SetupAction::SendDescriptor { descriptor: Descriptor::Device, max_length: 64 }
    );
    assert_eq!(
        setup_action(&packet(0x80, 0x06, 0x0200, 9), false),
        SetupAction::SendDescriptor { descriptor: Descriptor::Configuration, max_length: 9 }
    );
    assert_eq!(
        setup_action(&packet(0x80, 0x06, 0x0302, 255), false),
        SetupAction::SendDescriptor { descriptor: Descriptor::Product, max_length: 255 }
    );
    assert_eq!(setup_action(&packet(0x80, 0x06, 0x0303, 255), false), SetupAction::Stall);
    assert_eq!(setup_action(&packet(0x80, 0x06, 0x0600, 10), false), SetupAction::Stall);
    assert_eq!(
        setup_action(&packet(0x81, 0x06, 0x2200, 64), true),
        SetupAction::SendDescriptor { descriptor: Descriptor::HidReport, max_length: 64 }
    );
    assert_eq!(setup_action(&packet(0x81, 0x06, 0x2100, 9), true), SetupAction::Stall);
}

#[test]
fn standard_and_class_requests() {
    assert_eq!(setup_action(&packet(0x00, 0x05, 0x00A5, 0), false), SetupAction::SetAddress(0x25));
    assert_eq!(setup_action(&packet(0x00, 0x09, 1, 0), false), SetupAction::SetConfiguration);
    assert_eq!(setup_action(&packet(0x80, 0x08, 0, 1), false), SetupAction::SendConfiguration(0));
    assert_eq!(setup_action(&packet(0x80, 0x08, 0, 1), true), SetupAction::SendConfiguration(1));
    assert_eq!(setup_action(&packet(0x21, 0x0A, 0, 0), true), SetupAction::Acknowledge);
    assert_eq!(setup_action(&packet(0x21, 0x0B, 0, 0), true), SetupAction::Acknowledge);
    assert_eq!(setup_action(&packet(0x21, 0x09, 0x0200, 1), true), SetupAction::Stall);
}

#[test]
fn vendor_request_enters_bootloader() {
    assert_eq!(setup_action(&packet(0x40, 0xFF, 0, 0), true), SetupAction::EnterBootloader);
    assert_eq!(setup_action(&packet(0x40, 0xFE, 0, 0), true), SetupAction::Stall);
}

#[test]
fn descriptors_have_their_sizes() {
    assert_eq!(Descriptor::Device.bytes(), DEVICE_DESCRIPTOR.to_vec());
    assert_eq!(Descriptor::Configuration.bytes().len(), 34);
    assert_eq!(CONFIG_DESCRIPTOR[2], 34);
    assert_eq!(CONFIG_DESCRIPTOR[25], HID_REPORT_DESCRIPTOR.len() as u8);
    assert_eq!(Descriptor::HidReport.bytes().len(), 64);
    assert_eq!(Descriptor::Language.bytes(), vec![4, 3, 0x09, 0x04]);
    let name: Vec<u8> = Descriptor::Manufacturer.bytes()[2..].iter().step_by(2).copied().collect();
    assert_eq!(name, b"ErgoDox".to_vec());
    let product: Vec<u8> = Descriptor::Product.bytes()[2..].iter().step_by(2).copied().collect();
    assert_eq!(product, b"Keyboard".to_vec());
}

#[test]
fn descriptor_transfer_is_cut_to_request_and_packets() {
    assert_eq!(descriptor_packets(34, 255), vec![(0, 34)]);
    assert_eq!(descriptor_packets(34, 9), vec![(0, 9)]);
    assert_eq!(descriptor_packets(130, 0xFFFF), vec![(0, 64), (64, 128), (128, 130)]);
    assert_eq!(descriptor_packets(128, 0xFFFF), vec![(0, 64), (64, 128)]);
    assert_eq!(descriptor_packets(18, 0), vec![]);
}

#[test]
fn reports_go_out_only_when_configured_and_changed() {
    let mut usb = UsbKeyboard::new();
    assert!(!usb.is_configured());
    let mut report = KeyboardReport::empty();
    report.keys[0] = 0x04;
    assert!(!usb.report_due(&report));
    usb.set_configured();
    assert!(usb.is_configured());
    assert!(!usb.report_due(&KeyboardReport::empty()));
    assert!(usb.report_due(&report));
    usb.report_sent(&report);
    assert!(!usb.report_due(&report));
    usb.bus_reset();
    assert!(!usb.is_configured());
    assert!(!usb.report_due(&KeyboardReport::empty()));
}
