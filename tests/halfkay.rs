use ergodox::halfkay::{
    after_detect, after_reboot_request, BootloaderSearch, SearchAction, BOOTLOADER_POLL_ATTEMPTS,
    build_page_buffer, is_halfkay, is_keyboard, page_count, plan_flash, reboot_payload, FLASH_SIZE,
    HALFKAY_PID, HALFKAY_REBOOT_ADDRESS, HALFKAY_REPORT_VALUE, HALFKAY_REQUEST_TYPE,
    HALFKAY_SET_REPORT, HALFKAY_VID, KEYBOARD_PID, KEYBOARD_VID, PAGE_SIZE, REBOOT_REQUEST,
    REBOOT_REQUEST_TYPE,
};
use ergodox::hex::ImageError;
use ergodox::usb::DEVICE_DESCRIPTOR;

#[test]
fn running_keyboard_and_bootloader_share_vid_but_differ_in_pid() {
    assert_eq!(KEYBOARD_VID, HALFKAY_VID);
    assert_ne!(KEYBOARD_PID, HALFKAY_PID);
}

#[test]
fn firmware_device_descriptor_matches_cli_expectations() {
    let expected_vid_bytes = KEYBOARD_VID.to_le_bytes();
    assert_eq!(expected_vid_bytes, [0xC0, 0x16]);

    let expected_pid_bytes = KEYBOARD_PID.to_le_bytes();
    assert_eq!(expected_pid_bytes, [0x7E, 0x04]);
}

#[test]
fn reboot_request_type_is_vendor_device_out() {
    let direction = (REBOOT_REQUEST_TYPE >> 7) & 1;
    let req_type = (REBOOT_REQUEST_TYPE >> 5) & 0b11;
    let recipient = REBOOT_REQUEST_TYPE & 0b11111;

    assert_eq!(direction, 0, "direction should be host-to-device");
    assert_eq!(req_type, 0b10, "type should be 'vendor'");
    assert_eq!(recipient, 0, "recipient should be 'device'");
}

#[test]
fn reboot_request_code_is_in_vendor_space() {
    assert_eq!(REBOOT_REQUEST, 0xFF);
}

#[test]
fn halfkay_uses_hid_set_report() {
    assert_eq!(HALFKAY_REQUEST_TYPE, 0x21);
    assert_eq!(HALFKAY_SET_REPORT, 0x09);
    assert_eq!(HALFKAY_REPORT_VALUE, 0x0200);
}

#[test]
fn page_buffer_is_two_byte_address_then_page_data() {
    let buf = build_page_buffer(0x1A00, &[0xDE, 0xAD]);

    assert_eq!(buf.len(), 2 + PAGE_SIZE, "always 2 + PAGE_SIZE bytes");
    assert_eq!(buf[0], 0x00, "address low byte");
    assert_eq!(buf[1], 0x1A, "address high byte");
    assert_eq!(buf[2], 0xDE, "first data byte");
    assert_eq!(buf[3], 0xAD, "second data byte");
    assert!(buf[4..].iter().all(|&b| b == 0xFF));
}

#[test]
fn page_size_matches_atmega32u4_flash_page() {
    assert_eq!(PAGE_SIZE, 128);
}

#[test]
fn flash_size_is_32kb() {
    assert_eq!(FLASH_SIZE, 32 * 1024);
}

#[test]
fn reboot_sentinel_is_0xffff() {
    assert_eq!(HALFKAY_REBOOT_ADDRESS, 0xFFFF);
    assert!(
        HALFKAY_REBOOT_ADDRESS as usize >= FLASH_SIZE,
        "reboot sentinel must be outside writable flash"
    );
}

#[test]
fn all_0xff_pages_are_erased_flash() {
    let buf = build_page_buffer(0x0000, &[]);
    assert!(buf[2..].iter().all(|&b| b == 0xFF));
}

#[test]
fn vendor_request_pair_must_match_firmware_setup_handler() {
    assert_eq!(
        (REBOOT_REQUEST_TYPE, REBOOT_REQUEST),
        (0x40, 0xFF),
        "must match the vendor request arm of the firmware's SETUP dispatch"
    );
}

#[test]
fn device_descriptor_vid_pid_must_match_firmware() {
    assert_eq!(
        (KEYBOARD_VID, KEYBOARD_PID),
        (0x16C0, 0x047E),
        "must match the idVendor/idProduct of the firmware's device descriptor"
    );
}

#[test]
fn device_descriptor_carries_keyboard_ids() {
    assert_eq!(&DEVICE_DESCRIPTOR[8..12], &[0xC0, 0x16, 0x7E, 0x04]);
}

#[test]
fn page_buffer_of_full_page_has_no_padding() {
    let data: Vec<u8> = (0..128).map(|i| i as u8).collect();
    let buf = build_page_buffer(0x7F80, &data);
    assert_eq!(buf.len(), 130);
    assert_eq!(buf[0], 0x80);
    assert_eq!(buf[1], 0x7F);
    assert_eq!(&buf[2..], &data[..]);
}

#[test]
fn page_buffer_length_is_fixed_for_every_data_length() {
    for n in 0..=128usize {
        let data = vec![0x11u8; n];
        let buf = build_page_buffer(0x0100, &data);
        assert_eq!(buf.len(), 130);
        assert!(buf[2..2 + n].iter().all(|&b| b == 0x11));
        assert!(buf[2 + n..].iter().all(|&b| b == 0xFF));
    }
}

#[test]
fn reboot_payload_is_sentinel_then_zeros() {
    let buf = reboot_payload();
    assert_eq!(buf.len(), 130);
    assert_eq!(buf[0], 0xFF);
    assert_eq!(buf[1], 0xFF);
    assert!(buf[2..].iter().all(|&b| b == 0));
}

#[test]
fn plan_skips_erased_pages() {
    let mut data = vec![0xFFu8; 300];
    data[0] = 0x01;
    data[299] = 0x02;
    let plan = plan_flash(0x0100, &data).unwrap();
    assert_eq!(page_count(data.len()), 3);
    assert_eq!(plan.len(), 2);
    assert_eq!(plan[0].index, 0);
    assert_eq!(plan[0].address, 0x0100);
    assert_eq!(plan[0].payload[0], 0x00);
    assert_eq!(plan[0].payload[1], 0x01);
    assert_eq!(plan[0].payload[2], 0x01);
    assert_eq!(plan[1].index, 2);
    assert_eq!(plan[1].address, 0x0100 + 256);
    assert_eq!(plan[1].payload[1], 0x02);
    assert_eq!(plan[1].payload[2 + 43], 0x02);
    assert!(plan[1].payload[2 + 44..].iter().all(|&b| b == 0xFF));
}

#[test]
fn plan_rejects_image_past_end_of_flash() {
    let data = vec![0u8; 16];
    assert_eq!(plan_flash(32768 - 15, &data).err(), Some(ImageError::TooLarge));
    assert!(plan_flash(32768 - 16, &data).is_ok());
}

#[test]
fn plan_of_empty_image_writes_nothing() {
    assert_eq!(plan_flash(0, &[]).unwrap().len(), 0);
    assert_eq!(page_count(0), 0);
    assert_eq!(page_count(128), 1);
    assert_eq!(page_count(129), 2);
}

#[test]
fn device_matching_uses_both_ids() {
    assert!(is_halfkay(0x16C0, 0x0478));
    assert!(!is_halfkay(0x16C0, 0x047E));
    assert!(is_keyboard(0x16C0, 0x047E));
    assert!(!is_keyboard(0x16C1, 0x047E));
}

#[test]
fn present_bootloader_is_flashed_at_once() {
    let (state, action) = after_detect(BootloaderSearch::Initial, true);
    assert_eq!(action, SearchAction::Flash);
    assert_eq!(state, BootloaderSearch::Initial);
}

#[test]
fn missing_bootloader_asks_keyboard_then_polls_fifty_times() {
    let (state, action) = after_detect(BootloaderSearch::Initial, false);
    assert_eq!(action, SearchAction::RequestReboot);
    let (mut state, mut action) = after_reboot_request(true);
    assert_eq!(action, SearchAction::PollAgain);
    let mut polls = 0;
    while action == SearchAction::PollAgain {
        polls += 1;
        let step = after_detect(state, false);
        state = step.0;
        action = step.1;
    }
    assert_eq!(polls, BOOTLOADER_POLL_ATTEMPTS);
    assert_eq!(polls, 50);
    assert_eq!(action, SearchAction::NotFoundAfterReboot);
    let _ = state;
    let (_, found) = after_detect(BootloaderSearch::Rebooting { polls: 10 }, true);
    assert_eq!(found, SearchAction::Flash);
    assert_eq!(after_reboot_request(false).1, SearchAction::NotFound);
}
