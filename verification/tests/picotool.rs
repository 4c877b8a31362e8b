use pico_usb_console::picotool::{
    ControlOut, OutResponse, PicotoolResetHandler, Reboot, Recipient, Request,
};

const HANDLER: PicotoolResetHandler = PicotoolResetHandler { if_num: 0 };

fn request(recipient: Recipient, request: u8, index: u16) -> Request {
    Request { recipient, request, index }
}

#[test]
fn only_requests_to_the_reset_interface_are_ours() {
    assert!(HANDLER.is_for_us(&request(Recipient::Interface, 1, 0)));
    assert!(!HANDLER.is_for_us(&request(Recipient::Interface, 1, 1)));
    assert!(!HANDLER.is_for_us(&request(Recipient::Interface, 1, 256)));
    for recipient in
        [Recipient::Device, Recipient::Endpoint, Recipient::Other, Recipient::Reserved]
    {
        assert!(!HANDLER.is_for_us(&request(recipient, 1, 0)));
    }
    let last = PicotoolResetHandler { if_num: 255 };
    assert!(last.is_for_us(&request(Recipient::Interface, 7, 255)));
}

#[test]
fn bootsel_request_reboots_without_mass_storage() {
    assert_eq!(
        HANDLER.control_out(request(Recipient::Interface, 1, 0)),
        ControlOut {
            reboot: Some(Reboot::UsbBoot { gpio_mask: 0, disable_mask: 1 }),
            response: Some(OutResponse::Accepted),
        }
    );
}

#[test]
fn flash_request_reboots_normally() {
    assert_eq!(
        HANDLER.control_out(request(Recipient::Interface, 2, 0)),
        ControlOut { reboot: Some(Reboot::System), response: Some(OutResponse::Accepted) }
    );
}

#[test]
fn other_requests_to_the_interface_are_accepted_without_a_reboot() {
    for code in [0, 3, 34, 255] {
        assert_eq!(
            HANDLER.control_out(request(Recipient::Interface, code, 0)),
            ControlOut { reboot: None, response: Some(OutResponse::Accepted) }
        );
    }
}

#[test]
fn requests_to_others_are_not_answered() {
    for req in [request(Recipient::Device, 1, 0), request(Recipient::Interface, 2, 3)] {
        assert_eq!(HANDLER.control_out(req), ControlOut { reboot: None, response: None });
    }
}
