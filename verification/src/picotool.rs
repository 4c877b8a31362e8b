//! The vendor interface through which `picotool -f` asks a running board to reboot.

use vstd::prelude::*;

verus! {

/// The request that asks for a reboot into BOOTSEL.
pub const RESET_REQUEST_BOOTSEL: u8 = 1;

/// The request that asks for an ordinary reboot.
pub const RESET_REQUEST_FLASH: u8 = 2;

/// Whom a control request is addressed to.
#[derive(Clone, Copy, Debug, PartialEq, Eq, Structural)]
pub enum Recipient {
    Device,
    Interface,
    Endpoint,
    Other,
    Reserved,
}

/// A control request: what of it decides about a reboot. Its type is not here, because
/// `picotool` sends requests of the class type to this vendor interface, and requests of
/// any type are served.
#[derive(Clone, Copy, Debug, PartialEq, Eq, Structural)]
pub struct Request {
    pub recipient: Recipient,
    pub request: u8,
    pub index: u16,
}

/// A way to restart the chip.
#[derive(Clone, Copy, Debug, PartialEq, Eq, Structural)]
pub enum Reboot {
    /// The boot ROM's reset into USB boot, with these interfaces switched off.
    UsbBoot { gpio_mask: u32, disable_mask: u32 },
    /// A system reset, which starts the firmware again.
    System,
}

/// How a control request is answered.
#[derive(Clone, Copy, Debug, PartialEq, Eq, Structural)]
pub enum OutResponse {
    Accepted,
    Rejected,
}

/// What a control request comes to: a reboot before anything else, where there is one,
/// and the answer, which is left to others where there is none.
#[derive(Clone, Copy, Debug, PartialEq, Eq, Structural)]
pub struct ControlOut {
    pub reboot: Option<Reboot>,
    pub response: Option<OutResponse>,
}

/// Serves the requests to the reset interface.
#[derive(Clone, Copy, Debug, PartialEq, Eq, Structural)]
pub struct PicotoolResetHandler {
    /// The number of the reset interface.
    pub if_num: u8,
}

/// The reboot that a request code asks for. Into BOOTSEL, the mass storage interface
/// stays off: only PICOBOOT is needed there, and a drive that the host mounts would
/// delay it.
pub open spec fn requested_reboot(code: u8) -> Option<Reboot> {
    if code == RESET_REQUEST_BOOTSEL {
        Some(Reboot::UsbBoot { gpio_mask: 0, disable_mask: 1 })
    } else if code == RESET_REQUEST_FLASH {
        Some(Reboot::System)
    } else {
        None
    }
}

impl PicotoolResetHandler {
    /// Whether a request is addressed to the reset interface.
    pub open spec fn addressed_by(self, req: Request) -> bool {
        req.recipient == Recipient::Interface && req.index == self.if_num
    }

    /// What a control request comes to.
    pub open spec fn outcome(self, req: Request) -> ControlOut {
        if self.addressed_by(req) {
            ControlOut {
                reboot: requested_reboot(req.request),
                response: Some(OutResponse::Accepted),
            }
        } else {
            ControlOut { reboot: None, response: None }
        }
    }

    /// Whether a request is addressed to the reset interface.
    pub fn is_for_us(&self, req: &Request) -> (ours: bool)
        ensures
            ours == self.addressed_by(*req),
            ours <==> req.recipient is Interface && req.index == self.if_num,
    {
        req.recipient == Recipient::Interface && req.index == self.if_num as u16
    }

    /// What a control request comes to. Every request to the reset interface is accepted,
    /// and no other is answered.
    pub fn control_out(&self, req: Request) -> (out: ControlOut)
        ensures
            out == if self.addressed_by(req) {
                ControlOut {
                    reboot: requested_reboot(req.request),
                    response: Some(OutResponse::Accepted),
                }
            } else {
                ControlOut { reboot: None, response: None }
            },
            out == self.outcome(req),
            out.response == if req.recipient is Interface && req.index == self.if_num {
                Some(OutResponse::Accepted)
            } else {
                None
            },
            out.reboot == if req.recipient is Interface && req.index == self.if_num && req.request
                == 1 {
                Some(Reboot::UsbBoot { gpio_mask: 0, disable_mask: 1 })
            } else if req.recipient is Interface && req.index == self.if_num && req.request == 2 {
                Some(Reboot::System)
            } else {
                None
            },
    {
        if self.is_for_us(&req) {
            let reboot = if req.request == RESET_REQUEST_BOOTSEL {
                Some(Reboot::UsbBoot { gpio_mask: 0, disable_mask: 1 })
            } else if req.request == RESET_REQUEST_FLASH {
                Some(Reboot::System)
            } else {
                None
            };
            ControlOut { reboot, response: Some(OutResponse::Accepted) }
        } else {
            ControlOut { reboot: None, response: None }
        }
    }
}

/// A request to another recipient than an interface, or to another interface than the
/// reset interface, neither reboots nor is answered, whatever its code is; every request
/// to the reset interface is accepted.
pub proof fn law_only_the_reset_interface_is_served(handler: PicotoolResetHandler, req: Request)
    ensures
        !(req.recipient is Interface) || req.index != handler.if_num ==> handler.outcome(req)
            == (ControlOut { reboot: None, response: None }),
        req.recipient is Interface && req.index == handler.if_num ==> handler.outcome(req).response
            == Some(OutResponse::Accepted),
{
}

/// On the reset interface, 1 reboots into USB boot with the mass storage interface off and
/// nothing else switched, 2 restarts the firmware, and no other code reboots.
pub proof fn law_request_code_decides_about_the_reboot(
    handler: PicotoolResetHandler,
    req: Request,
)
    requires
        req.recipient is Interface,
        req.index == handler.if_num,
    ensures
        req.request == 1 ==> handler.outcome(req).reboot == Some(
            Reboot::UsbBoot { gpio_mask: 0, disable_mask: 1 },
        ),
        req.request == 2 ==> handler.outcome(req).reboot == Some(Reboot::System),
        req.request != 1 && req.request != 2 ==> handler.outcome(req).reboot is None,
{
}

/// Requests that differ in nothing but their code are answered alike.
pub proof fn law_request_code_does_not_decide_about_the_answer(
    handler: PicotoolResetHandler,
    a: Request,
    b: Request,
)
    requires
        a.recipient == b.recipient,
        a.index == b.index,
    ensures
        handler.outcome(a).response == handler.outcome(b).response,
{
}

} // verus!
