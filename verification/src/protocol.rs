//! Dispatch of the control requests a GUD host sends, and the payloads of
//! the answers.
use vstd::prelude::*;
use crate::descriptors::{
    ConnectorDescriptor, DisplayMode, DISPLAY_MODE_LEN, connector_descriptor_bytes,
    display_mode_bytes, lemma_display_mode_fields,
};
use crate::flags::{ConnectorDescriptorFlags, ConnectorStatus};
use crate::formats::{ConnectorType, PixelFormat, Status};
use crate::wire::lemma_le_u32_digits;

verus! {

pub const GUD_REQ_GET_STATUS: u8 = 0x00;
pub const GUD_REQ_GET_DESCRIPTOR: u8 = 0x01;
pub const GUD_REQ_GET_FORMATS: u8 = 0x40;
pub const GUD_REQ_GET_PROPERTIES: u8 = 0x41;
pub const GUD_REQ_GET_CONNECTORS: u8 = 0x50;
pub const GUD_REQ_GET_CONNECTOR_PROPERTIES: u8 = 0x51;
pub const GUD_REQ_GET_CONNECTOR_STATUS: u8 = 0x54;
pub const GUD_REQ_GET_CONNECTOR_MODES: u8 = 0x55;
pub const GUD_REQ_GET_CONNECTOR_EDID: u8 = 0x56;

pub const GUD_REQ_SET_CONNECTOR_FORCE_DETECT: u8 = 0x53;
pub const GUD_REQ_SET_BUFFER: u8 = 0x60;
pub const GUD_REQ_SET_STATE_CHECK: u8 = 0x61;
pub const GUD_REQ_SET_STATE_COMMIT: u8 = 0x62;
pub const GUD_REQ_SET_CONTROLLER_ENABLE: u8 = 0x63;
pub const GUD_REQ_SET_DISPLAY_ENABLE: u8 = 0x64;

/// Length of the (empty) property lists the device answers.
pub const PROPERTIES_LEN: usize = 10;

/// An event of the gadget's control endpoint, reduced to what the dispatch
/// reads: the request code of a setup packet.
#[derive(Debug, Clone, Copy, PartialEq, Eq, Structural)]
pub enum ControlEvent {
    /// The function was enabled.
    Enable,
    /// The function was bound to a controller.
    Bind,
    /// A setup request whose data stage goes to the host.
    SetupDeviceToHost(u8),
    /// A setup request whose data stage comes from the host.
    SetupHostToDevice(u8),
    /// Any other event.
    Other,
}

/// Requests the application answers itself.
#[derive(Debug, Clone, Copy, PartialEq, Eq, Structural)]
pub enum HostRequest {
    /// The display descriptor is asked for.
    GetDescriptor,
    /// The supported pixel formats are asked for.
    GetPixelFormats,
    /// The display modes of the connector are asked for.
    GetDisplayModes,
}

/// What to do with a control event.
#[derive(Debug, PartialEq, Eq)]
pub enum EventAction {
    /// Nothing.
    Ignore,
    /// Send these bytes as the data stage.
    Reply(Vec<u8>),
    /// Hand the request to the application, which answers it.
    Forward(HostRequest),
    /// Receive the data stage and drop it.
    Receive,
    /// Receive the data stage and decode it as a set-buffer request.
    ReceiveSetBuffer,
    /// The request or event is not handled; nothing is done.
    Unhandled,
}

/// The bytes the device answers by itself to device-to-host request
/// `request`, if it does.
pub open spec fn device_reply(request: u8) -> Option<Seq<u8>> {
    if request == GUD_REQ_GET_STATUS {
        Some(seq![Status::Success.code()])
    } else if request == GUD_REQ_GET_PROPERTIES || request == GUD_REQ_GET_CONNECTOR_PROPERTIES {
        Some(Seq::new(PROPERTIES_LEN as nat, |_i: int| 0u8))
    } else if request == GUD_REQ_GET_CONNECTORS {
        Some(
            connector_descriptor_bytes(
                ConnectorDescriptor {
                    connector_type: ConnectorType::Panel,
                    flags: ConnectorDescriptorFlags(0),
                },
            ),
        )
    } else if request == GUD_REQ_GET_CONNECTOR_EDID {
        Some(seq![0u8])
    } else if request == GUD_REQ_GET_CONNECTOR_STATUS {
        Some(seq![ConnectorStatus::CONNECTED])
    } else {
        None
    }
}

/// The application's request behind device-to-host request `request`, if
/// any.
pub open spec fn forwarded_request(request: u8) -> Option<HostRequest> {
    if request == GUD_REQ_GET_DESCRIPTOR {
        Some(HostRequest::GetDescriptor)
    } else if request == GUD_REQ_GET_FORMATS {
        Some(HostRequest::GetPixelFormats)
    } else if request == GUD_REQ_GET_CONNECTOR_MODES {
        Some(HostRequest::GetDisplayModes)
    } else {
        None
    }
}

/// Whether host-to-device request `request` is received and dropped.
pub open spec fn received_and_dropped(request: u8) -> bool {
    request == GUD_REQ_SET_CONNECTOR_FORCE_DETECT || request == GUD_REQ_SET_STATE_CHECK
        || request == GUD_REQ_SET_CONTROLLER_ENABLE || request == GUD_REQ_SET_DISPLAY_ENABLE
        || request == GUD_REQ_SET_STATE_COMMIT
}

/// Whether `a` is the action the protocol prescribes for `ev`.
pub open spec fn action_for(ev: ControlEvent, a: EventAction) -> bool {
    match ev {
        ControlEvent::Enable | ControlEvent::Bind => a is Ignore,
        ControlEvent::SetupDeviceToHost(request) => match device_reply(request) {
            Some(bytes) => a matches EventAction::Reply(v) && v@ == bytes,
            None => match forwarded_request(request) {
                Some(h) => a == EventAction::Forward(h),
                None => a is Unhandled,
            },
        },
        ControlEvent::SetupHostToDevice(request) => if request == GUD_REQ_SET_BUFFER {
            a is ReceiveSetBuffer
        } else if received_and_dropped(request) {
            a is Receive
        } else {
            a is Unhandled
        },
        ControlEvent::Other => a is Unhandled,
    }
}

/// The protocol's table of control requests, by their codes: the device
/// answers the status request (`0x00`) with status OK (`0`), the property
/// requests (`0x41`, `0x51`) with ten zero bytes, the connector request
/// (`0x50`) with one panel connector without flags (five zero bytes), the
/// EDID request (`0x56`) with a zero byte and the connector status request
/// (`0x54`) with "connected" (`1`); it hands the descriptor (`0x01`), pixel
/// format (`0x40`) and mode (`0x55`) requests to the application; it
/// decodes a set-buffer request (`0x60`) and receives and drops the
/// force-detect (`0x53`), state check (`0x61`), state commit (`0x62`),
/// controller enable (`0x63`) and display enable (`0x64`) requests.
pub proof fn lemma_request_table()
    ensures
        device_reply(0x00) == Some(seq![0u8]),
        device_reply(0x41) == Some(Seq::new(10, |_i: int| 0u8)),
        device_reply(0x51) == Some(Seq::new(10, |_i: int| 0u8)),
        device_reply(0x50) == Some(seq![0u8, 0u8, 0u8, 0u8, 0u8]),
        device_reply(0x56) == Some(seq![0u8]),
        device_reply(0x54) == Some(seq![1u8]),
        device_reply(0x01) is None && forwarded_request(0x01) == Some(HostRequest::GetDescriptor),
        device_reply(0x40) is None && forwarded_request(0x40) == Some(HostRequest::GetPixelFormats),
        device_reply(0x55) is None && forwarded_request(0x55) == Some(HostRequest::GetDisplayModes),
        forall|request: u8|
            device_reply(request) is None && forwarded_request(request) is None <==> !(request
                == 0x00 || request == 0x01 || request == 0x40 || request == 0x41 || request == 0x50
                || request == 0x51 || request == 0x54 || request == 0x55 || request == 0x56),
        forall|request: u8|
            received_and_dropped(request) <==> (request == 0x53 || request == 0x61 || request
                == 0x62 || request == 0x63 || request == 0x64),
        GUD_REQ_SET_BUFFER == 0x60,
{
    let c = ConnectorDescriptor {
        connector_type: ConnectorType::Panel,
        flags: ConnectorDescriptorFlags(0),
    };
    lemma_le_u32_digits(0);
    assert(connector_descriptor_bytes(c) =~= seq![0u8, 0u8, 0u8, 0u8, 0u8]);
}

fn zeros(n: usize) -> (r: Vec<u8>)
    ensures
        r@ == Seq::new(n as nat, |_i: int| 0u8),
{
    let mut v: Vec<u8> = Vec::with_capacity(n);
    let mut i: usize = 0;
    while i < n
        invariant
            i <= n,
            v@ == Seq::new(i as nat, |_i: int| 0u8),
        decreases n - i,
    {
        v.push(0);
        i = i + 1;
        assert(v@ =~= Seq::new(i as nat, |_i: int| 0u8));
    }
    v
}

/// Decides what to do with a control event.
pub fn event(ev: ControlEvent) -> (a: EventAction)
    ensures
        action_for(ev, a),
{
    match ev {
        ControlEvent::Enable => EventAction::Ignore,
        ControlEvent::Bind => EventAction::Ignore,
        ControlEvent::SetupDeviceToHost(request) => {
            if request == GUD_REQ_GET_STATUS {
                let reply = vec![Status::Success.code()];
                assert(reply@ =~= seq![Status::Success.code()]);
                EventAction::Reply(reply)
            } else if request == GUD_REQ_GET_DESCRIPTOR {
                EventAction::Forward(HostRequest::GetDescriptor)
            } else if request == GUD_REQ_GET_FORMATS {
                EventAction::Forward(HostRequest::GetPixelFormats)
            } else if request == GUD_REQ_GET_PROPERTIES {
                EventAction::Reply(zeros(PROPERTIES_LEN))
            } else if request == GUD_REQ_GET_CONNECTORS {
                let connector = ConnectorDescriptor {
                    connector_type: ConnectorType::Panel,
                    flags: ConnectorDescriptorFlags::empty(),
                };
                EventAction::Reply(connector.encode())
            } else if request == GUD_REQ_GET_CONNECTOR_PROPERTIES {
                EventAction::Reply(zeros(PROPERTIES_LEN))
            } else if request == GUD_REQ_GET_CONNECTOR_MODES {
                EventAction::Forward(HostRequest::GetDisplayModes)
            } else if request == GUD_REQ_GET_CONNECTOR_EDID {
                let reply = vec![0u8];
                assert(reply@ =~= seq![0u8]);
                EventAction::Reply(reply)
            } else if request == GUD_REQ_GET_CONNECTOR_STATUS {
                let reply = vec![ConnectorStatus::CONNECTED];
                assert(reply@ =~= seq![ConnectorStatus::CONNECTED]);
                EventAction::Reply(reply)
            } else {
                EventAction::Unhandled
            }
        },
        ControlEvent::SetupHostToDevice(request) => {
            if request == GUD_REQ_SET_BUFFER {
                EventAction::ReceiveSetBuffer
            } else if request == GUD_REQ_SET_CONNECTOR_FORCE_DETECT || request
                == GUD_REQ_SET_STATE_CHECK || request == GUD_REQ_SET_CONTROLLER_ENABLE || request
                == GUD_REQ_SET_DISPLAY_ENABLE || request == GUD_REQ_SET_STATE_COMMIT {
                EventAction::Receive
            } else {
                EventAction::Unhandled
            }
        },
        ControlEvent::Other => EventAction::Unhandled,
    }
}

/// The encodings of `modes`, one after the other.
pub open spec fn modes_bytes(modes: Seq<DisplayMode>) -> Seq<u8>
    decreases modes.len(),
{
    if modes.len() == 0 {
        Seq::empty()
    } else {
        modes_bytes(modes.drop_last()) + display_mode_bytes(modes.last())
    }
}

/// The modes payload holds 24 bytes per mode, and the `i`-th 24 bytes are the
/// encoding of the `i`-th mode: the host finds every mode at its place.
pub proof fn lemma_modes_bytes_layout(modes: Seq<DisplayMode>, i: int)
    ensures
        modes_bytes(modes).len() == DISPLAY_MODE_LEN * modes.len(),
        0 <= i < modes.len() ==> modes_bytes(modes).subrange(
            DISPLAY_MODE_LEN * i,
            DISPLAY_MODE_LEN * i + DISPLAY_MODE_LEN,
        ) == display_mode_bytes(modes[i]),
    decreases modes.len(),
{
    if modes.len() > 0 {
        let init = modes.drop_last();
        lemma_modes_bytes_layout(init, i);
        lemma_display_mode_fields(modes.last());
        let whole = modes_bytes(modes);
        let front = modes_bytes(init);
        assert(whole == front + display_mode_bytes(modes.last()));
        assert(front.len() == DISPLAY_MODE_LEN * init.len());
        if 0 <= i < init.len() {
            assert(DISPLAY_MODE_LEN * i + DISPLAY_MODE_LEN <= front.len()) by (nonlinear_arith)
                requires
                    front.len() == 24 * init.len(),
                    0 <= i < init.len(),
            ;
            assert(whole.subrange(DISPLAY_MODE_LEN * i, DISPLAY_MODE_LEN * i + DISPLAY_MODE_LEN)
                =~= front.subrange(DISPLAY_MODE_LEN * i, DISPLAY_MODE_LEN * i + DISPLAY_MODE_LEN));
            assert(modes[i] == init[i]);
        } else if i == init.len() {
            assert(whole.subrange(DISPLAY_MODE_LEN * i, DISPLAY_MODE_LEN * i + DISPLAY_MODE_LEN)
                =~= display_mode_bytes(modes.last()));
        }
    }
}

/// The answer to a display-modes request whose data stage holds at most
/// `max_len` bytes: the modes one after the other, 24 bytes each, or `None`
/// when they do not fit.
pub fn modes_payload(modes: &[DisplayMode], max_len: usize) -> (r: Option<Vec<u8>>)
    ensures
        (DISPLAY_MODE_LEN * modes@.len() > max_len) <==> r is None,
        r matches Some(v) ==> v@ == modes_bytes(modes@),
{
    if modes.len() > max_len / DISPLAY_MODE_LEN {
        return None;
    }
    let mut out: Vec<u8> = Vec::with_capacity(DISPLAY_MODE_LEN * modes.len());
    let mut i: usize = 0;
    while i < modes.len()
        invariant
            i <= modes@.len(),
            out@ == modes_bytes(modes@.take(i as int)),
        decreases modes@.len() - i,
    {
        modes[i].encode_into(&mut out);
        proof {
            assert(modes@.take((i + 1) as int).drop_last() =~= modes@.take(i as int));
        }
        i = i + 1;
    }
    assert(modes@.take(modes@.len() as int) =~= modes@);
    Some(out)
}

/// The answer to a pixel-formats request: the code of each format, in order.
pub fn pixel_formats_payload(formats: &[PixelFormat]) -> (r: Vec<u8>)
    ensures
        r@.len() == formats@.len(),
        forall|i: int| 0 <= i < formats@.len() ==> #[trigger] r@[i] == formats@[i].code(),
{
    let mut out: Vec<u8> = Vec::with_capacity(formats.len());
    let mut i: usize = 0;
    while i < formats.len()
        invariant
            i <= formats@.len(),
            out@.len() == i,
            forall|j: int| 0 <= j < i ==> #[trigger] out@[j] == formats@[j].code(),
        decreases formats@.len() - i,
    {
        out.push(formats[i].code());
        i = i + 1;
    }
    out
}

} // verus!
