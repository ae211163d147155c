//! Control requests that leave the recorded state of a device alone.
//!
//! Each method gives the request to send. A device that requires recovery is
//! sent nothing.

use std::time::Duration;

use nusb::transfer::TransferError;
use vstd::prelude::*;

use crate::constants::{
    SIO_DISABLE_FLOW_CTRL, SIO_DTR_DSR_HS, SIO_GET_LATENCY_TIMER_REQUEST,
    SIO_POLL_MODEM_STATUS_REQUEST, SIO_READ_PINS_REQUEST, SIO_RESET_REQUEST, SIO_RTS_CTS_HS,
    SIO_SET_DATA_REQUEST, SIO_SET_DTR_HIGH, SIO_SET_DTR_LOW, SIO_SET_ERROR_CHAR_REQUEST,
    SIO_SET_EVENT_CHAR_REQUEST, SIO_SET_FLOW_CTRL_REQUEST, SIO_SET_LATENCY_TIMER_REQUEST,
    SIO_SET_MODEM_CTRL_REQUEST, SIO_SET_RTS_HIGH, SIO_SET_RTS_LOW, SIO_TCOFLUSH, SIO_XON_XOFF_HS,
};
use crate::device::{DeviceView, FtdiDevice};
use crate::error::Error;
use crate::types::{BreakType, DataBits, FlowControl, ModemStatus, Parity, StopBits};

verus! {

/// A vendor request to the device, without data.
#[derive(Clone, Copy, Debug, PartialEq, Eq)]
pub struct ControlOut {
    pub request: u8,
    pub value: u16,
    pub index: u16,
    /// How long the transfer may take.
    pub timeout: Duration,
}

/// A vendor request for data from the device.
#[derive(Clone, Copy, Debug, PartialEq, Eq)]
pub struct ControlIn {
    pub request: u8,
    pub value: u16,
    pub index: u16,
    /// The most bytes that the device may answer with.
    pub length: u16,
    /// How long the transfer may take.
    pub timeout: Duration,
}

/// A new latency timer value on its way to the device.
#[derive(Clone, Copy, Debug, PartialEq, Eq)]
pub struct LatencyUpdate {
    pub request: ControlOut,
    /// How long to wait, once the request was sent, for the device to apply it.
    pub settle_ms: u64,
}

/// `request`, unless the device requires recovery.
pub open spec fn gated<T>(device: DeviceView, request: T) -> Result<T, Error> {
    if device.recovery_required {
        Err(Error::RecoveryRequired)
    } else {
        Ok(request)
    }
}

/// A request to the device, which may take as long as a write.
pub open spec fn out_request(device: DeviceView, request: u8, value: u16, index: u16) -> ControlOut {
    ControlOut { request, value, index, timeout: device.write_timeout }
}

/// A request for data from the device, which may take as long as a read.
pub open spec fn in_request(
    device: DeviceView,
    request: u8,
    value: u16,
    index: u16,
    length: u16,
) -> ControlIn {
    ControlIn { request, value, index, length, timeout: device.read_timeout }
}

/// `request` on the channel of the device, unless the device requires recovery.
pub open spec fn channel_out(device: DeviceView, request: u8, value: u16) -> Result<
    ControlOut,
    Error,
> {
    gated(device, out_request(device, request, value, device.usb_index))
}

/// `request` for data on the channel of the device, unless the device requires
/// recovery.
pub open spec fn channel_in(device: DeviceView, request: u8, length: u16) -> Result<
    ControlIn,
    Error,
> {
    gated(device, in_request(device, request, 0, device.usb_index, length))
}

/// How an operation ends whose transfer ended with `outcome`.
pub open spec fn transfer_result<T>(outcome: Result<T, TransferError>) -> Result<T, Error> {
    match outcome {
        Ok(value) => Ok(value),
        Err(error) => Err(Error::Transfer(error)),
    }
}

/// How an operation ends whose transfer ended with `outcome`.
pub fn transferred<T>(outcome: Result<T, TransferError>) -> (result: Result<T, Error>)
    ensures
        result == transfer_result(outcome),
{
    match outcome {
        Ok(value) => Ok(value),
        Err(error) => Err(Error::Transfer(error)),
    }
}

impl FtdiDevice {
    /// A vendor OUT request.
    pub fn control_out(&self, request: u8, value: u16, index: u16) -> (control: Result<
        ControlOut,
        Error,
    >)
        ensures
            control == gated(self@, out_request(self@, request, value, index)),
    {
        match self.ensure_ready() {
            Ok(()) => Ok(ControlOut { request, value, index, timeout: self.write_timeout() }),
            Err(error) => Err(error),
        }
    }

    /// A vendor IN request.
    pub fn control_in(&self, request: u8, value: u16, index: u16, length: u16) -> (control: Result<
        ControlIn,
        Error,
    >)
        ensures
            control == gated(self@, in_request(self@, request, value, index, length)),
    {
        match self.ensure_ready() {
            Ok(()) => Ok(ControlIn { request, value, index, length, timeout: self.read_timeout() }),
            Err(error) => Err(error),
        }
    }

    /// Flush the transmit (TX) buffer: data flowing from the host toward the
    /// serial device.
    pub fn flush_tx(&self) -> (control: Result<ControlOut, Error>)
        ensures
            control == channel_out(self@, SIO_RESET_REQUEST, SIO_TCOFLUSH),
    {
        self.control_out(SIO_RESET_REQUEST, SIO_TCOFLUSH, self.usb_index())
    }
}

// ---- Serial configuration ----

/// The line property word: data bits in the low byte, then three bits of
/// parity, three of stop bits, and the break state above them.
pub open spec fn line_property(
    bits: DataBits,
    stop_bits: StopBits,
    parity: Parity,
    break_type: BreakType,
) -> u16 {
    (bits.wire() + 0x100 * parity.wire() + 0x800 * stop_bits.wire() + 0x4000
        * break_type.wire()) as u16
}

impl FtdiDevice {
    /// Set the serial line properties (data bits, stop bits, parity).
    pub fn set_line_property(&self, bits: DataBits, stop_bits: StopBits, parity: Parity) -> (control:
        Result<ControlOut, Error>)
        ensures
            control == channel_out(
                self@,
                SIO_SET_DATA_REQUEST,
                line_property(bits, stop_bits, parity, BreakType::Off),
            ),
    {
        self.set_line_property_with_break(bits, stop_bits, parity, BreakType::Off)
    }

    /// Set the serial line properties including break control.
    pub fn set_line_property_with_break(
        &self,
        bits: DataBits,
        stop_bits: StopBits,
        parity: Parity,
        break_type: BreakType,
    ) -> (control: Result<ControlOut, Error>)
        ensures
            control == channel_out(
                self@,
                SIO_SET_DATA_REQUEST,
                line_property(bits, stop_bits, parity, break_type),
            ),
    {
        let b: u16 = bits.wire_value();
        let p: u16 = parity.wire_value();
        let s: u16 = stop_bits.wire_value();
        let k: u16 = break_type.wire_value();
        let value: u16 = b | (p << 8) | (s << 11) | (k << 14);
        assert(b | (p << 8) | (s << 11) | (k << 14) == b + 0x100 * p + 0x800 * s + 0x4000 * k)
            by (bit_vector)
            requires
                b <= 8,
                p <= 4,
                s <= 2,
                k <= 1,
        ;
        self.control_out(SIO_SET_DATA_REQUEST, value, self.usb_index())
    }
}

// ---- Flow control and modem lines ----

/// The value field of a flow control request.
pub open spec fn flow_value(flow: FlowControl) -> u16 {
    match flow {
        FlowControl::XonXoff { xon, xoff } => (xon + 0x100 * xoff) as u16,
        _ => 0,
    }
}

/// The handshake bits in the index field of a flow control request.
pub open spec fn flow_handshake(flow: FlowControl) -> u16 {
    match flow {
        FlowControl::Disabled => SIO_DISABLE_FLOW_CTRL,
        FlowControl::RtsCts => SIO_RTS_CTS_HS,
        FlowControl::DtrDsr => SIO_DTR_DSR_HS,
        FlowControl::XonXoff { .. } => SIO_XON_XOFF_HS,
    }
}

/// The request that sets a flow control mode.
pub open spec fn flow_request(device: DeviceView, flow: FlowControl) -> Result<ControlOut, Error> {
    gated(
        device,
        out_request(
            device,
            SIO_SET_FLOW_CTRL_REQUEST,
            flow_value(flow),
            flow_handshake(flow) | device.usb_index,
        ),
    )
}

/// The value that sets the DTR line.
pub open spec fn dtr_value(state: bool) -> u16 {
    if state {
        SIO_SET_DTR_HIGH
    } else {
        SIO_SET_DTR_LOW
    }
}

/// The value that sets the RTS line.
pub open spec fn rts_value(state: bool) -> u16 {
    if state {
        SIO_SET_RTS_HIGH
    } else {
        SIO_SET_RTS_LOW
    }
}

/// The value that sets a special character, and whether it is in use.
pub open spec fn special_char(ch: u8, enable: bool) -> u16 {
    (ch + if enable {
        0x100int
    } else {
        0
    }) as u16
}

fn special_char_value(ch: u8, enable: bool) -> (value: u16)
    ensures
        value == special_char(ch, enable),
{
    let low: u16 = ch as u16;
    let flag: u16 = if enable {
        1u16 << 8
    } else {
        0
    };
    assert(1u16 << 8 == 0x100) by (bit_vector);
    assert(low | 0x100u16 == low + 0x100) by (bit_vector)
        requires
            low <= 0xFF,
    ;
    assert(low | 0u16 == low) by (bit_vector);
    low | flag
}

impl FtdiDevice {
    /// Set the flow control mode.
    pub fn set_flow_control(&self, flow: FlowControl) -> (control: Result<ControlOut, Error>)
        ensures
            control == flow_request(self@, flow),
    {
        match flow {
            FlowControl::Disabled => self.control_out(
                SIO_SET_FLOW_CTRL_REQUEST,
                0,
                SIO_DISABLE_FLOW_CTRL | self.usb_index(),
            ),
            FlowControl::RtsCts => self.control_out(
                SIO_SET_FLOW_CTRL_REQUEST,
                0,
                SIO_RTS_CTS_HS | self.usb_index(),
            ),
            FlowControl::DtrDsr => self.control_out(
                SIO_SET_FLOW_CTRL_REQUEST,
                0,
                SIO_DTR_DSR_HS | self.usb_index(),
            ),
            FlowControl::XonXoff { xon, xoff } => {
                let low: u16 = xon as u16;
                let high: u16 = xoff as u16;
                let xonxoff: u16 = low | (high << 8);
                assert(low | (high << 8) == low + 0x100 * high) by (bit_vector)
                    requires
                        low <= 0xFF,
                        high <= 0xFF,
                ;
                self.control_out(
                    SIO_SET_FLOW_CTRL_REQUEST,
                    xonxoff,
                    SIO_XON_XOFF_HS | self.usb_index(),
                )
            },
        }
    }

    /// Set XON/XOFF software flow control with custom characters.
    pub fn set_flow_control_xonxoff(&self, xon: u8, xoff: u8) -> (control: Result<ControlOut, Error>)
        ensures
            control == flow_request(self@, FlowControl::XonXoff { xon, xoff }),
    {
        self.set_flow_control(FlowControl::XonXoff { xon, xoff })
    }

    /// Set the DTR (Data Terminal Ready) line state.
    pub fn set_dtr(&self, state: bool) -> (control: Result<ControlOut, Error>)
        ensures
            control == channel_out(self@, SIO_SET_MODEM_CTRL_REQUEST, dtr_value(state)),
    {
        let value: u16 = if state {
            SIO_SET_DTR_HIGH
        } else {
            SIO_SET_DTR_LOW
        };
        self.control_out(SIO_SET_MODEM_CTRL_REQUEST, value, self.usb_index())
    }

    /// Set the RTS (Request To Send) line state.
    pub fn set_rts(&self, state: bool) -> (control: Result<ControlOut, Error>)
        ensures
            control == channel_out(self@, SIO_SET_MODEM_CTRL_REQUEST, rts_value(state)),
    {
        let value: u16 = if state {
            SIO_SET_RTS_HIGH
        } else {
            SIO_SET_RTS_LOW
        };
        self.control_out(SIO_SET_MODEM_CTRL_REQUEST, value, self.usb_index())
    }

    /// Set both DTR and RTS lines in a single USB transfer.
    pub fn set_dtr_rts(&self, dtr: bool, rts: bool) -> (control: Result<ControlOut, Error>)
        ensures
            control == channel_out(
                self@,
                SIO_SET_MODEM_CTRL_REQUEST,
                (dtr_value(dtr) + rts_value(rts)) as u16,
            ),
    {
        let dtr_bits: u16 = if dtr {
            SIO_SET_DTR_HIGH
        } else {
            SIO_SET_DTR_LOW
        };
        let rts_bits: u16 = if rts {
            SIO_SET_RTS_HIGH
        } else {
            SIO_SET_RTS_LOW
        };
        let value: u16 = dtr_bits | rts_bits;
        assert(dtr_bits | rts_bits == dtr_bits + rts_bits) by (bit_vector)
            requires
                dtr_bits == 0x0101 || dtr_bits == 0x0100,
                rts_bits == 0x0202 || rts_bits == 0x0200,
        ;
        self.control_out(SIO_SET_MODEM_CTRL_REQUEST, value, self.usb_index())
    }

    /// Set the special event character.
    pub fn set_event_char(&self, ch: u8, enable: bool) -> (control: Result<ControlOut, Error>)
        ensures
            control == channel_out(self@, SIO_SET_EVENT_CHAR_REQUEST, special_char(ch, enable)),
    {
        self.control_out(
            SIO_SET_EVENT_CHAR_REQUEST,
            special_char_value(ch, enable),
            self.usb_index(),
        )
    }

    /// Set the error character.
    pub fn set_error_char(&self, ch: u8, enable: bool) -> (control: Result<ControlOut, Error>)
        ensures
            control == channel_out(self@, SIO_SET_ERROR_CHAR_REQUEST, special_char(ch, enable)),
    {
        self.control_out(
            SIO_SET_ERROR_CHAR_REQUEST,
            special_char_value(ch, enable),
            self.usb_index(),
        )
    }

    /// Poll the modem status; [`modem_status_reply`] reads the answer.
    pub fn poll_modem_status(&self) -> (control: Result<ControlIn, Error>)
        ensures
            control == channel_in(self@, SIO_POLL_MODEM_STATUS_REQUEST, 2),
    {
        self.control_in(SIO_POLL_MODEM_STATUS_REQUEST, 0, self.usb_index(), 2)
    }
}

/// The status that an answer of two bytes or more stands for.
pub open spec fn modem_status_of(outcome: Result<Seq<u8>, TransferError>) -> Result<
    ModemStatus,
    Error,
> {
    match outcome {
        Err(error) => Err(Error::Transfer(error)),
        Ok(data) => if data.len() < 2 {
            Err(Error::DeviceUnavailable)
        } else {
            Ok(ModemStatus { raw: (data[0] + 0x100 * data[1]) as u16 })
        },
    }
}

/// The byte that an answer holds.
pub open spec fn byte_of(outcome: Result<Seq<u8>, TransferError>) -> Result<u8, Error> {
    match outcome {
        Err(error) => Err(Error::Transfer(error)),
        Ok(data) => if data.len() == 0 {
            Err(Error::DeviceUnavailable)
        } else {
            Ok(data[0])
        },
    }
}

/// The bytes of a reply.
pub open spec fn reply(outcome: Result<Vec<u8>, TransferError>) -> Result<Seq<u8>, TransferError> {
    match outcome {
        Ok(data) => Ok(data@),
        Err(error) => Err(error),
    }
}

/// Read the answer to [`FtdiDevice::poll_modem_status`].
pub fn modem_status_reply(outcome: Result<Vec<u8>, TransferError>) -> (status: Result<
    ModemStatus,
    Error,
>)
    ensures
        status == modem_status_of(reply(outcome)),
{
    match transferred(outcome) {
        Ok(data) => {
            if data.len() < 2 {
                return Err(Error::DeviceUnavailable);
            }
            let low: u16 = data[0] as u16;
            let high: u16 = data[1] as u16;
            let raw: u16 = low | (high << 8);
            assert(low | (high << 8) == low + 0x100 * high) by (bit_vector)
                requires
                    low <= 0xFF,
                    high <= 0xFF,
            ;
            Ok(ModemStatus::from_raw(raw))
        },
        Err(error) => Err(error),
    }
}

/// Read an answer of one byte: a latency timer value, or the state of the pins.
pub fn byte_reply(outcome: Result<Vec<u8>, TransferError>) -> (byte: Result<u8, Error>)
    ensures
        byte == byte_of(reply(outcome)),
{
    match transferred(outcome) {
        Ok(data) => {
            if data.is_empty() {
                return Err(Error::DeviceUnavailable);
            }
            Ok(data[0])
        },
        Err(error) => Err(error),
    }
}

// ---- Latency timer, pins, connection ----

/// The longest time, in milliseconds, that a new latency timer value is waited for.
pub const MAX_SETTLE_MS: u64 = 50;

/// The request that sets the latency timer.
pub open spec fn latency_update(device: DeviceView, latency_ms: u8) -> Result<
    LatencyUpdate,
    Error,
> {
    if latency_ms == 0 {
        Err(Error::InvalidArgument("latency must be between 1 and 255"))
    } else {
        gated(
            device,
            LatencyUpdate {
                request: out_request(
                    device,
                    SIO_SET_LATENCY_TIMER_REQUEST,
                    latency_ms as u16,
                    device.usb_index,
                ),
                settle_ms: if latency_ms <= MAX_SETTLE_MS {
                    latency_ms as u64
                } else {
                    MAX_SETTLE_MS
                },
            },
        )
    }
}

impl FtdiDevice {
    /// Set the latency timer value (1-255 ms).
    ///
    /// Once the request was sent, the device is given `min(latency_ms, 50)` ms
    /// to apply the new value.
    pub fn set_latency_timer(&self, latency_ms: u8) -> (update: Result<LatencyUpdate, Error>)
        ensures
            update == latency_update(self@, latency_ms),
    {
        if latency_ms < 1 {
            return Err(Error::InvalidArgument("latency must be between 1 and 255"));
        }
        match self.control_out(SIO_SET_LATENCY_TIMER_REQUEST, latency_ms as u16, self.usb_index()) {
            Ok(request) => {
                let settle_ms: u64 = if latency_ms as u64 <= MAX_SETTLE_MS {
                    latency_ms as u64
                } else {
                    MAX_SETTLE_MS
                };
                Ok(LatencyUpdate { request, settle_ms })
            },
            Err(error) => Err(error),
        }
    }

    /// Get the current latency timer value in milliseconds; [`byte_reply`]
    /// reads the answer.
    pub fn latency_timer(&self) -> (control: Result<ControlIn, Error>)
        ensures
            control == channel_in(self@, SIO_GET_LATENCY_TIMER_REQUEST, 1),
    {
        self.control_in(SIO_GET_LATENCY_TIMER_REQUEST, 0, self.usb_index(), 1)
    }

    /// Read the current pin states directly, bypassing the read buffer;
    /// [`byte_reply`] reads the answer.
    pub fn read_pins(&self) -> (control: Result<ControlIn, Error>)
        ensures
            control == channel_in(self@, SIO_READ_PINS_REQUEST, 1),
    {
        self.control_in(SIO_READ_PINS_REQUEST, 0, self.usb_index(), 1)
    }

    /// Check if the USB device is still connected: it is if it answers this
    /// request. A device that cannot be asked does not count as connected.
    pub fn is_connected(&self) -> (control: Option<ControlIn>)
        ensures
            control == (if self@.recovery_required {
                None::<ControlIn>
            } else {
                Some(
                    in_request(
                        self@,
                        SIO_GET_LATENCY_TIMER_REQUEST,
                        0,
                        self@.usb_index,
                        1,
                    ),
                )
            }),
    {
        match self.latency_timer() {
            Ok(control) => Some(control),
            Err(_) => None,
        }
    }
}

} // verus!
