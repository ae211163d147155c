//! Vendor requests and request values of the FTDI control protocol.

use vstd::prelude::*;

verus! {

/// USB vendor id of FTDI.
pub const FTDI_VID: u16 = 0x0403;

/// Reset the port, or purge one of its buffers.
pub const SIO_RESET_REQUEST: u8 = 0x00;

/// Set the modem control lines.
pub const SIO_SET_MODEM_CTRL_REQUEST: u8 = 0x01;

/// Set the flow control mode.
pub const SIO_SET_FLOW_CTRL_REQUEST: u8 = 0x02;

/// Set the baud rate divisor.
pub const SIO_SET_BAUDRATE_REQUEST: u8 = 0x03;

/// Set the line properties.
pub const SIO_SET_DATA_REQUEST: u8 = 0x04;

/// Read the modem status.
pub const SIO_POLL_MODEM_STATUS_REQUEST: u8 = 0x05;

/// Set the event character.
pub const SIO_SET_EVENT_CHAR_REQUEST: u8 = 0x06;

/// Set the error character.
pub const SIO_SET_ERROR_CHAR_REQUEST: u8 = 0x07;

/// Set the latency timer.
pub const SIO_SET_LATENCY_TIMER_REQUEST: u8 = 0x09;

/// Read the latency timer.
pub const SIO_GET_LATENCY_TIMER_REQUEST: u8 = 0x0A;

/// Select a bitbang or MPSSE mode.
pub const SIO_SET_BITMODE_REQUEST: u8 = 0x0B;

/// Read the pins directly.
pub const SIO_READ_PINS_REQUEST: u8 = 0x0C;

/// Value of [`SIO_RESET_REQUEST`]: reset the whole device.
pub const SIO_RESET_SIO: u16 = 0;

/// Value of [`SIO_RESET_REQUEST`]: purge data on its way to the host.
pub const SIO_TCIFLUSH: u16 = 2;

/// Value of [`SIO_RESET_REQUEST`]: purge data on its way to the serial side.
pub const SIO_TCOFLUSH: u16 = 1;

/// No flow control.
pub const SIO_DISABLE_FLOW_CTRL: u16 = 0x0000;

/// RTS/CTS handshake.
pub const SIO_RTS_CTS_HS: u16 = 0x0100;

/// DTR/DSR handshake.
pub const SIO_DTR_DSR_HS: u16 = 0x0200;

/// XON/XOFF handshake.
pub const SIO_XON_XOFF_HS: u16 = 0x0400;

/// Raise DTR.
pub const SIO_SET_DTR_HIGH: u16 = 0x0101;

/// Lower DTR.
pub const SIO_SET_DTR_LOW: u16 = 0x0100;

/// Raise RTS.
pub const SIO_SET_RTS_HIGH: u16 = 0x0202;

/// Lower RTS.
pub const SIO_SET_RTS_LOW: u16 = 0x0200;

} // verus!
