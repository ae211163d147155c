//! Settings and identities of FTDI chips.

use vstd::prelude::*;

verus! {

/// A family of FTDI chips.
#[derive(Clone, Copy, Debug, PartialEq, Eq, Structural)]
pub enum ChipType {
    Am,
    Bm,
    Ft2232C,
    Ft232R,
    Ft2232H,
    Ft4232H,
    Ft232H,
    Ft230X,
}

impl ChipType {
    /// The chips with more than one serial channel.
    pub open spec fn multi_channel(self) -> bool {
        self is Ft2232C || self is Ft2232H || self is Ft4232H
    }

    /// The high-speed chips.
    pub open spec fn h_type(self) -> bool {
        self is Ft2232H || self is Ft4232H || self is Ft232H
    }

    /// Whether the chip has more than one serial channel.
    pub fn is_multi_channel(self) -> (multi: bool)
        ensures
            multi == self.multi_channel(),
    {
        matches!(self, ChipType::Ft2232C | ChipType::Ft2232H | ChipType::Ft4232H)
    }

    /// Whether the chip is one of the high-speed family.
    pub fn is_h_type(self) -> (h_type: bool)
        ensures
            h_type == self.h_type(),
    {
        matches!(self, ChipType::Ft2232H | ChipType::Ft4232H | ChipType::Ft232H)
    }
}

/// A bitbang or MPSSE mode.
#[derive(Clone, Copy, Debug, PartialEq, Eq, Structural)]
pub enum BitMode {
    /// Plain serial or FIFO operation.
    Reset,
    Bitbang,
    Mpsse,
    SyncBitbang,
    Mcu,
    Opto,
    CbusBitbang,
    SyncFifo,
    Ft1284,
}

impl BitMode {
    /// The mode byte of the bit mode request.
    pub open spec fn wire(self) -> u8 {
        match self {
            BitMode::Reset => 0x00,
            BitMode::Bitbang => 0x01,
            BitMode::Mpsse => 0x02,
            BitMode::SyncBitbang => 0x04,
            BitMode::Mcu => 0x08,
            BitMode::Opto => 0x10,
            BitMode::CbusBitbang => 0x20,
            BitMode::SyncFifo => 0x40,
            BitMode::Ft1284 => 0x80,
        }
    }

    /// The mode byte of the bit mode request.
    pub fn wire_value(self) -> (wire: u8)
        ensures
            wire == self.wire(),
    {
        match self {
            BitMode::Reset => 0x00,
            BitMode::Bitbang => 0x01,
            BitMode::Mpsse => 0x02,
            BitMode::SyncBitbang => 0x04,
            BitMode::Mcu => 0x08,
            BitMode::Opto => 0x10,
            BitMode::CbusBitbang => 0x20,
            BitMode::SyncFifo => 0x40,
            BitMode::Ft1284 => 0x80,
        }
    }
}

/// Number of data bits in a serial frame.
#[derive(Clone, Copy, Debug, PartialEq, Eq, Structural)]
pub enum DataBits {
    Seven,
    Eight,
}

impl DataBits {
    /// The value of the data bits field.
    pub open spec fn wire(self) -> u16 {
        match self {
            DataBits::Seven => 7,
            DataBits::Eight => 8,
        }
    }

    /// The value of the data bits field.
    pub fn wire_value(self) -> (wire: u16)
        ensures
            wire == self.wire(),
    {
        match self {
            DataBits::Seven => 7,
            DataBits::Eight => 8,
        }
    }
}

/// Number of stop bits in a serial frame.
#[derive(Clone, Copy, Debug, PartialEq, Eq, Structural)]
pub enum StopBits {
    One,
    OneAndHalf,
    Two,
}

impl StopBits {
    /// The value of the stop bits field.
    pub open spec fn wire(self) -> u16 {
        match self {
            StopBits::One => 0,
            StopBits::OneAndHalf => 1,
            StopBits::Two => 2,
        }
    }

    /// The value of the stop bits field.
    pub fn wire_value(self) -> (wire: u16)
        ensures
            wire == self.wire(),
    {
        match self {
            StopBits::One => 0,
            StopBits::OneAndHalf => 1,
            StopBits::Two => 2,
        }
    }
}

/// Parity of a serial frame.
#[derive(Clone, Copy, Debug, PartialEq, Eq, Structural)]
pub enum Parity {
    NoParity,
    Odd,
    Even,
    Mark,
    Space,
}

impl Parity {
    /// The value of the parity field.
    pub open spec fn wire(self) -> u16 {
        match self {
            Parity::NoParity => 0,
            Parity::Odd => 1,
            Parity::Even => 2,
            Parity::Mark => 3,
            Parity::Space => 4,
        }
    }

    /// The value of the parity field.
    pub fn wire_value(self) -> (wire: u16)
        ensures
            wire == self.wire(),
    {
        match self {
            Parity::NoParity => 0,
            Parity::Odd => 1,
            Parity::Even => 2,
            Parity::Mark => 3,
            Parity::Space => 4,
        }
    }
}

/// Break state of the serial line.
#[derive(Clone, Copy, Debug, PartialEq, Eq, Structural)]
pub enum BreakType {
    Off,
    On,
}

impl BreakType {
    /// The value of the break field.
    pub open spec fn wire(self) -> u16 {
        match self {
            BreakType::Off => 0,
            BreakType::On => 1,
        }
    }

    /// The value of the break field.
    pub fn wire_value(self) -> (wire: u16)
        ensures
            wire == self.wire(),
    {
        match self {
            BreakType::Off => 0,
            BreakType::On => 1,
        }
    }
}

/// Flow control mode.
#[derive(Clone, Copy, Debug, PartialEq, Eq, Structural)]
pub enum FlowControl {
    Disabled,
    RtsCts,
    DtrDsr,
    XonXoff { xon: u8, xoff: u8 },
}

/// A channel of a chip.
#[derive(Clone, Copy, Debug, PartialEq, Eq, Structural)]
pub enum Interface {
    /// The first channel.
    Any,
    A,
    B,
    C,
    D,
}

/// USB addresses that belong to a channel.
#[derive(Clone, Copy, Debug, PartialEq, Eq, Structural)]
pub struct InterfaceConfig {
    /// Number of the USB interface.
    pub interface_num: u8,
    /// Index of the channel in control requests to multi-channel chips.
    pub usb_index: u16,
    /// Address of the bulk OUT endpoint.
    pub write_ep: u8,
    /// Address of the bulk IN endpoint.
    pub read_ep: u8,
}

impl Interface {
    /// The position of the channel on the chip, counted from 0.
    pub open spec fn channel(self) -> nat {
        match self {
            Interface::Any | Interface::A => 0,
            Interface::B => 1,
            Interface::C => 2,
            Interface::D => 3,
        }
    }

    /// The USB addresses of the channel.
    pub open spec fn addresses(self) -> InterfaceConfig {
        InterfaceConfig {
            interface_num: self.channel() as u8,
            usb_index: (self.channel() + 1) as u16,
            write_ep: (2 * self.channel() + 2) as u8,
            read_ep: (0x80 + 2 * self.channel() + 1) as u8,
        }
    }

    /// The USB addresses of the channel.
    pub fn config(self) -> (config: InterfaceConfig)
        ensures
            config == self.addresses(),
    {
        match self {
            Interface::Any | Interface::A => InterfaceConfig {
                interface_num: 0,
                usb_index: 1,
                write_ep: 0x02,
                read_ep: 0x81,
            },
            Interface::B => InterfaceConfig {
                interface_num: 1,
                usb_index: 2,
                write_ep: 0x04,
                read_ep: 0x83,
            },
            Interface::C => InterfaceConfig {
                interface_num: 2,
                usb_index: 3,
                write_ep: 0x06,
                read_ep: 0x85,
            },
            Interface::D => InterfaceConfig {
                interface_num: 3,
                usb_index: 4,
                write_ep: 0x08,
                read_ep: 0x87,
            },
        }
    }
}

/// Modem and line status as the chip reports it.
#[derive(Clone, Copy, Debug, PartialEq, Eq, Structural)]
pub struct ModemStatus {
    /// The modem status byte, and the line status byte above it.
    pub raw: u16,
}

impl ModemStatus {
    /// Wrap the two status bytes.
    pub fn from_raw(raw: u16) -> (status: ModemStatus)
        ensures
            status.raw == raw,
    {
        ModemStatus { raw }
    }
}

/// A clock divisor and the baud rate that it gives.
#[derive(Clone, Copy, Debug, PartialEq, Eq, Structural)]
pub struct BaudDivisor {
    /// Value field of the baud rate request.
    pub value: u16,
    /// Index field of the baud rate request.
    pub index: u16,
    /// The baud rate that the divisor achieves.
    pub actual: u32,
}

/// Selects one of the connected devices.
#[derive(Debug)]
pub struct DeviceFilter {
    pub vendor_id: u16,
    pub product_id: u16,
    /// Product string, if it has to match.
    pub description: Option<String>,
    /// Serial number string, if it has to match.
    pub serial: Option<String>,
    /// Number of matching devices to pass over.
    pub index: usize,
}

} // verus!
