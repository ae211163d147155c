//! Verified core of a driver for FTDI USB serial chips.
//!
//! The library decides what to send to a chip, how to frame and unframe data,
//! and when a device has to be recovered. It performs no I/O: a caller carries
//! out the transfers that it asks for and reports how they ended.

pub mod constants;
pub mod control;
pub mod deadline;
pub mod device;
pub mod effects;
pub mod error;
pub mod identify;
pub mod laws;
pub mod operation;
pub mod packet;
pub mod platform;
pub mod recovery;
pub mod search;
pub mod stream;
pub mod transfer;
pub mod types;

pub use control::{
    byte_reply, modem_status_reply, transferred, ControlIn, ControlOut, LatencyUpdate,
};
pub use deadline::{TransferDeadline, Wait};
pub use device::{DeviceView, FtdiDevice};
pub use error::Error;
pub use identify::{detect_chip_type, determine_max_packet_size};
pub use operation::{Action, Operation, Outcome, Pipe, Step};
pub use packet::{read_transfer_size, strip_modem_status, strip_modem_status_to_vec};
pub use recovery::{next_device_id, RecoveryAction, RecoveryGuard};
pub use search::{ListedDevice, Search, SearchStep, StringKind, StringRead};
pub use transfer::{
    cancel_and_drain, clear_pending_transfers, Completion, DrainStep, ReadStep, Retry, RetryStep,
    Write, WriteAllStep, WriteEvent, WriteStep,
};
pub use types::{
    BaudDivisor, BitMode, BreakType, ChipType, DataBits, DeviceFilter, FlowControl, Interface,
    InterfaceConfig, ModemStatus, Parity, StopBits,
};
