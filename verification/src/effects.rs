//! What operations come to, on the wire and in what a device records.
//!
//! Every statement here is in terms of request numbers, bytes, rates and the
//! fields of a device.

use std::time::{Duration, Instant};

use nusb::transfer::TransferError;
use vstd::prelude::*;

use crate::control::{
    byte_of, channel_in, channel_out, dtr_value, flow_request, gated, in_request, latency_update,
    line_property, modem_status_of, out_request, rts_value, special_char, transfer_result,
    ControlIn, ControlOut, LatencyUpdate,
};
use crate::deadline::{deadline_after, is_deadline_of, TransferDeadline, Wait};
use crate::device::{opened, opened_device, resized, shorter, DeviceView};
use crate::error::Error;
use crate::identify::{chip_of, first_endpoint, layout_of, max_packet_size_of};
use crate::laws::{
    baudrate_runs, bitmode_runs, flush_all_runs, flush_rx_runs, initialize_runs, recovery_begun,
    recovery_outcomes, recovery_restores, reset_runs, run, successes,
};
use crate::operation::{
    abandoned, baudrate_begun, bitmode_begun, flush_rx_begun, flush_tx_begun, launched, reset_begun,
    resumed, Action, Command, Next, Operation, Outcome, Pipe, Step,
};
use crate::platform::{
    configuration_layout, instant_plus, seconds, time_between, InterfaceGroup,
};
use crate::recovery::{successor, RecoveryAction, RecoveryGuard};
use crate::types::{
    BaudDivisor, BitMode, BreakType, ChipType, DataBits, FlowControl, Interface, ModemStatus, Parity,
    StopBits,
};

verus! {

// ---- What is recorded ----

/// Each change of a device touches the fields that it is about, whatever they
/// held, and no other.
pub proof fn changes_touch_their_fields(
    device: DeviceView,
    baudrate: u32,
    bitmask: u8,
    mode: BitMode,
    required: bool,
    guard: RecoveryGuard,
)
    ensures
        device.input_discarded().input.len() == 0,
        device.input_discarded() == (DeviceView { input: Seq::empty(), ..device }),
        device.epoch_bumped() == (DeviceView {
            recovery_epoch: ((device.recovery_epoch + 1) % 0x1_0000_0000_0000_0000) as u64,
            ..device
        }),
        device.poisoned(required) == (DeviceView { recovery_required: required, ..device }),
        device.released(guard) == (DeviceView {
            recovery_required: device.recovery_required || guard.armed,
            ..device
        }),
        device.with_baudrate(baudrate) == (DeviceView { baudrate, ..device }),
        device.with_bitmode(bitmask, mode) == (DeviceView {
            bitbang_mode: mode,
            bitbang_mask: bitmask,
            bitbang_enabled: !(mode is Reset),
            ..device
        }),
{
}

/// A device that was just opened has no baud rate and no bit mode, holds no
/// input, is ready, and has the default timeouts and chunk sizes. Its requests
/// carry index 0 on a single-channel chip, and on another the number of the
/// channel, from 1.
pub proof fn opened_device_has_defaults(
    chip_type: ChipType,
    max_packet_size: usize,
    iface: Interface,
    device_id: u64,
)
    ensures
        ({
            let device = opened(chip_type, max_packet_size, iface, device_id);
            let channel: int = match iface {
                Interface::Any | Interface::A => 0,
                Interface::B => 1,
                Interface::C => 2,
                Interface::D => 3,
            };
            let several = match chip_type {
                ChipType::Ft2232C | ChipType::Ft2232H | ChipType::Ft4232H => true,
                _ => false,
            };
            &&& device.chip_type == chip_type
            &&& device.max_packet_size == max_packet_size
            &&& device.device_id == device_id
            &&& device.interface_num == channel
            &&& several ==> device.usb_index == channel + 1
            &&& !several ==> device.usb_index == 0
            &&& device.baudrate == 0
            &&& !device.bitbang_enabled && device.bitbang_mode is Reset && device.bitbang_mask == 0
            &&& device.read_timeout == seconds(5) && device.write_timeout == seconds(5)
            &&& device.read_chunksize == 4096 && device.write_chunksize == 4096
            &&& device.input.len() == 0
            &&& !device.recovery_required && device.recovery_epoch == 0
            &&& device.recovery_action is Nothing
        }),
{
}

/// The chip type and the packet size of a device that was just opened are those
/// that its descriptors give, for the interface of its channel.
pub proof fn opened_device_follows_its_descriptors(
    bcd_device: u16,
    has_serial: bool,
    configuration: Option<&[u8]>,
    iface: Interface,
    device_id: u64,
)
    ensures
        ({
            let device = opened_device(bcd_device, has_serial, configuration, iface, device_id);
            let chip_type = chip_of(bcd_device, has_serial);
            let number = iface.addresses().interface_num;
            &&& device == opened(chip_type, device.max_packet_size, iface, device_id)
            &&& configuration matches Some(bytes) ==> device.max_packet_size == max_packet_size_of(
                configuration_layout(bytes@),
                chip_type,
                number,
            )
            &&& configuration is None ==> device.max_packet_size == max_packet_size_of(
                None,
                chip_type,
                number,
            )
        }),
{
}

/// A list of interfaces describes them in its order, each by its number and by
/// the packet sizes in each of its settings.
pub proof fn layout_lists_the_interfaces(groups: Vec<InterfaceGroup>, g: int, a: int)
    requires
        0 <= g < groups@.len(),
        0 <= a < groups@[g].alt_settings@.len(),
    ensures
        layout_of(None) is None,
        layout_of(Some(groups)) matches Some(layout) && {
            &&& layout.len() == groups@.len()
            &&& layout[g].0 == groups@[g].number
            &&& layout[g].1.len() == groups@[g].alt_settings@.len()
            &&& layout[g].1[a] == groups@[g].alt_settings@[a]@
        },
{
}

/// A counter counts up by one, and runs round at its end.
pub proof fn counters_count_up(count: u64)
    ensures
        count < u64::MAX ==> successor(count) == count + 1,
        count == u64::MAX ==> successor(count) == 0,
{
}

/// The lesser of two lengths.
pub proof fn shorter_is_the_lesser(a: nat, b: nat)
    ensures
        shorter(a, b) <= a,
        shorter(a, b) <= b,
        shorter(a, b) == a || shorter(a, b) == b,
{
}

/// A buffer that is resized has the new length, keeps its bytes as far as they
/// fit, and is filled up with zeros.
pub proof fn resized_buffer_keeps_its_bytes(buffer: Seq<u8>, size: nat)
    ensures
        resized(buffer, size).len() == size,
        forall|i: int| 0 <= i < size && i < buffer.len() ==> resized(buffer, size)[i] == buffer[i],
        forall|i: int| buffer.len() <= i < size ==> resized(buffer, size)[i] == 0,
{
}

// ---- Waiting ----

/// A wait ends the timeout after it started, or never if that lies beyond the
/// clock; until then there is as much time left as lies between.
pub proof fn deadlines_are_timeouts_away(start: Instant, timeout: Duration, now: Instant)
    ensures
        instant_plus(start, timeout) matches Some(end) ==> {
            &&& deadline_after(start, timeout) == TransferDeadline::At(end)
            &&& time_between(end, now) matches Some(left) ==> deadline_after(
                start,
                timeout,
            ).wait_from(now) == Wait::AtMost(left)
            &&& time_between(end, now) is None ==> deadline_after(start, timeout).wait_from(now)
                == Wait::Expired
        },
        instant_plus(start, timeout) is None ==> {
            &&& deadline_after(start, timeout) == TransferDeadline::Never
            &&& deadline_after(start, timeout).wait_from(now) == Wait::Forever
        },
{
}

/// The deadline of a wait that started at some time is one that lies the timeout
/// after that time.
pub proof fn deadlines_have_a_start(deadline: TransferDeadline, timeout: Duration)
    requires
        is_deadline_of(deadline, timeout),
    ensures
        exists|start: Instant|
            match #[trigger] instant_plus(start, timeout) {
                Some(end) => deadline == TransferDeadline::At(end),
                None => deadline == TransferDeadline::Never,
            },
{
    let start = choose|start: Instant| deadline == #[trigger] deadline_after(start, timeout);
    assert(match instant_plus(start, timeout) {
        Some(end) => deadline == TransferDeadline::At(end),
        None => deadline == TransferDeadline::Never,
    });
}

// ---- How operations begin ----

/// A ready device begins an operation with these actions, and under an armed
/// guard unless nothing can be left in doubt.
pub proof fn operations_begin(device: DeviceView, bitmask: u8, mode: BitMode, next: Next)
    requires
        !device.recovery_required,
    ensures
        launched(device, reset_begun(device), next) == (
            device,
            Step::Perform(
                Action::Send(
                    ControlOut { request: 0, value: 0, index: 0, timeout: device.write_timeout },
                ),
                Operation {
                    command: Command::Reset { guard: RecoveryGuard { armed: true } },
                    next,
                },
            ),
        ),
        launched(device, bitmode_begun(device, bitmask, mode), next) == (
            device,
            Step::Perform(
                Action::Send(
                    ControlOut {
                        request: 0x0B,
                        value: (bitmask + 0x100 * mode_byte(mode)) as u16,
                        index: device.usb_index,
                        timeout: device.write_timeout,
                    },
                ),
                Operation {
                    command: Command::SetBitmode {
                        guard: RecoveryGuard { armed: true },
                        bitmask,
                        mode,
                    },
                    next,
                },
            ),
        ),
        launched(device, flush_tx_begun(device), next) == (
            device,
            Step::Perform(
                Action::Send(
                    ControlOut {
                        request: 0,
                        value: 1,
                        index: device.usb_index,
                        timeout: device.write_timeout,
                    },
                ),
                Operation { command: Command::FlushTx, next },
            ),
        ),
        launched(device, flush_rx_begun(device), next) == (
            device,
            Step::Perform(
                Action::Drain(Pipe::Read, device.read_timeout),
                Operation {
                    command: Command::DrainForPurge { guard: RecoveryGuard { armed: true } },
                    next,
                },
            ),
        ),
{
    bit_modes_have_their_bytes(mode);
}

/// The byte that stands for a bit mode in a request.
pub open spec fn mode_byte(mode: BitMode) -> int {
    match mode {
        BitMode::Reset => 0,
        BitMode::Bitbang => 1,
        BitMode::Mpsse => 2,
        BitMode::SyncBitbang => 4,
        BitMode::Mcu => 8,
        BitMode::Opto => 16,
        BitMode::CbusBitbang => 32,
        BitMode::SyncFifo => 64,
        BitMode::Ft1284 => 128,
    }
}

/// Each bit mode is sent as its own byte.
pub proof fn bit_modes_have_their_bytes(mode: BitMode)
    ensures
        mode.wire() == mode_byte(mode),
{
}

// ---- Setting the baud rate ----

/// Setting a baud rate looks up a divisor for that rate or, in a bitbang mode,
/// for four times that rate, whether the device is ready or not. A rate whose
/// fourfold does not fit in 32 bits is refused.
pub proof fn baudrate_is_looked_up(device: DeviceView, baudrate: u32, next: Next)
    requires
        !(next is Recover),
    ensures
        ({
            let rate: int = if device.bitbang_enabled {
                baudrate + baudrate + baudrate + baudrate
            } else {
                baudrate as int
            };
            launched(device, baudrate_begun(device, baudrate), next) == (
                device,
                if rate > u32::MAX {
                    Step::Done(Err(Error::InvalidArgument("baud rate is too high")))
                } else {
                    Step::Perform(
                        Action::ConvertBaudrate {
                            rate: rate as u32,
                            chip_type: device.chip_type,
                            index: device.usb_index,
                        },
                        Operation {
                            command: Command::ConvertBaudrate { baudrate, effective: rate as u32 },
                            next,
                        },
                    )
                },
            )
        }),
{
}

/// With a divisor that gives `actual`, a ready device is sent the divisor if, of
/// `actual` and the rate that was looked up, neither is more than a twentieth
/// above the other, at every rate. Otherwise the baud rate is refused, and
/// without a divisor it is as well; nothing changes then, except that a device in
/// recovery still requires it.
pub proof fn baudrate_has_to_be_close(
    device: DeviceView,
    baudrate: u32,
    effective: u32,
    divisor: Option<BaudDivisor>,
    next: Next,
)
    requires
        !device.recovery_required,
        next matches Next::Recover { guard, .. } ==> guard.armed,
    ensures
        ({
            let refused = DeviceView { recovery_required: next is Recover, ..device };
            resumed(
                device,
                Operation { command: Command::ConvertBaudrate { baudrate, effective }, next },
                Outcome::Divisor(divisor),
            ) == match divisor {
                None => (
                    refused,
                    Step::Done(Err(Error::InvalidArgument("baud rate must be > 0"))),
                ),
                Some(d) => if 20 * d.actual <= 21 * effective && 20 * effective <= 21 * d.actual {
                    (device, Step::Perform(
                        Action::Send(
                            ControlOut {
                                request: 3,
                                value: d.value,
                                index: d.index,
                                timeout: device.write_timeout,
                            },
                        ),
                        Operation {
                            command: Command::SetBaudrate {
                                guard: RecoveryGuard { armed: true },
                                baudrate,
                            },
                            next,
                        },
                    ))
                } else {
                    (
                        refused,
                        Step::Done(
                            Err(
                                Error::UnsupportedBaudRate {
                                    requested: baudrate,
                                    actual: d.actual,
                                },
                            ),
                        ),
                    )
                },
            }
        }),
{
}

/// A baud rate is recorded once the device has taken the divisor, as the rate
/// that was asked for.
pub proof fn baudrate_is_recorded(
    device: DeviceView,
    baudrate: u32,
    divisor: BaudDivisor,
    left: RecoveryAction,
)
    requires
        !device.recovery_required,
        device.bitbang_enabled ==> 4 * baudrate <= u32::MAX,
        ({
            let rate: int = if device.bitbang_enabled {
                4 * baudrate
            } else {
                baudrate as int
            };
            20 * divisor.actual <= 21 * rate && 20 * rate <= 21 * divisor.actual
        }),
    ensures
        ({
            let (after, end, actions) = run(
                device,
                launched(device, baudrate_begun(device, baudrate), Next::Return).1,
                seq![Outcome::Divisor(Some(divisor)), Outcome::Finished(Ok(()))],
                left,
            );
            &&& end == Step::Done(Ok(()))
            &&& after == (DeviceView { baudrate, ..device })
            &&& actions.len() == 2
            &&& actions[1] == Action::Send(
                ControlOut {
                    request: 3,
                    value: divisor.value,
                    index: divisor.index,
                    timeout: device.write_timeout,
                },
            )
        }),
{
    baudrate_runs(device, baudrate, divisor, left);
}

// ---- Resetting, flushing, bit modes ----

/// After a reset that ended well the device holds no input, whatever it held
/// before, and is in its next epoch. Nothing else has changed, and one request
/// was sent.
pub proof fn reset_leaves_no_input(device: DeviceView, left: RecoveryAction)
    requires
        !device.recovery_required,
    ensures
        ({
            let (after, end, actions) = run(
                device,
                launched(device, reset_begun(device), Next::Return).1,
                successes(1),
                left,
            );
            &&& end == Step::Done(Ok(()))
            &&& after.input.len() == 0
            &&& after == (DeviceView {
                input: Seq::empty(),
                recovery_epoch: ((device.recovery_epoch + 1) % 0x1_0000_0000_0000_0000) as u64,
                ..device
            })
            &&& actions.len() == 1
            &&& actions[0] == Action::Send(
                ControlOut { request: 0, value: 0, index: 0, timeout: device.write_timeout },
            )
        }),
{
    reset_runs(device, left);
}

/// After a flush of the receive buffer that ended well the device holds no input,
/// whatever it held before. Nothing else has changed. The queued reads were
/// drained, and six purges of the receive buffer were sent.
pub proof fn flush_rx_leaves_no_input(device: DeviceView, left: RecoveryAction)
    requires
        !device.recovery_required,
    ensures
        ({
            let (after, end, actions) = run(
                device,
                launched(device, flush_rx_begun(device), Next::Return).1,
                successes(7),
                left,
            );
            &&& end == Step::Done(Ok(()))
            &&& after.input.len() == 0
            &&& after == (DeviceView { input: Seq::empty(), ..device })
            &&& actions.len() == 7
            &&& actions[0] == Action::Drain(Pipe::Read, device.read_timeout)
            &&& forall|i: int|
                1 <= i < 7 ==> (#[trigger] actions[i]) == Action::Send(
                    ControlOut {
                        request: 0,
                        value: 2,
                        index: device.usb_index,
                        timeout: device.write_timeout,
                    },
                )
        }),
{
    flush_rx_runs(device, left);
}

/// A flush of both buffers sends one purge of the transmit buffer first, and then
/// does what a flush of the receive buffer does.
pub proof fn flush_all_leaves_no_input(device: DeviceView, left: RecoveryAction)
    requires
        !device.recovery_required,
    ensures
        ({
            let (after, end, actions) = run(
                device,
                launched(device, flush_tx_begun(device), Next::FlushRx).1,
                successes(8),
                left,
            );
            &&& end == Step::Done(Ok(()))
            &&& after.input.len() == 0
            &&& after == (DeviceView { input: Seq::empty(), ..device })
            &&& actions.len() == 8
            &&& actions[0] == Action::Send(
                ControlOut {
                    request: 0,
                    value: 1,
                    index: device.usb_index,
                    timeout: device.write_timeout,
                },
            )
            &&& actions[1] == Action::Drain(Pipe::Read, device.read_timeout)
            &&& forall|i: int|
                2 <= i < 8 ==> (#[trigger] actions[i]) == Action::Send(
                    ControlOut {
                        request: 0,
                        value: 2,
                        index: device.usb_index,
                        timeout: device.write_timeout,
                    },
                )
        }),
{
    flush_all_runs(device, left);
}

/// A bit mode that was set is recorded with its mask, and the device is in its
/// next epoch. Nothing else has changed.
pub proof fn bitmode_is_recorded(
    device: DeviceView,
    bitmask: u8,
    mode: BitMode,
    left: RecoveryAction,
)
    requires
        !device.recovery_required,
    ensures
        ({
            let (after, end, actions) = run(
                device,
                launched(device, bitmode_begun(device, bitmask, mode), Next::Return).1,
                successes(1),
                left,
            );
            &&& end == Step::Done(Ok(()))
            &&& after == (DeviceView {
                bitbang_mode: mode,
                bitbang_mask: bitmask,
                bitbang_enabled: !(mode is Reset),
                recovery_epoch: ((device.recovery_epoch + 1) % 0x1_0000_0000_0000_0000) as u64,
                ..device
            })
            &&& actions.len() == 1
            &&& actions[0] == Action::Send(
                ControlOut {
                    request: 0x0B,
                    value: (bitmask + 0x100 * mode_byte(mode)) as u16,
                    index: device.usb_index,
                    timeout: device.write_timeout,
                },
            )
        }),
{
    bitmode_runs(device, bitmask, mode, left);
}

/// Opening resets a device and sets 9600 baud, and does nothing else.
pub proof fn opening_sets_9600_baud(
    device: DeviceView,
    divisor: BaudDivisor,
    left: RecoveryAction,
)
    requires
        !device.recovery_required,
        !device.bitbang_enabled,
        20 * divisor.actual <= 21 * 9600,
        20 * 9600 <= 21 * divisor.actual,
    ensures
        ({
            let (after, end, actions) = run(
                device,
                launched(device, reset_begun(device), Next::Initialize).1,
                seq![
                    Outcome::Finished(Ok(())),
                    Outcome::Divisor(Some(divisor)),
                    Outcome::Finished(Ok(())),
                ],
                left,
            );
            &&& end == Step::Done(Ok(()))
            &&& after == (DeviceView {
                baudrate: 9600,
                input: Seq::empty(),
                recovery_epoch: ((device.recovery_epoch + 1) % 0x1_0000_0000_0000_0000) as u64,
                ..device
            })
            &&& actions.len() == 3
            &&& actions[0] == Action::Send(
                ControlOut { request: 0, value: 0, index: 0, timeout: device.write_timeout },
            )
            &&& actions[1] == Action::ConvertBaudrate {
                rate: 9600,
                chip_type: device.chip_type,
                index: device.usb_index,
            }
            &&& actions[2] == Action::Send(
                ControlOut {
                    request: 3,
                    value: divisor.value,
                    index: divisor.index,
                    timeout: device.write_timeout,
                },
            )
        }),
{
    initialize_runs(device, divisor, left);
}

// ---- Interruption and recovery ----

/// An operation that was interrupted while the device may have been changed makes
/// it require recovery: one that was resetting it, setting its bit mode or its
/// baud rate, or flushing its receive buffer, and recovery itself at any point.
/// Purging the transmit buffer and looking up a divisor do not. An operation that
/// failed is answered with its error.
pub proof fn interruption_requires_recovery(
    device: DeviceView,
    operation: Operation,
    error: Error,
)
    requires
        operation.wf(),
    ensures
        ({
            let in_doubt = match operation.command {
                Command::Reset { .. } | Command::SetBitmode { .. } | Command::SetBaudrate { .. } => {
                    true
                },
                Command::DrainForPurge { .. } | Command::PurgeRx { .. } => true,
                _ => operation.next is Recover,
            };
            let after = DeviceView {
                recovery_required: device.recovery_required || in_doubt,
                ..device
            };
            &&& abandoned(device, operation) == after
            &&& resumed(device, operation, Outcome::Finished(Err(error))) == (
                after,
                Step::Done(Err(error)),
            )
        }),
{
}

/// A device that was recovered is ready, holds no input, and has the baud rate
/// and the bit mode that it had, with the same mask if a mode was in use. Its
/// epoch has moved on by three, or by four if a mode was restored. Of the rest
/// only what the EEPROM work left has changed.
pub proof fn recovered_device_is_as_before(
    device: DeviceView,
    divisor: BaudDivisor,
    left: RecoveryAction,
)
    requires
        device.bitbang_enabled == !(device.bitbang_mode is Reset),
        20 * divisor.actual <= 21 * device.baudrate,
        20 * device.baudrate <= 21 * divisor.actual,
    ensures
        ({
            let start = DeviceView { recovery_required: false, ..device };
            let (after, end, actions) = run(
                start,
                recovery_begun(device),
                recovery_outcomes(device, divisor),
                left,
            );
            let bumps: int = if device.bitbang_enabled {
                4
            } else {
                3
            };
            &&& end == Step::Done(Ok(()))
            &&& after.input.len() == 0
            &&& after == (DeviceView {
                input: Seq::empty(),
                recovery_required: false,
                recovery_action: left,
                bitbang_mask: if device.bitbang_enabled {
                    device.bitbang_mask
                } else {
                    0xFF
                },
                recovery_epoch: ((device.recovery_epoch + bumps) % 0x1_0000_0000_0000_0000) as u64,
                ..device
            })
        }),
{
    recovery_restores(device, divisor, left);
}

/// What recovery does, in order: both endpoints are drained within their
/// timeouts, the EEPROM work is finished, the device is reset and leaves its bit
/// mode; then the baud rate is set again, if there was one, and the bit mode, if
/// one was in use.
pub proof fn recovery_goes_in_order(
    device: DeviceView,
    divisor: BaudDivisor,
    left: RecoveryAction,
)
    requires
        device.bitbang_enabled == !(device.bitbang_mode is Reset),
        20 * divisor.actual <= 21 * device.baudrate,
        20 * device.baudrate <= 21 * divisor.actual,
    ensures
        ({
            let start = DeviceView { recovery_required: false, ..device };
            let actions = run(
                start,
                recovery_begun(device),
                recovery_outcomes(device, divisor),
                left,
            ).2;
            let rates: int = if device.baudrate > 0 {
                2
            } else {
                0
            };
            &&& actions.len() == 5 + rates + if device.bitbang_enabled {
                1int
            } else {
                0
            }
            &&& actions[0] == Action::Drain(Pipe::Read, device.read_timeout)
            &&& actions[1] == Action::Drain(Pipe::Write, device.write_timeout)
            &&& actions[2] == Action::FinishEeprom(device.recovery_action)
            &&& actions[3] == Action::Send(
                ControlOut { request: 0, value: 0, index: 0, timeout: device.write_timeout },
            )
            &&& actions[4] == Action::Send(
                ControlOut {
                    request: 0x0B,
                    value: 0x00FF,
                    index: device.usb_index,
                    timeout: device.write_timeout,
                },
            )
            &&& device.baudrate > 0 ==> {
                &&& actions[5] == Action::ConvertBaudrate {
                    rate: device.baudrate,
                    chip_type: device.chip_type,
                    index: device.usb_index,
                }
                &&& actions[6] == Action::Send(
                    ControlOut {
                        request: 3,
                        value: divisor.value,
                        index: divisor.index,
                        timeout: device.write_timeout,
                    },
                )
            }
            &&& device.bitbang_enabled ==> actions[5 + rates] == Action::Send(
                ControlOut {
                    request: 0x0B,
                    value: (device.bitbang_mask + 0x100 * mode_byte(device.bitbang_mode)) as u16,
                    index: device.usb_index,
                    timeout: device.write_timeout,
                },
            )
        }),
{
    recovery_restores(device, divisor, left);
}

// ---- Requests ----

/// A request goes to a ready device as it is, and to no other. One to the channel
/// carries its index; one to the device may take as long as a write, and one for
/// data as long as a read.
pub proof fn requests_carry_their_fields(
    device: DeviceView,
    request: u8,
    value: u16,
    index: u16,
    length: u16,
)
    ensures
        device.recovery_required ==> channel_out(device, request, value) == Err::<
            ControlOut,
            Error,
        >(Error::RecoveryRequired) && channel_in(device, request, length) == Err::<
            ControlIn,
            Error,
        >(Error::RecoveryRequired),
        !device.recovery_required ==> {
            &&& channel_out(device, request, value) == Ok::<ControlOut, Error>(
                ControlOut {
                    request,
                    value,
                    index: device.usb_index,
                    timeout: device.write_timeout,
                },
            )
            &&& channel_in(device, request, length) == Ok::<ControlIn, Error>(
                ControlIn {
                    request,
                    value: 0,
                    index: device.usb_index,
                    length,
                    timeout: device.read_timeout,
                },
            )
            &&& gated(device, value) == Ok::<u16, Error>(value)
        },
        out_request(device, request, value, index) == (ControlOut {
            request,
            value,
            index,
            timeout: device.write_timeout,
        }),
        in_request(device, request, value, index, length) == (ControlIn {
            request,
            value,
            index,
            length,
            timeout: device.read_timeout,
        }),
{
}

/// The line property word holds the number of data bits in its low byte, the
/// parity in the three bits above, the stop bits in the next three, and the break
/// state on top.
pub proof fn line_property_holds_its_parts(
    bits: DataBits,
    stop_bits: StopBits,
    parity: Parity,
    break_type: BreakType,
)
    ensures
        ({
            let value = line_property(bits, stop_bits, parity, break_type) as int;
            &&& value % 0x100 == match bits {
                DataBits::Seven => 7int,
                DataBits::Eight => 8,
            }
            &&& (value / 0x100) % 8 == match parity {
                Parity::NoParity => 0int,
                Parity::Odd => 1,
                Parity::Even => 2,
                Parity::Mark => 3,
                Parity::Space => 4,
            }
            &&& (value / 0x800) % 8 == match stop_bits {
                StopBits::One => 0int,
                StopBits::OneAndHalf => 1,
                StopBits::Two => 2,
            }
            &&& value / 0x4000 == match break_type {
                BreakType::Off => 0int,
                BreakType::On => 1,
            }
        }),
{
}

/// A flow control request names the handshake in the high byte of its index,
/// next to the channel. Its value holds XON in the low byte and XOFF in the high
/// one, and is 0 for the other handshakes.
pub proof fn flow_control_names_the_handshake(device: DeviceView, flow: FlowControl)
    requires
        device.usb_index < 0x100,
    ensures
        device.recovery_required ==> flow_request(device, flow) == Err::<ControlOut, Error>(
            Error::RecoveryRequired,
        ),
        !device.recovery_required ==> {
            let handshake: int = match flow {
                FlowControl::Disabled => 0,
                FlowControl::RtsCts => 0x0100,
                FlowControl::DtrDsr => 0x0200,
                FlowControl::XonXoff { .. } => 0x0400,
            };
            let value: int = match flow {
                FlowControl::XonXoff { xon, xoff } => xon + 0x100 * xoff,
                _ => 0,
            };
            flow_request(device, flow) == Ok::<ControlOut, Error>(
                ControlOut {
                    request: 2,
                    value: value as u16,
                    index: (handshake + device.usb_index) as u16,
                    timeout: device.write_timeout,
                },
            )
        },
{
    let index = device.usb_index;
    assert(0u16 | index == index && 0x0100u16 | index == 0x0100 + index && 0x0200u16 | index
        == 0x0200 + index && 0x0400u16 | index == 0x0400 + index) by (bit_vector)
        requires
            index < 0x100,
    ;
}

/// A modem line is set through its mask in the high byte and its state in the low
/// one. A special character is sent with the flag that enables it above it.
pub proof fn lines_and_characters_have_their_bits(state: bool, ch: u8)
    ensures
        dtr_value(state) == 0x0100 + if state {
            1int
        } else {
            0
        },
        rts_value(state) == 0x0200 + if state {
            2int
        } else {
            0
        },
        special_char(ch, state) == ch + if state {
            0x100int
        } else {
            0
        },
{
}

/// A latency from 1 on is sent as it is, and waited for as long as it says but no
/// longer than 50 milliseconds. 0 is refused, whether the device is ready or not.
pub proof fn latency_is_sent_and_waited_for(device: DeviceView, latency_ms: u8)
    ensures
        latency_ms == 0 ==> latency_update(device, latency_ms) == Err::<LatencyUpdate, Error>(
            Error::InvalidArgument("latency must be between 1 and 255"),
        ),
        latency_ms > 0 && device.recovery_required ==> latency_update(device, latency_ms) == Err::<
            LatencyUpdate,
            Error,
        >(Error::RecoveryRequired),
        latency_ms > 0 && !device.recovery_required ==> {
            &&& latency_update(device, latency_ms) matches Ok(update)
            &&& update.request == (ControlOut {
                request: 9,
                value: latency_ms as u16,
                index: device.usb_index,
                timeout: device.write_timeout,
            })
            &&& update.settle_ms <= 50 && update.settle_ms <= latency_ms
            &&& update.settle_ms == 50 || update.settle_ms == latency_ms
        },
{
}

/// An answer is read from its first bytes, however long it is: the modem status
/// from two, the low one first, and a latency or the pins from one. One that is
/// too short means that the device is unavailable, and a transfer error is handed
/// on.
pub proof fn answers_are_read(data: Seq<u8>, error: TransferError)
    ensures
        data.len() >= 2 ==> {
            &&& modem_status_of(Ok(data)) matches Ok(status)
            &&& status.raw as int % 0x100 == data[0]
            &&& status.raw as int / 0x100 == data[1]
        },
        data.len() < 2 ==> modem_status_of(Ok(data)) == Err::<ModemStatus, Error>(
            Error::DeviceUnavailable,
        ),
        modem_status_of(Err(error)) == Err::<ModemStatus, Error>(Error::Transfer(error)),
        data.len() >= 1 ==> byte_of(Ok(data)) == Ok::<u8, Error>(data[0]),
        data.len() == 0 ==> byte_of(Ok(data)) == Err::<u8, Error>(Error::DeviceUnavailable),
        byte_of(Err(error)) == Err::<u8, Error>(Error::Transfer(error)),
        transfer_result(Ok::<Seq<u8>, TransferError>(data)) == Ok::<Seq<u8>, Error>(data),
        transfer_result(Err::<Seq<u8>, TransferError>(error)) == Err::<Seq<u8>, Error>(
            Error::Transfer(error),
        ),
{
}

// ---- Channels and chips ----

/// The channels have their addresses: consecutive interface numbers from 0, and
/// indices from 1, even OUT endpoints from 2 and odd IN endpoints from 1.
pub proof fn channels_have_their_addresses(iface: Interface)
    ensures
        ({
            let n: int = match iface {
                Interface::Any | Interface::A => 0,
                Interface::B => 1,
                Interface::C => 2,
                Interface::D => 3,
            };
            &&& iface.addresses().interface_num == n
            &&& iface.addresses().usb_index == n + 1
            &&& iface.addresses().write_ep == 2 * n + 2
            &&& iface.addresses().read_ep == 0x81 + 2 * n
        }),
{
}

/// Every device version stands for one chip. Those that are not known stand for a
/// BM, and so does 2.00 without a serial number, which with one is an AM.
pub proof fn versions_stand_for_chips(bcd: u16, has_serial: bool)
    ensures
        ({
            let chip = chip_of(bcd, has_serial);
            &&& chip is Am <==> bcd == 0x0200 && has_serial
            &&& chip is Ft2232C <==> bcd == 0x0500
            &&& chip is Ft232R <==> bcd == 0x0600
            &&& chip is Ft2232H <==> bcd == 0x0700 || bcd == 0x3000
            &&& chip is Ft4232H <==> bcd == 0x0800
            &&& chip is Ft232H <==> bcd == 0x0900
            &&& chip is Ft230X <==> bcd == 0x1000
        }),
{
}

/// A chip has more than one channel if it is of one of three types, and is a
/// high-speed one if it is of one of three others.
pub proof fn chips_have_their_features(chip_type: ChipType)
    ensures
        chip_type.multi_channel() <==> (chip_type is Ft2232C || chip_type is Ft2232H
            || chip_type is Ft4232H),
        chip_type.h_type() <==> (chip_type is Ft2232H || chip_type is Ft4232H
            || chip_type is Ft232H),
{
}

proof fn lemma_first_endpoint(alt_settings: Seq<Seq<usize>>, a: int)
    requires
        0 <= a <= alt_settings.len(),
        forall|j: int| 0 <= j < a ==> (#[trigger] alt_settings[j]).len() == 0,
        a < alt_settings.len() ==> alt_settings[a].len() > 0,
    ensures
        first_endpoint(alt_settings) == if a < alt_settings.len() {
            Some(alt_settings[a][0])
        } else {
            None
        },
    decreases alt_settings.len(),
{
    if a > 0 {
        let rest = alt_settings.skip(1);
        assert forall|j: int| 0 <= j < a - 1 implies (#[trigger] rest[j]).len() == 0 by {
            assert(rest[j] == alt_settings[j + 1]);
        }
        lemma_first_endpoint(rest, a - 1);
    }
}

/// The packet size of an interface is that of the first endpoint found in it, in
/// the order of the descriptors: that of setting `a` in group `g`, if no group
/// with the number of the interface has an endpoint before.
pub proof fn packet_size_is_that_of_the_first_endpoint(
    interfaces: Seq<(u8, Seq<Seq<usize>>)>,
    chip_type: ChipType,
    number: u8,
    g: int,
    a: int,
)
    requires
        0 <= g < interfaces.len(),
        interfaces[g].0 == number,
        0 <= a < interfaces[g].1.len(),
        interfaces[g].1[a].len() > 0,
        forall|j: int| 0 <= j < a ==> (#[trigger] interfaces[g].1[j]).len() == 0,
        forall|h: int, j: int|
            0 <= h < g && (#[trigger] interfaces[h]).0 == number && 0 <= j < interfaces[h].1.len()
                ==> (#[trigger] interfaces[h].1[j]).len() == 0,
    ensures
        max_packet_size_of(Some(interfaces), chip_type, number) == interfaces[g].1[a][0],
    decreases g,
{
    if g == 0 {
        lemma_first_endpoint(interfaces[0].1, a);
    } else {
        let rest = interfaces.skip(1);
        if interfaces[0].0 == number {
            assert forall|j: int| 0 <= j < interfaces[0].1.len() implies (
            #[trigger] interfaces[0].1[j]).len() == 0 by {
                assert(interfaces[0].0 == number);
            }
            lemma_first_endpoint(interfaces[0].1, interfaces[0].1.len() as int);
        }
        assert(rest[g - 1] == interfaces[g]);
        assert forall|h: int, j: int|
            0 <= h < g - 1 && (#[trigger] rest[h]).0 == number && 0 <= j
                < rest[h].1.len() implies (#[trigger] rest[h].1[j]).len() == 0 by {
            assert(rest[h] == interfaces[h + 1]);
            assert(interfaces[h + 1].1[j].len() == 0);
        }
        packet_size_is_that_of_the_first_endpoint(rest, chip_type, number, g - 1, a);
    }
}

/// A chip whose configuration is not known, or has no endpoint for the interface,
/// has packets of 512 bytes if it is a high-speed one, and of 64 if not.
pub proof fn packet_size_has_a_default(
    interfaces: Seq<(u8, Seq<Seq<usize>>)>,
    chip_type: ChipType,
    number: u8,
)
    requires
        forall|h: int, j: int|
            0 <= h < interfaces.len() && (#[trigger] interfaces[h]).0 == number && 0 <= j
                < interfaces[h].1.len() ==> (#[trigger] interfaces[h].1[j]).len() == 0,
    ensures
        ({
            let size: usize = match chip_type {
                ChipType::Ft2232H | ChipType::Ft4232H | ChipType::Ft232H => 512,
                _ => 64,
            };
            &&& max_packet_size_of(Some(interfaces), chip_type, number) == size
            &&& max_packet_size_of(None, chip_type, number) == size
        }),
    decreases interfaces.len(),
{
    if interfaces.len() > 0 {
        let rest = interfaces.skip(1);
        if interfaces[0].0 == number {
            assert forall|j: int| 0 <= j < interfaces[0].1.len() implies (
            #[trigger] interfaces[0].1[j]).len() == 0 by {
                assert(interfaces[0].0 == number);
            }
            lemma_first_endpoint(interfaces[0].1, interfaces[0].1.len() as int);
        }
        assert forall|h: int, j: int|
            0 <= h < rest.len() && (#[trigger] rest[h]).0 == number && 0 <= j
                < rest[h].1.len() implies (#[trigger] rest[h].1[j]).len() == 0 by {
            assert(rest[h] == interfaces[h + 1]);
            assert(interfaces[h + 1].1[j].len() == 0);
        }
        packet_size_has_a_default(rest, chip_type, number);
    }
}

} // verus!
