//! Operations that change what a chip and its host know of each other.
//!
//! An operation is a sequence of actions that the caller performs one at a
//! time, reporting how each of them ended. An operation that fails, or is
//! abandoned, half-way leaves the host's record of the chip in doubt: the
//! device then requires recovery.

use std::time::Duration;

use vstd::prelude::*;

use crate::constants::{
    SIO_RESET_REQUEST, SIO_RESET_SIO, SIO_SET_BAUDRATE_REQUEST, SIO_SET_BITMODE_REQUEST,
    SIO_TCIFLUSH, SIO_TCOFLUSH,
};
use crate::control::{out_request, ControlOut};
use crate::device::{opened_device, DeviceView, FtdiDevice};
use crate::error::Error;
use crate::recovery::{RecoveryAction, RecoveryGuard};
use crate::types::{BaudDivisor, BitMode, ChipType, Interface};

verus! {

/// How often the receive buffer is purged to make sure that it is drained.
pub const RX_PURGES: u8 = 6;

/// The baud rate of a device that was just opened.
pub const INITIAL_BAUDRATE: u32 = 9600;

/// Direction mask with which recovery leaves every bitbang mode.
pub const RECOVERY_BITMASK: u8 = 0xFF;

/// A bulk endpoint of the device.
#[derive(Clone, Copy, Debug, PartialEq, Eq, Structural)]
pub enum Pipe {
    Read,
    Write,
}

/// What an operation asks its caller to do.
#[derive(Debug)]
pub enum Action {
    /// Send a control request.
    Send(ControlOut),
    /// Cancel the transfers that are queued on an endpoint and take their
    /// completions, within this time.
    Drain(Pipe, Duration),
    /// Find the clock divisor for a baud rate; answered by
    /// [`Outcome::Divisor`].
    ConvertBaudrate { rate: u32, chip_type: ChipType, index: u16 },
    /// Finish the EEPROM operation that was interrupted.
    FinishEeprom(RecoveryAction),
}

/// How an action ended.
#[derive(Debug)]
pub enum Outcome {
    /// It is done, or it failed.
    Finished(Result<(), Error>),
    /// The divisor for a baud rate, if there is one.
    Divisor(Option<BaudDivisor>),
}

/// The command of the device protocol that is in progress.
#[derive(Debug)]
pub enum Command {
    /// The whole device is being reset.
    Reset { guard: RecoveryGuard },
    /// A bit mode is being set.
    SetBitmode { guard: RecoveryGuard, bitmask: u8, mode: BitMode },
    /// The divisor for `effective` is being looked up, in order to set `baudrate`.
    ConvertBaudrate { baudrate: u32, effective: u32 },
    /// A baud rate is being set.
    SetBaudrate { guard: RecoveryGuard, baudrate: u32 },
    /// The transmit buffer is being purged.
    FlushTx,
    /// A read that is still queued is being drained before the receive buffer
    /// is purged.
    DrainForPurge { guard: RecoveryGuard },
    /// The receive buffer is being purged, and will be `left` times more.
    PurgeRx { guard: RecoveryGuard, left: u8 },
    /// An endpoint is being drained.
    Drain,
    /// An interrupted EEPROM operation is being finished.
    FinishEeprom,
}

/// The configuration that recovery brings back.
#[derive(Clone, Copy, Debug, PartialEq, Eq, Structural)]
pub struct SavedConfig {
    pub baudrate: u32,
    pub bitbang_enabled: bool,
    pub bitbang_mask: u8,
    pub bitbang_mode: BitMode,
}

/// How far recovery has come.
#[derive(Clone, Copy, Debug, PartialEq, Eq, Structural)]
pub enum RecoverStage {
    DrainRead,
    DrainWrite,
    FinishEeprom,
    Reset(SavedConfig),
    LeaveBitmode(SavedConfig),
    RestoreBaudrate(SavedConfig),
    RestoreBitmode,
}

/// What follows the command in progress.
#[derive(Debug)]
pub enum Next {
    /// The operation ends with it.
    Return,
    /// The receive buffer is flushed.
    FlushRx,
    /// The initial baud rate is set.
    Initialize,
    /// Recovery goes on.
    Recover { guard: RecoveryGuard, stage: RecoverStage },
}

/// An operation in progress.
#[derive(Debug)]
pub struct Operation {
    pub command: Command,
    pub next: Next,
}

/// What is to be done next about an operation.
#[derive(Debug)]
pub enum Step {
    /// Perform the action, then hand its outcome to [`FtdiDevice::resume`].
    Perform(Action, Operation),
    /// Nothing: the operation has ended.
    Done(Result<(), Error>),
}

/// What is to be done next about a command.
#[derive(Debug)]
pub enum Progress {
    Going(Action, Command),
    Ended(Result<(), Error>),
}

// ---- Commands ----

/// An armed guard.
pub open spec fn armed() -> RecoveryGuard {
    RecoveryGuard { armed: true }
}

/// The request that resets the whole device, whatever the channel.
pub open spec fn reset_request(device: DeviceView) -> ControlOut {
    out_request(device, SIO_RESET_REQUEST, SIO_RESET_SIO, 0)
}

/// The request that purges the receive buffer.
pub open spec fn purge_rx_request(device: DeviceView) -> ControlOut {
    out_request(device, SIO_RESET_REQUEST, SIO_TCIFLUSH, device.usb_index)
}

/// The request that purges the transmit buffer.
pub open spec fn purge_tx_request(device: DeviceView) -> ControlOut {
    out_request(device, SIO_RESET_REQUEST, SIO_TCOFLUSH, device.usb_index)
}

/// The request that sets a bit mode: the mask in the low byte, the mode above.
pub open spec fn bitmode_request(device: DeviceView, bitmask: u8, mode: BitMode) -> ControlOut {
    out_request(
        device,
        SIO_SET_BITMODE_REQUEST,
        (bitmask + 0x100 * mode.wire()) as u16,
        device.usb_index,
    )
}

/// The request that sets a baud rate.
pub open spec fn baudrate_request(device: DeviceView, divisor: BaudDivisor) -> ControlOut {
    out_request(device, SIO_SET_BAUDRATE_REQUEST, divisor.value, divisor.index)
}

/// `action` and `command`, unless the device requires recovery.
pub open spec fn unless_poisoned(device: DeviceView, action: Action, command: Command) -> Progress {
    if device.recovery_required {
        Progress::Ended(Err(Error::RecoveryRequired))
    } else {
        Progress::Going(action, command)
    }
}

/// How a reset begins.
pub open spec fn reset_begun(device: DeviceView) -> Progress {
    unless_poisoned(device, Action::Send(reset_request(device)), Command::Reset { guard: armed() })
}

/// How setting a bit mode begins.
pub open spec fn bitmode_begun(device: DeviceView, bitmask: u8, mode: BitMode) -> Progress {
    unless_poisoned(
        device,
        Action::Send(bitmode_request(device, bitmask, mode)),
        Command::SetBitmode { guard: armed(), bitmask, mode },
    )
}

/// How flushing the transmit buffer begins.
pub open spec fn flush_tx_begun(device: DeviceView) -> Progress {
    unless_poisoned(device, Action::Send(purge_tx_request(device)), Command::FlushTx)
}

/// How flushing the receive buffer begins.
pub open spec fn flush_rx_begun(device: DeviceView) -> Progress {
    unless_poisoned(
        device,
        Action::Drain(Pipe::Read, device.read_timeout),
        Command::DrainForPurge { guard: armed() },
    )
}

/// The rate that the chip's clock has to run at for `baudrate`: four times as
/// fast in a bitbang mode.
pub open spec fn effective_rate(device: DeviceView, baudrate: u32) -> int {
    if device.bitbang_enabled {
        baudrate * 4
    } else {
        baudrate as int
    }
}

/// How setting a baud rate begins. No chip reaches a rate that does not even fit
/// in 32 bits.
pub open spec fn baudrate_begun(device: DeviceView, baudrate: u32) -> Progress {
    if effective_rate(device, baudrate) > u32::MAX {
        Progress::Ended(Err(Error::InvalidArgument("baud rate is too high")))
    } else {
        Progress::Going(
            Action::ConvertBaudrate {
                rate: effective_rate(device, baudrate) as u32,
                chip_type: device.chip_type,
                index: device.usb_index,
            },
            Command::ConvertBaudrate {
                baudrate,
                effective: effective_rate(device, baudrate) as u32,
            },
        )
    }
}

/// Whether two rates are close enough: neither is more than 5% above the other.
pub open spec fn within_tolerance(a: u32, b: u32) -> bool {
    20 * a <= 21 * b && 20 * b <= 21 * a
}

/// How setting `baudrate` goes on with a divisor for `effective`.
pub open spec fn converted(
    device: DeviceView,
    baudrate: u32,
    effective: u32,
    divisor: Option<BaudDivisor>,
) -> Progress {
    match divisor {
        None => Progress::Ended(Err(Error::InvalidArgument("baud rate must be > 0"))),
        Some(divisor) => if within_tolerance(divisor.actual, effective) {
            unless_poisoned(
                device,
                Action::Send(baudrate_request(device, divisor)),
                Command::SetBaudrate { guard: armed(), baudrate },
            )
        } else {
            Progress::Ended(
                Err(Error::UnsupportedBaudRate { requested: baudrate, actual: divisor.actual }),
            )
        },
    }
}

/// A device after an operation let go of `guard` without completing.
pub open spec fn let_go(device: DeviceView, guard: Option<RecoveryGuard>) -> DeviceView {
    match guard {
        Some(guard) => device.released(guard),
        None => device,
    }
}

impl Command {
    /// The guard that the command holds.
    pub open spec fn guard(self) -> Option<RecoveryGuard> {
        match self {
            Command::Reset { guard } => Some(guard),
            Command::SetBitmode { guard, .. } => Some(guard),
            Command::SetBaudrate { guard, .. } => Some(guard),
            Command::DrainForPurge { guard } => Some(guard),
            Command::PurgeRx { guard, .. } => Some(guard),
            _ => None,
        }
    }
}

/// How purging the receive buffer goes on, with `count` purges to be sent.
pub open spec fn purging(device: DeviceView, guard: RecoveryGuard, count: u8) -> (
    DeviceView,
    Progress,
) {
    if device.recovery_required {
        (device, Progress::Ended(Err(Error::RecoveryRequired)))
    } else {
        (
            device,
            Progress::Going(
                Action::Send(purge_rx_request(device)),
                Command::PurgeRx { guard, left: (count - 1) as u8 },
            ),
        )
    }
}

/// How a command goes on once its action is done.
pub open spec fn completed(device: DeviceView, command: Command) -> (DeviceView, Progress) {
    match command {
        Command::Reset { .. } => (
            device.input_discarded().epoch_bumped(),
            Progress::Ended(Ok(())),
        ),
        Command::SetBitmode { bitmask, mode, .. } => (
            device.with_bitmode(bitmask, mode).epoch_bumped(),
            Progress::Ended(Ok(())),
        ),
        Command::SetBaudrate { baudrate, .. } => (
            device.with_baudrate(baudrate),
            Progress::Ended(Ok(())),
        ),
        Command::DrainForPurge { guard } => purging(device, guard, RX_PURGES),
        Command::PurgeRx { guard, left } => if left > 0 {
            purging(device, guard, left)
        } else {
            (device.input_discarded(), Progress::Ended(Ok(())))
        },
        _ => (device, Progress::Ended(Ok(()))),
    }
}

/// Whether `outcome` is an answer to the action of `command`.
pub open spec fn answers(outcome: Outcome, command: Command) -> bool {
    outcome is Divisor <==> command is ConvertBaudrate
}

/// How a command goes on, with an outcome that [`answers`] it.
pub open spec fn progressed(device: DeviceView, command: Command, outcome: Outcome) -> (
    DeviceView,
    Progress,
) {
    match outcome {
        Outcome::Finished(Ok(())) => completed(device, command),
        Outcome::Finished(Err(error)) => (
            let_go(device, command.guard()),
            Progress::Ended(Err(error)),
        ),
        Outcome::Divisor(divisor) => match command {
            Command::ConvertBaudrate { baudrate, effective } => (
                device,
                converted(device, baudrate, effective, divisor),
            ),
            _ => completed(device, command),
        },
    }
}

impl FtdiDevice {
    fn begin_reset(&self) -> (progress: Progress)
        ensures
            progress == reset_begun(self@),
    {
        let guard = match self.begin_stateful_operation() {
            Ok(guard) => guard,
            Err(error) => return Progress::Ended(Err(error)),
        };
        // Always index 0: a full device reset, not that of a channel.
        match self.control_out(SIO_RESET_REQUEST, SIO_RESET_SIO, 0) {
            Ok(request) => Progress::Going(Action::Send(request), Command::Reset { guard }),
            Err(error) => Progress::Ended(Err(error)),
        }
    }

    fn begin_bitmode(&self, bitmask: u8, mode: BitMode) -> (progress: Progress)
        ensures
            progress == bitmode_begun(self@, bitmask, mode),
    {
        let guard = match self.begin_stateful_operation() {
            Ok(guard) => guard,
            Err(error) => return Progress::Ended(Err(error)),
        };
        let low: u16 = bitmask as u16;
        let high: u16 = mode.wire_value() as u16;
        let value: u16 = low | (high << 8);
        assert(low | (high << 8) == low + 0x100 * high) by (bit_vector)
            requires
                low <= 0xFF,
                high <= 0xFF,
        ;
        match self.control_out(SIO_SET_BITMODE_REQUEST, value, self.usb_index()) {
            Ok(request) => Progress::Going(
                Action::Send(request),
                Command::SetBitmode { guard, bitmask, mode },
            ),
            Err(error) => Progress::Ended(Err(error)),
        }
    }

    fn begin_flush_tx(&self) -> (progress: Progress)
        ensures
            progress == flush_tx_begun(self@),
    {
        match self.flush_tx() {
            Ok(request) => Progress::Going(Action::Send(request), Command::FlushTx),
            Err(error) => Progress::Ended(Err(error)),
        }
    }

    fn begin_flush_rx(&self) -> (progress: Progress)
        ensures
            progress == flush_rx_begun(self@),
    {
        match self.begin_stateful_operation() {
            Ok(guard) => Progress::Going(
                Action::Drain(Pipe::Read, self.read_timeout()),
                Command::DrainForPurge { guard },
            ),
            Err(error) => Progress::Ended(Err(error)),
        }
    }

    fn begin_baudrate(&self, baudrate: u32) -> (progress: Progress)
        ensures
            progress == baudrate_begun(self@, baudrate),
    {
        let effective: u32 = if self.bitbang_enabled() {
            match baudrate.checked_mul(4) {
                Some(effective) => effective,
                None => return Progress::Ended(
                    Err(Error::InvalidArgument("baud rate is too high")),
                ),
            }
        } else {
            baudrate
        };
        Progress::Going(
            Action::ConvertBaudrate {
                rate: effective,
                chip_type: self.chip_type(),
                index: self.usb_index(),
            },
            Command::ConvertBaudrate { baudrate, effective },
        )
    }

    fn divisor_found(&self, baudrate: u32, effective: u32, divisor: Option<BaudDivisor>) -> (
        progress: Progress)
        ensures
            progress == converted(self@, baudrate, effective, divisor),
    {
        let divisor = match divisor {
            Some(divisor) => divisor,
            None => return Progress::Ended(Err(Error::InvalidArgument("baud rate must be > 0"))),
        };
        let actual: u32 = divisor.actual;
        let off: bool = if actual < effective {
            (actual as u64) * 21 < (effective as u64) * 20
        } else {
            (effective as u64) * 21 < (actual as u64) * 20
        };
        if (actual as u64) * 2 < effective as u64 || off {
            return Progress::Ended(
                Err(Error::UnsupportedBaudRate { requested: baudrate, actual }),
            );
        }
        let guard = match self.begin_stateful_operation() {
            Ok(guard) => guard,
            Err(error) => return Progress::Ended(Err(error)),
        };
        match self.control_out(SIO_SET_BAUDRATE_REQUEST, divisor.value, divisor.index) {
            Ok(request) => Progress::Going(
                Action::Send(request),
                Command::SetBaudrate { guard, baudrate },
            ),
            Err(error) => Progress::Ended(Err(error)),
        }
    }

    fn send_purge(&mut self, guard: RecoveryGuard, count: u8) -> (progress: Progress)
        requires
            old(self).wf(),
            count > 0,
        ensures
            final(self).wf(),
            (final(self)@, progress) == purging(old(self)@, guard, count),
    {
        match self.control_out(SIO_RESET_REQUEST, SIO_TCIFLUSH, self.usb_index()) {
            Ok(request) => Progress::Going(
                Action::Send(request),
                Command::PurgeRx { guard, left: count - 1 },
            ),
            Err(error) => {
                self.release(guard);
                Progress::Ended(Err(error))
            },
        }
    }

    fn drop_command(&mut self, command: Command)
        requires
            old(self).wf(),
        ensures
            final(self).wf(),
            final(self)@ == let_go(old(self)@, command.guard()),
    {
        match command {
            Command::Reset { guard } => self.release(guard),
            Command::SetBitmode { guard, .. } => self.release(guard),
            Command::SetBaudrate { guard, .. } => self.release(guard),
            Command::DrainForPurge { guard } => self.release(guard),
            Command::PurgeRx { guard, .. } => self.release(guard),
            _ => {},
        }
    }

    fn complete_command(&mut self, command: Command) -> (progress: Progress)
        requires
            old(self).wf(),
        ensures
            final(self).wf(),
            (final(self)@, progress) == completed(old(self)@, command),
    {
        match command {
            Command::Reset { guard } => {
                self.discard_input();
                self.bump_recovery_epoch();
                self.complete(guard);
                Progress::Ended(Ok(()))
            },
            Command::SetBitmode { guard, bitmask, mode } => {
                self.record_bitmode(bitmask, mode);
                self.bump_recovery_epoch();
                self.complete(guard);
                Progress::Ended(Ok(()))
            },
            Command::SetBaudrate { guard, baudrate } => {
                self.record_baudrate(baudrate);
                self.complete(guard);
                Progress::Ended(Ok(()))
            },
            Command::DrainForPurge { guard } => self.send_purge(guard, RX_PURGES),
            Command::PurgeRx { guard, left } => {
                if left > 0 {
                    self.send_purge(guard, left)
                } else {
                    self.discard_input();
                    self.complete(guard);
                    Progress::Ended(Ok(()))
                }
            },
            _ => Progress::Ended(Ok(())),
        }
    }

    fn continue_command(&mut self, command: Command, outcome: Outcome) -> (progress: Progress)
        requires
            old(self).wf(),
        ensures
            final(self).wf(),
            (final(self)@, progress) == progressed(old(self)@, command, outcome),
    {
        match outcome {
            Outcome::Finished(Ok(())) => self.complete_command(command),
            Outcome::Finished(Err(error)) => {
                self.drop_command(command);
                Progress::Ended(Err(error))
            },
            Outcome::Divisor(divisor) => match command {
                Command::ConvertBaudrate { baudrate, effective } => self.divisor_found(
                    baudrate,
                    effective,
                    divisor,
                ),
                command => self.complete_command(command),
            },
        }
    }
}

// ---- Operations ----

impl Next {
    /// The guard of the operation as a whole.
    pub open spec fn guard(self) -> Option<RecoveryGuard> {
        match self {
            Next::Recover { guard, .. } => Some(guard),
            _ => None,
        }
    }
}

/// How an operation goes on with a command that has just begun. If the command
/// was refused, so is the operation.
pub open spec fn launched(device: DeviceView, progress: Progress, next: Next) -> (
    DeviceView,
    Step,
) {
    match progress {
        Progress::Going(action, command) => (
            device,
            Step::Perform(action, Operation { command, next }),
        ),
        Progress::Ended(result) => (let_go(device, next.guard()), Step::Done(result)),
    }
}

/// The configuration that recovery of `device` brings back.
pub open spec fn saved_config(device: DeviceView) -> SavedConfig {
    SavedConfig {
        baudrate: device.baudrate,
        bitbang_enabled: device.bitbang_enabled,
        bitbang_mask: device.bitbang_mask,
        bitbang_mode: device.bitbang_mode,
    }
}

/// The rest of recovery once the baud rate is restored.
pub open spec fn baudrate_restored(
    device: DeviceView,
    guard: RecoveryGuard,
    saved: SavedConfig,
) -> (DeviceView, Step) {
    if saved.bitbang_enabled {
        launched(
            device,
            bitmode_begun(device, saved.bitbang_mask, saved.bitbang_mode),
            Next::Recover { guard, stage: RecoverStage::RestoreBitmode },
        )
    } else {
        (device.epoch_bumped().poisoned(false), Step::Done(Ok(())))
    }
}

/// How recovery goes on once a stage is done.
pub open spec fn recovered(device: DeviceView, guard: RecoveryGuard, stage: RecoverStage) -> (
    DeviceView,
    Step,
) {
    match stage {
        RecoverStage::DrainRead => launched(
            device,
            Progress::Going(
                Action::Drain(Pipe::Write, device.write_timeout),
                Command::Drain,
            ),
            Next::Recover { guard, stage: RecoverStage::DrainWrite },
        ),
        RecoverStage::DrainWrite => launched(
            device,
            Progress::Going(
                Action::FinishEeprom(device.recovery_action),
                Command::FinishEeprom,
            ),
            Next::Recover { guard, stage: RecoverStage::FinishEeprom },
        ),
        RecoverStage::FinishEeprom => launched(
            device,
            reset_begun(device),
            Next::Recover { guard, stage: RecoverStage::Reset(saved_config(device)) },
        ),
        RecoverStage::Reset(saved) => launched(
            device,
            bitmode_begun(device, RECOVERY_BITMASK, BitMode::Reset),
            Next::Recover { guard, stage: RecoverStage::LeaveBitmode(saved) },
        ),
        RecoverStage::LeaveBitmode(saved) => if saved.baudrate > 0 {
            launched(
                device,
                baudrate_begun(device, saved.baudrate),
                Next::Recover { guard, stage: RecoverStage::RestoreBaudrate(saved) },
            )
        } else {
            baudrate_restored(device, guard, saved)
        },
        RecoverStage::RestoreBaudrate(saved) => baudrate_restored(device, guard, saved),
        RecoverStage::RestoreBitmode => (
            device.epoch_bumped().poisoned(false),
            Step::Done(Ok(())),
        ),
    }
}

/// How an operation goes on once its command has ended well.
pub open spec fn followed(device: DeviceView, next: Next) -> (DeviceView, Step) {
    match next {
        Next::Return => (device, Step::Done(Ok(()))),
        Next::FlushRx => launched(device, flush_rx_begun(device), Next::Return),
        Next::Initialize => launched(
            device,
            baudrate_begun(device, INITIAL_BAUDRATE),
            Next::Return,
        ),
        Next::Recover { guard, stage } => recovered(device, guard, stage),
    }
}

/// How an operation goes on after `outcome`.
pub open spec fn resumed(device: DeviceView, operation: Operation, outcome: Outcome) -> (
    DeviceView,
    Step,
) {
    let (device, progress) = progressed(device, operation.command, outcome);
    match progress {
        Progress::Ended(Ok(())) => followed(device, operation.next),
        progress => launched(device, progress, operation.next),
    }
}

/// A device after `operation` was dropped before it was done.
pub open spec fn abandoned(device: DeviceView, operation: Operation) -> DeviceView {
    let_go(let_go(device, operation.command.guard()), operation.next.guard())
}

impl Action {
    /// Whether this is the kind of action that `command` is waiting for.
    pub open spec fn suits(self, command: Command) -> bool {
        match command {
            Command::ConvertBaudrate { .. } => self is ConvertBaudrate,
            Command::DrainForPurge { .. } | Command::Drain => self is Drain,
            Command::FinishEeprom => self is FinishEeprom,
            _ => self is Send,
        }
    }
}

impl Operation {
    /// Its guards are armed, and its command is one that comes before `next`.
    pub open spec fn wf(self) -> bool {
        &&& self.command.guard() matches Some(guard) ==> guard.armed
        &&& self.next.guard() matches Some(guard) ==> guard.armed
        &&& self.command matches Command::PurgeRx { left, .. } ==> left < RX_PURGES
        &&& match self.next {
            Next::Return => !(self.command is Drain || self.command is FinishEeprom),
            Next::FlushRx => self.command is FlushTx,
            Next::Initialize => self.command is Reset,
            Next::Recover { stage, .. } => match stage {
                RecoverStage::DrainRead | RecoverStage::DrainWrite => self.command is Drain,
                RecoverStage::FinishEeprom => self.command is FinishEeprom,
                RecoverStage::Reset(_) => self.command is Reset,
                RecoverStage::LeaveBitmode(_) => {
                    self.command matches Command::SetBitmode { mode, .. } && mode == BitMode::Reset
                },
                RecoverStage::RestoreBaudrate(_) => self.command is ConvertBaudrate
                    || self.command is SetBaudrate,
                RecoverStage::RestoreBitmode => self.command is SetBitmode,
            },
        }
    }
}

impl Step {
    /// The operation to go on with, if any, is in order.
    pub open spec fn wf(self) -> bool {
        self matches Step::Perform(action, operation) ==> operation.wf() && action.suits(
            operation.command,
        )
    }
}

impl FtdiDevice {
    fn drop_next(&mut self, next: Next)
        requires
            old(self).wf(),
        ensures
            final(self).wf(),
            final(self)@ == let_go(old(self)@, next.guard()),
    {
        match next {
            Next::Recover { guard, .. } => self.release(guard),
            _ => {},
        }
    }

    fn launch(&mut self, progress: Progress, next: Next) -> (step: Step)
        requires
            old(self).wf(),
        ensures
            final(self).wf(),
            (final(self)@, step) == launched(old(self)@, progress, next),
    {
        match progress {
            Progress::Going(action, command) => Step::Perform(action, Operation { command, next }),
            Progress::Ended(result) => {
                self.drop_next(next);
                Step::Done(result)
            },
        }
    }

    fn finish_recovery(&mut self, guard: RecoveryGuard) -> (step: Step)
        requires
            old(self).wf(),
        ensures
            final(self).wf(),
            (final(self)@, step) == (
                old(self)@.epoch_bumped().poisoned(false),
                Step::Done(Ok(())),
            ),
    {
        self.bump_recovery_epoch();
        self.prepare_stateful_cleanup();
        self.complete(guard);
        Step::Done(Ok(()))
    }

    fn restore_bitmode(&mut self, guard: RecoveryGuard, saved: SavedConfig) -> (step: Step)
        requires
            old(self).wf(),
        ensures
            final(self).wf(),
            (final(self)@, step) == baudrate_restored(old(self)@, guard, saved),
    {
        if saved.bitbang_enabled {
            let progress = self.begin_bitmode(saved.bitbang_mask, saved.bitbang_mode);
            self.launch(progress, Next::Recover { guard, stage: RecoverStage::RestoreBitmode })
        } else {
            self.finish_recovery(guard)
        }
    }

    fn continue_recovery(&mut self, guard: RecoveryGuard, stage: RecoverStage) -> (step: Step)
        requires
            old(self).wf(),
        ensures
            final(self).wf(),
            (final(self)@, step) == recovered(old(self)@, guard, stage),
    {
        match stage {
            RecoverStage::DrainRead => {
                let action = Action::Drain(Pipe::Write, self.write_timeout());
                self.launch(
                    Progress::Going(action, Command::Drain),
                    Next::Recover { guard, stage: RecoverStage::DrainWrite },
                )
            },
            // An interrupted EEPROM operation is finished before the volatile
            // configuration is restored. It remains recorded until it is done.
            RecoverStage::DrainWrite => {
                let action = Action::FinishEeprom(self.recovery_action());
                self.launch(
                    Progress::Going(action, Command::FinishEeprom),
                    Next::Recover { guard, stage: RecoverStage::FinishEeprom },
                )
            },
            RecoverStage::FinishEeprom => {
                let (bitbang_mask, bitbang_mode) = self.bitmode();
                let saved = SavedConfig {
                    baudrate: self.baudrate(),
                    bitbang_enabled: self.bitbang_enabled(),
                    bitbang_mask,
                    bitbang_mode,
                };
                let progress = self.begin_reset();
                self.launch(progress, Next::Recover { guard, stage: RecoverStage::Reset(saved) })
            },
            // The reset does not reliably leave synchronous FIFO or bitbang
            // mode, so the pins are returned to reset mode explicitly.
            RecoverStage::Reset(saved) => {
                let progress = self.begin_bitmode(RECOVERY_BITMASK, BitMode::Reset);
                self.launch(
                    progress,
                    Next::Recover { guard, stage: RecoverStage::LeaveBitmode(saved) },
                )
            },
            RecoverStage::LeaveBitmode(saved) => {
                if saved.baudrate > 0 {
                    let progress = self.begin_baudrate(saved.baudrate);
                    self.launch(
                        progress,
                        Next::Recover { guard, stage: RecoverStage::RestoreBaudrate(saved) },
                    )
                } else {
                    self.restore_bitmode(guard, saved)
                }
            },
            RecoverStage::RestoreBaudrate(saved) => self.restore_bitmode(guard, saved),
            RecoverStage::RestoreBitmode => self.finish_recovery(guard),
        }
    }

    /// Go on with an operation whose action has ended.
    pub fn resume(&mut self, operation: Operation, outcome: Outcome) -> (step: Step)
        requires
            old(self).wf(),
            answers(outcome, operation.command),
            operation.wf(),
        ensures
            final(self).wf(),
            step.wf(),
            (final(self)@, step) == resumed(old(self)@, operation, outcome),
    {
        let Operation { command, next } = operation;
        let progress = self.continue_command(command, outcome);
        match progress {
            Progress::Ended(Ok(())) => match next {
                Next::Return => Step::Done(Ok(())),
                Next::FlushRx => {
                    let progress = self.begin_flush_rx();
                    self.launch(progress, Next::Return)
                },
                Next::Initialize => {
                    let progress = self.begin_baudrate(INITIAL_BAUDRATE);
                    self.launch(progress, Next::Return)
                },
                Next::Recover { guard, stage } => self.continue_recovery(guard, stage),
            },
            progress => self.launch(progress, next),
        }
    }

    /// Drop an operation before it is done. If it could leave the device in
    /// doubt, the device requires recovery.
    pub fn abandon(&mut self, operation: Operation)
        requires
            old(self).wf(),
        ensures
            final(self).wf(),
            final(self)@ == abandoned(old(self)@, operation),
    {
        self.drop_command(operation.command);
        self.drop_next(operation.next);
    }
}

// ---- Reset and flush ----

impl FtdiDevice {
    /// Perform a USB reset on the device.
    ///
    /// The input that is held is invalidated. The request goes to the device
    /// as a whole, not to a channel.
    pub fn usb_reset(&mut self) -> (step: Step)
        requires
            old(self).wf(),
        ensures
            final(self).wf(),
            step.wf(),
            (final(self)@, step) == launched(old(self)@, reset_begun(old(self)@), Next::Return),
    {
        let progress = self.begin_reset();
        self.launch(progress, Next::Return)
    }

    /// Flush the receive (RX) buffer of the chip and the input that is held.
    ///
    /// A read that is still queued is drained first, so that bytes from before
    /// the flush cannot be resumed afterward. The purge command is then sent
    /// [`RX_PURGES`] times to make sure that the FIFO is drained.
    pub fn flush_rx(&mut self) -> (step: Step)
        requires
            old(self).wf(),
        ensures
            final(self).wf(),
            step.wf(),
            (final(self)@, step) == launched(
                old(self)@,
                flush_rx_begun(old(self)@),
                Next::Return,
            ),
    {
        let progress = self.begin_flush_rx();
        self.launch(progress, Next::Return)
    }

    /// Flush both RX and TX buffers: TX first, then RX.
    pub fn flush_all(&mut self) -> (step: Step)
        requires
            old(self).wf(),
        ensures
            final(self).wf(),
            step.wf(),
            (final(self)@, step) == launched(
                old(self)@,
                flush_tx_begun(old(self)@),
                Next::FlushRx,
            ),
    {
        let progress = self.begin_flush_tx();
        self.launch(progress, Next::FlushRx)
    }

    /// Clean up before the device is dropped, as far as that works.
    pub fn shutdown(&mut self) -> (step: Step)
        requires
            old(self).wf(),
        ensures
            final(self).wf(),
            step.wf(),
            (final(self)@, step) == launched(
                old(self)@,
                flush_tx_begun(old(self)@),
                Next::FlushRx,
            ),
    {
        self.flush_all()
    }
}

// ---- Baud rate and bit mode ----

impl FtdiDevice {
    /// Set the baud rate.
    ///
    /// The rate achieved is determined by the chip's clock divider. It is an
    /// error if it deviates from the requested one by more than 5%. In a
    /// bitbang mode the clock runs at four times the baud rate; a rate whose
    /// fourfold does not fit in 32 bits is refused at once.
    pub fn set_baudrate(&mut self, baudrate: u32) -> (step: Step)
        requires
            old(self).wf(),
        ensures
            final(self).wf(),
            step.wf(),
            (final(self)@, step) == launched(
                old(self)@,
                baudrate_begun(old(self)@, baudrate),
                Next::Return,
            ),
    {
        let progress = self.begin_baudrate(baudrate);
        self.launch(progress, Next::Return)
    }

    /// Enable a bitbang or MPSSE mode.
    pub fn set_bitmode(&mut self, bitmask: u8, mode: BitMode) -> (step: Step)
        requires
            old(self).wf(),
        ensures
            final(self).wf(),
            step.wf(),
            (final(self)@, step) == launched(
                old(self)@,
                bitmode_begun(old(self)@, bitmask, mode),
                Next::Return,
            ),
    {
        let progress = self.begin_bitmode(bitmask, mode);
        self.launch(progress, Next::Return)
    }

    /// Disable bitbang mode and return to normal serial/FIFO operation.
    pub fn disable_bitbang(&mut self) -> (step: Step)
        requires
            old(self).wf(),
        ensures
            final(self).wf(),
            step.wf(),
            (final(self)@, step) == launched(
                old(self)@,
                bitmode_begun(old(self)@, 0, BitMode::Reset),
                Next::Return,
            ),
    {
        self.set_bitmode(0, BitMode::Reset)
    }
}

// ---- Opening and recovery ----

impl FtdiDevice {
    /// Open a device: its state, and the first step of bringing it to its
    /// initial configuration. The arguments are those of
    /// [`from_open_device`](Self::from_open_device).
    pub fn from_device_info(
        bcd_device: u16,
        has_serial: bool,
        configuration: Option<&[u8]>,
        iface: Interface,
        device_id: u64,
    ) -> (opened: (FtdiDevice, Step))
        ensures
            opened.0.wf(),
            opened.1.wf(),
            opened.0@ == opened_device(bcd_device, has_serial, configuration, iface, device_id),
            opened.1 == launched(
                opened.0@,
                reset_begun(opened.0@),
                Next::Initialize,
            ).1,
    {
        let mut device = FtdiDevice::from_open_device(
            bcd_device,
            has_serial,
            configuration,
            iface,
            device_id,
        );
        let step = device.initialize();
        (device, step)
    }

    /// Open a device that a browser's device picker gave, as
    /// [`from_device_info`](Self::from_device_info) does.
    pub fn open_wasm(
        bcd_device: u16,
        has_serial: bool,
        configuration: Option<&[u8]>,
        iface: Interface,
        device_id: u64,
    ) -> (opened: (FtdiDevice, Step))
        ensures
            opened.0.wf(),
            opened.1.wf(),
            opened.0@ == opened_device(bcd_device, has_serial, configuration, iface, device_id),
            opened.1 == launched(
                opened.0@,
                reset_begun(opened.0@),
                Next::Initialize,
            ).1,
    {
        FtdiDevice::from_device_info(bcd_device, has_serial, configuration, iface, device_id)
    }

    /// Bring a device that was just opened to its initial configuration: reset
    /// it, then set [`INITIAL_BAUDRATE`].
    pub fn initialize(&mut self) -> (step: Step)
        requires
            old(self).wf(),
        ensures
            final(self).wf(),
            step.wf(),
            (final(self)@, step) == launched(
                old(self)@,
                reset_begun(old(self)@),
                Next::Initialize,
            ),
    {
        let progress = self.begin_reset();
        self.launch(progress, Next::Initialize)
    }

    /// Attempt to recover from an interrupted or failed operation.
    ///
    /// Queued transfers are cancelled and drained, an interrupted EEPROM
    /// operation is finished, the device is reset, and its configuration is
    /// restored. Recovery is the only operation that a device which requires
    /// recovery accepts; if it fails or is abandoned, the device still
    /// requires it.
    pub fn recover(&mut self) -> (step: Step)
        requires
            old(self).wf(),
        ensures
            final(self).wf(),
            step.wf(),
            final(self)@ == old(self)@.poisoned(false),
            step == Step::Perform(
                Action::Drain(Pipe::Read, old(self)@.read_timeout),
                (Operation {
                    command: Command::Drain,
                    next: Next::Recover { guard: armed(), stage: RecoverStage::DrainRead },
                }),
            ),
    {
        let guard = RecoveryGuard::new();
        self.prepare_stateful_cleanup();
        Step::Perform(
            Action::Drain(Pipe::Read, self.read_timeout()),
            Operation {
                command: Command::Drain,
                next: Next::Recover { guard, stage: RecoverStage::DrainRead },
            },
        )
    }
}

} // verus!
