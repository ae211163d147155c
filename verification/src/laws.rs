//! What holds of operations as a whole.

use vstd::prelude::*;

use crate::control::gated;
use crate::device::DeviceView;
use crate::error::Error;
use crate::operation::{
    abandoned, answers, armed, baudrate_begun, baudrate_request, bitmode_begun, bitmode_request,
    effective_rate, flush_rx_begun, flush_tx_begun, launched, purge_rx_request,
    purge_tx_request, reset_begun, reset_request, resumed, Action, Command, Next,
    Operation, Outcome, Pipe, RecoverStage, Step, INITIAL_BAUDRATE, RECOVERY_BITMASK,
    RX_PURGES,
};
use crate::recovery::{counter_after, device_ids_are_unique, RecoveryAction};
use crate::transfer::read_at_once;
use crate::types::{BaudDivisor, BitMode};

verus! {

// ---- Every step ----

/// Whether an operation leaves the device in doubt if it does not complete.
pub open spec fn guarded(operation: Operation) -> bool {
    operation.command.guard() is Some || operation.next.guard() is Some
}

/// A device that requires recovery is sent nothing: every request and every read
/// is refused, every operation but recovery ends at once with
/// [`Error::RecoveryRequired`], and nothing changes. Setting a baud rate is
/// refused once the rate is known to be one that the chip supports.
pub proof fn poisoned_device_refuses<T>(
    device: DeviceView,
    request: T,
    bitmask: u8,
    mode: BitMode,
    baudrate: u32,
    effective: u32,
    divisor: BaudDivisor,
    len: usize,
    packet_size: usize,
    pending: usize,
)
    requires
        device.recovery_required,
        20 * divisor.actual <= 21 * effective,
        20 * effective <= 21 * divisor.actual,
    ensures
        gated(device, request) == Err::<T, Error>(Error::RecoveryRequired),
        read_at_once(device, len, packet_size, pending) == Some(
            Err::<usize, Error>(Error::RecoveryRequired),
        ),
        launched(device, reset_begun(device), Next::Return) == (
            device,
            Step::Done(Err(Error::RecoveryRequired)),
        ),
        launched(device, reset_begun(device), Next::Initialize) == (
            device,
            Step::Done(Err(Error::RecoveryRequired)),
        ),
        launched(device, flush_rx_begun(device), Next::Return) == (
            device,
            Step::Done(Err(Error::RecoveryRequired)),
        ),
        launched(device, flush_tx_begun(device), Next::FlushRx) == (
            device,
            Step::Done(Err(Error::RecoveryRequired)),
        ),
        launched(device, bitmode_begun(device, bitmask, mode), Next::Return) == (
            device,
            Step::Done(Err(Error::RecoveryRequired)),
        ),
        resumed(
            device,
            Operation {
                command: Command::ConvertBaudrate { baudrate, effective },
                next: Next::Return,
            },
            Outcome::Divisor(Some(divisor)),
        ) == (device, Step::Done(Err(Error::RecoveryRequired))),
{
}

/// An operation whose action fails ends with that error, just as if it had been
/// abandoned: the device requires recovery if the operation was a stateful one,
/// and nothing else changes.
pub proof fn failure_requires_recovery(device: DeviceView, operation: Operation, error: Error)
    requires
        operation.wf(),
    ensures
        resumed(device, operation, Outcome::Finished(Err(error))) == (
            abandoned(device, operation),
            Step::Done(Err(error)),
        ),
        abandoned(device, operation) == device.poisoned(
            device.recovery_required || guarded(operation),
        ),
{
}

/// An operation that ends has decided whether the device requires recovery. If
/// a stateful operation fails, it does. If an operation ends well, it does not,
/// unless it did before and the operation is not recovery.
pub proof fn ending_decides(device: DeviceView, operation: Operation, outcome: Outcome)
    requires
        operation.wf(),
        answers(outcome, operation.command),
    ensures
        ({
            let (after, step) = resumed(device, operation, outcome);
            &&& step matches Step::Done(Err(_)) ==> guarded(operation) ==> after.recovery_required
            &&& step matches Step::Done(Ok(_)) ==> after.recovery_required == (
            device.recovery_required && !(operation.next is Recover))
        }),
{
}

/// Only recovery makes a device that requires recovery ready again.
pub proof fn only_recovery_clears(device: DeviceView, operation: Operation, outcome: Outcome)
    requires
        operation.wf(),
        answers(outcome, operation.command),
        device.recovery_required,
        !(operation.next is Recover),
    ensures
        resumed(device, operation, outcome).0.recovery_required,
{
}

/// Operations touch the baud rate, the bit mode, the held input, the epoch and
/// the need for recovery. Everything else that a device knows stays as it is;
/// in particular an interrupted EEPROM operation stays recorded.
pub proof fn operations_keep_the_rest(device: DeviceView, operation: Operation, outcome: Outcome)
    ensures
        ({
            let after = resumed(device, operation, outcome).0;
            after == DeviceView {
                baudrate: after.baudrate,
                bitbang_enabled: after.bitbang_enabled,
                bitbang_mode: after.bitbang_mode,
                bitbang_mask: after.bitbang_mask,
                input: after.input,
                recovery_required: after.recovery_required,
                recovery_epoch: after.recovery_epoch,
                ..device
            }
        }),
{
}

/// How many actions `operation` performs at most, the present one included.
pub open spec fn actions_left(operation: Operation) -> nat {
    let now: nat = match operation.command {
        Command::DrainForPurge { .. } => (RX_PURGES + 1) as nat,
        Command::PurgeRx { left, .. } => (left + 1) as nat,
        Command::ConvertBaudrate { .. } => 2,
        _ => 1,
    };
    let later: nat = match operation.next {
        Next::Return => 0,
        Next::FlushRx => (RX_PURGES + 1) as nat,
        Next::Initialize => 2,
        Next::Recover { stage, .. } => match stage {
            RecoverStage::DrainRead => 7,
            RecoverStage::DrainWrite => 6,
            RecoverStage::FinishEeprom => 5,
            RecoverStage::Reset(_) => 4,
            RecoverStage::LeaveBitmode(_) => 3,
            RecoverStage::RestoreBaudrate(_) => 1,
            RecoverStage::RestoreBitmode => 0,
        },
    };
    now + later
}

/// Every operation ends: each step leaves fewer actions to perform, and there
/// are never more than eight.
pub proof fn operations_end(device: DeviceView, operation: Operation, outcome: Outcome)
    requires
        operation.wf(),
        answers(outcome, operation.command),
    ensures
        actions_left(operation) <= 8,
        resumed(device, operation, outcome).1 matches Step::Perform(_, rest) ==> actions_left(rest)
            < actions_left(operation),
{
}

// ---- Whole runs ----

/// A device after the caller performed `action`. Finishing an EEPROM operation
/// settles what is left of it to recover; no other action touches the device.
pub open spec fn performed(device: DeviceView, action: Action, left: RecoveryAction) -> DeviceView {
    if action is FinishEeprom {
        DeviceView { recovery_action: left, ..device }
    } else {
        device
    }
}

/// A run of an operation from `step` on, in which the actions end as `outcomes`
/// say: the device and the step at its end, and the actions performed.
#[verifier::opaque]
pub open spec fn run(
    device: DeviceView,
    step: Step,
    outcomes: Seq<Outcome>,
    left: RecoveryAction,
) -> (DeviceView, Step, Seq<Action>)
    decreases outcomes.len(),
{
    if outcomes.len() == 0 {
        (device, step, Seq::empty())
    } else {
        match step {
            Step::Perform(action, operation) => {
                let (device, step) = resumed(
                    performed(device, action, left),
                    operation,
                    outcomes[0],
                );
                let (device, step, actions) = run(device, step, outcomes.skip(1), left);
                (device, step, seq![action] + actions)
            },
            Step::Done(_) => (device, step, Seq::empty()),
        }
    }
}

/// The outcomes of `n` actions that all succeed.
pub open spec fn successes(n: nat) -> Seq<Outcome> {
    Seq::new(n, |i: int| Outcome::Finished(Ok(())))
}

/// A run goes on with a run of the rest.
proof fn lemma_run_step(
    device: DeviceView,
    action: Action,
    operation: Operation,
    outcome: Outcome,
    rest: Seq<Outcome>,
    left: RecoveryAction,
)
    ensures
        ({
            let (next_device, next_step) = resumed(
                performed(device, action, left),
                operation,
                outcome,
            );
            let (after, end, actions) = run(next_device, next_step, rest, left);
            run(device, Step::Perform(action, operation), seq![outcome] + rest, left) == (
                after,
                end,
                seq![action] + actions,
            )
        }),
{
    reveal_with_fuel(run, 2);
    assert((seq![outcome] + rest).skip(1) =~= rest);
}

/// A reset sends one request. It invalidates the held input and every MPSSE
/// context.
pub proof fn reset_runs(device: DeviceView, left: RecoveryAction)
    requires
        !device.recovery_required,
    ensures
        run(
            device,
            launched(device, reset_begun(device), Next::Return).1,
            successes(1),
            left,
        ) == (
            device.input_discarded().epoch_bumped(),
            Step::Done(Ok(())),
            seq![Action::Send(reset_request(device))],
        ),
{
    reveal_with_fuel(run, 3);
    assert(run(
        device,
        launched(device, reset_begun(device), Next::Return).1,
        successes(1),
        left,
    ).2 =~= seq![Action::Send(reset_request(device))]);
}

/// The actions of a flush of the receive buffer: the drain, then six purges.
pub open spec fn flush_rx_actions(device: DeviceView) -> Seq<Action> {
    seq![Action::Drain(Pipe::Read, device.read_timeout)] + Seq::new(
        RX_PURGES as nat,
        |i: int| Action::Send(purge_rx_request(device)),
    )
}

/// A purge with `left` more to come ends with the held input discarded, after
/// one request for each purge.
proof fn lemma_purges_run(device: DeviceView, left: u8, action: RecoveryAction)
    requires
        !device.recovery_required,
    ensures
        run(
            device,
            Step::Perform(
                Action::Send(purge_rx_request(device)),
                Operation {
                    command: Command::PurgeRx { guard: armed(), left },
                    next: Next::Return,
                },
            ),
            successes((left + 1) as nat),
            action,
        ) == (
            device.input_discarded(),
            Step::Done(Ok(())),
            Seq::new((left + 1) as nat, |i: int| Action::Send(purge_rx_request(device))),
        ),
    decreases left,
{
    let outcomes = successes((left + 1) as nat);
    assert(outcomes.skip(1) =~= successes(left as nat));
    if left > 0 {
        lemma_purges_run(device, (left - 1) as u8, action);
    }
    let actions = run(
        device,
        Step::Perform(
            Action::Send(purge_rx_request(device)),
            Operation { command: Command::PurgeRx { guard: armed(), left }, next: Next::Return },
        ),
        outcomes,
        action,
    ).2;
    reveal_with_fuel(run, 2);
    assert(actions =~= Seq::new(
        (left + 1) as nat,
        |i: int| Action::Send(purge_rx_request(device)),
    ));
}

/// A flush of the receive buffer drains the queued reads, purges the buffer
/// exactly six times, and discards the held input.
pub proof fn flush_rx_runs(device: DeviceView, left: RecoveryAction)
    requires
        !device.recovery_required,
    ensures
        run(
            device,
            launched(device, flush_rx_begun(device), Next::Return).1,
            successes(7),
            left,
        ) == (device.input_discarded(), Step::Done(Ok(())), flush_rx_actions(device)),
{
    reveal_with_fuel(run, 2);
    assert(successes(7).skip(1) =~= successes(6));
    lemma_purges_run(device, 5, left);
    assert(run(
        device,
        launched(device, flush_rx_begun(device), Next::Return).1,
        successes(7),
        left,
    ).2 =~= flush_rx_actions(device));
}

/// A flush of both buffers purges the transmit buffer first.
pub proof fn flush_all_runs(device: DeviceView, left: RecoveryAction)
    requires
        !device.recovery_required,
    ensures
        run(
            device,
            launched(device, flush_tx_begun(device), Next::FlushRx).1,
            successes(8),
            left,
        ) == (
            device.input_discarded(),
            Step::Done(Ok(())),
            seq![Action::Send(purge_tx_request(device))] + flush_rx_actions(device),
        ),
{
    reveal_with_fuel(run, 2);
    assert(successes(8).skip(1) =~= successes(7));
    flush_rx_runs(device, left);
}

/// Setting a bit mode sends one request, records the mode and invalidates every
/// MPSSE context.
pub proof fn bitmode_runs(device: DeviceView, bitmask: u8, mode: BitMode, left: RecoveryAction)
    requires
        !device.recovery_required,
    ensures
        run(
            device,
            launched(device, bitmode_begun(device, bitmask, mode), Next::Return).1,
            successes(1),
            left,
        ) == (
            device.with_bitmode(bitmask, mode).epoch_bumped(),
            Step::Done(Ok(())),
            seq![Action::Send(bitmode_request(device, bitmask, mode))],
        ),
{
    reveal_with_fuel(run, 3);
    assert(run(
        device,
        launched(device, bitmode_begun(device, bitmask, mode), Next::Return).1,
        successes(1),
        left,
    ).2 =~= seq![Action::Send(bitmode_request(device, bitmask, mode))]);
}

/// The actions of setting a baud rate.
pub open spec fn baudrate_actions(
    device: DeviceView,
    baudrate: u32,
    divisor: BaudDivisor,
) -> Seq<Action> {
    seq![
        Action::ConvertBaudrate {
            rate: effective_rate(device, baudrate) as u32,
            chip_type: device.chip_type,
            index: device.usb_index,
        },
        Action::Send(baudrate_request(device, divisor)),
    ]
}

/// Setting a baud rate that the chip supports within 5% sends one request and
/// records the rate that was asked for.
pub proof fn baudrate_runs(
    device: DeviceView,
    baudrate: u32,
    divisor: BaudDivisor,
    left: RecoveryAction,
)
    requires
        !device.recovery_required,
        effective_rate(device, baudrate) <= u32::MAX,
        20 * divisor.actual <= 21 * effective_rate(device, baudrate),
        20 * effective_rate(device, baudrate) <= 21 * divisor.actual,
    ensures
        run(
            device,
            launched(device, baudrate_begun(device, baudrate), Next::Return).1,
            seq![Outcome::Divisor(Some(divisor)), Outcome::Finished(Ok(()))],
            left,
        ) == (
            device.with_baudrate(baudrate),
            Step::Done(Ok(())),
            baudrate_actions(device, baudrate, divisor),
        ),
{
    reveal_with_fuel(run, 4);
    assert(run(
        device,
        launched(device, baudrate_begun(device, baudrate), Next::Return).1,
        seq![Outcome::Divisor(Some(divisor)), Outcome::Finished(Ok(()))],
        left,
    ).2 =~= baudrate_actions(device, baudrate, divisor));
}

/// A baud rate without a divisor, or one that the chip would miss by more than
/// 5%, is refused without a request, and nothing changes.
pub proof fn unsupported_baudrate_is_refused(
    device: DeviceView,
    baudrate: u32,
    effective: u32,
    divisor: Option<BaudDivisor>,
)
    requires
        divisor matches Some(d) ==> 20 * d.actual > 21 * effective || 20 * effective > 21
            * d.actual,
    ensures
        ({
            let (after, step) = resumed(
                device,
                Operation {
                    command: Command::ConvertBaudrate { baudrate, effective },
                    next: Next::Return,
                },
                Outcome::Divisor(divisor),
            );
            &&& after == device
            &&& step == Step::Done(
                match divisor {
                    None => Err(Error::InvalidArgument("baud rate must be > 0")),
                    Some(d) => Err(
                        Error::UnsupportedBaudRate { requested: baudrate, actual: d.actual },
                    ),
                },
            )
        }),
{
}

/// A baud rate is refused at once, without an action, exactly if a bitbang mode
/// is enabled and four times the rate does not fit in 32 bits. Nothing changes.
pub proof fn out_of_reach_baudrate_is_refused(device: DeviceView, baudrate: u32)
    ensures
        device.bitbang_enabled && 4 * baudrate > u32::MAX <==> launched(
            device,
            baudrate_begun(device, baudrate),
            Next::Return,
        ).1 is Done,
        device.bitbang_enabled && 4 * baudrate > u32::MAX ==> launched(
            device,
            baudrate_begun(device, baudrate),
            Next::Return,
        ) == (device, Step::Done(Err(Error::InvalidArgument("baud rate is too high")))),
{
}

/// Opening resets the device and then sets its initial baud rate.
pub proof fn initialize_runs(device: DeviceView, divisor: BaudDivisor, left: RecoveryAction)
    requires
        !device.recovery_required,
        20 * divisor.actual <= 21 * effective_rate(device, INITIAL_BAUDRATE),
        20 * effective_rate(device, INITIAL_BAUDRATE) <= 21 * divisor.actual,
    ensures
        run(
            device,
            launched(device, reset_begun(device), Next::Initialize).1,
            seq![
                Outcome::Finished(Ok(())),
                Outcome::Divisor(Some(divisor)),
                Outcome::Finished(Ok(())),
            ],
            left,
        ) == (
            device.input_discarded().epoch_bumped().with_baudrate(INITIAL_BAUDRATE),
            Step::Done(Ok(())),
            seq![Action::Send(reset_request(device))] + baudrate_actions(
                device,
                INITIAL_BAUDRATE,
                divisor,
            ),
        ),
{
    let outcomes = seq![
        Outcome::Finished(Ok(())),
        Outcome::Divisor(Some(divisor)),
        Outcome::Finished(Ok(())),
    ];
    let reset = device.input_discarded().epoch_bumped();
    reveal_with_fuel(run, 2);
    assert(outcomes.skip(1) =~= seq![
        Outcome::Divisor(Some(divisor)),
        Outcome::Finished(Ok(())),
    ]);
    baudrate_runs(reset, INITIAL_BAUDRATE, divisor, left);
}

// ---- Recovery ----

/// The first step of recovery.
pub open spec fn recovery_begun(device: DeviceView) -> Step {
    Step::Perform(
        Action::Drain(Pipe::Read, device.read_timeout),
        Operation {
            command: Command::Drain,
            next: Next::Recover { guard: armed(), stage: RecoverStage::DrainRead },
        },
    )
}

/// The outcomes of a recovery that succeeds, with `divisor` for the baud rate.
pub open spec fn recovery_outcomes(device: DeviceView, divisor: BaudDivisor) -> Seq<Outcome> {
    let baudrate = if device.baudrate > 0 {
        seq![Outcome::Divisor(Some(divisor)), Outcome::Finished(Ok(()))]
    } else {
        Seq::empty()
    };
    let bitmode = if device.bitbang_enabled {
        successes(1)
    } else {
        Seq::empty()
    };
    successes(5) + (baudrate + bitmode)
}

/// The actions of a recovery that succeeds.
pub open spec fn recovery_actions(device: DeviceView, divisor: BaudDivisor) -> Seq<Action> {
    let baudrate = if device.baudrate > 0 {
        baudrate_actions(device.with_bitmode(0, BitMode::Reset), device.baudrate, divisor)
    } else {
        Seq::empty()
    };
    let bitmode = if device.bitbang_enabled {
        seq![
            Action::Send(
                bitmode_request(device, device.bitbang_mask, device.bitbang_mode),
            ),
        ]
    } else {
        Seq::empty()
    };
    seq![
        Action::Drain(Pipe::Read, device.read_timeout),
        Action::Drain(Pipe::Write, device.write_timeout),
        Action::FinishEeprom(device.recovery_action),
        Action::Send(reset_request(device)),
        Action::Send(bitmode_request(device, RECOVERY_BITMASK, BitMode::Reset)),
    ] + (baudrate + bitmode)
}

/// A device that was recovered: it is ready, it holds no input, every MPSSE
/// context is invalid, and it is configured as before. Only the mask of a bit
/// mode that was not in use changes.
pub open spec fn after_recovery(device: DeviceView, left: RecoveryAction) -> DeviceView {
    let restored = DeviceView {
        bitbang_mask: if device.bitbang_enabled {
            device.bitbang_mask
        } else {
            RECOVERY_BITMASK
        },
        recovery_action: left,
        ..device.input_discarded().poisoned(false).epoch_bumped().epoch_bumped().epoch_bumped()
    };
    if device.bitbang_enabled {
        restored.epoch_bumped()
    } else {
        restored
    }
}

/// A device in recovery once it was reset and has left every bitbang mode.
spec fn reset_for_recovery(device: DeviceView, left: RecoveryAction) -> DeviceView {
    DeviceView {
        recovery_action: left,
        ..device
    }.poisoned(false).input_discarded().epoch_bumped().with_bitmode(
        RECOVERY_BITMASK,
        BitMode::Reset,
    ).epoch_bumped()
}

/// The first part of recovery, up to the reset.
proof fn lemma_recovery_drains(device: DeviceView, rest: Seq<Outcome>, left: RecoveryAction)
    ensures
        ({
            let done = Outcome::Finished(Ok(()));
            let ready = DeviceView { recovery_action: left, ..device.poisoned(false) };
            let (after, end, actions) = run(
                ready,
                crate::operation::recovered(ready, armed(), RecoverStage::FinishEeprom).1,
                rest,
                left,
            );
            run(
                device.poisoned(false),
                recovery_begun(device),
                seq![done] + (seq![done] + (seq![done] + rest)),
                left,
            ) == (
                after,
                end,
                seq![Action::Drain(Pipe::Read, device.read_timeout)] + (seq![
                    Action::Drain(Pipe::Write, device.write_timeout),
                ] + (seq![Action::FinishEeprom(device.recovery_action)] + actions)),
            )
        }),
{
    let done = Outcome::Finished(Ok(()));
    let ready = device.poisoned(false);
    let drain_read = Operation {
        command: Command::Drain,
        next: Next::Recover { guard: armed(), stage: RecoverStage::DrainRead },
    };
    let drain_write = Operation {
        command: Command::Drain,
        next: Next::Recover { guard: armed(), stage: RecoverStage::DrainWrite },
    };
    let finish_eeprom = Operation {
        command: Command::FinishEeprom,
        next: Next::Recover { guard: armed(), stage: RecoverStage::FinishEeprom },
    };
    lemma_run_step(
        ready,
        Action::FinishEeprom(device.recovery_action),
        finish_eeprom,
        done,
        rest,
        left,
    );
    lemma_run_step(
        ready,
        Action::Drain(Pipe::Write, device.write_timeout),
        drain_write,
        done,
        seq![done] + rest,
        left,
    );
    lemma_run_step(
        ready,
        Action::Drain(Pipe::Read, device.read_timeout),
        drain_read,
        done,
        seq![done] + (seq![done] + rest),
        left,
    );
}

/// The second part of recovery: the reset.
proof fn lemma_recovery_resets(device: DeviceView, rest: Seq<Outcome>, left: RecoveryAction)
    requires
        !device.recovery_required,
        device.recovery_action == left,
    ensures
        ({
            let done = Outcome::Finished(Ok(()));
            let reset = reset_for_recovery(device, left);
            let (start, step) = crate::operation::recovered(
                reset,
                armed(),
                RecoverStage::LeaveBitmode(crate::operation::saved_config(device)),
            );
            let (after, end, actions) = run(start, step, rest, left);
            run(
                device,
                crate::operation::recovered(device, armed(), RecoverStage::FinishEeprom).1,
                seq![done] + (seq![done] + rest),
                left,
            ) == (
                after,
                end,
                seq![Action::Send(reset_request(device))] + (seq![
                    Action::Send(bitmode_request(device, RECOVERY_BITMASK, BitMode::Reset)),
                ] + actions),
            )
        }),
{
    let done = Outcome::Finished(Ok(()));
    let saved = crate::operation::saved_config(device);
    let reset = Operation {
        command: Command::Reset { guard: armed() },
        next: Next::Recover { guard: armed(), stage: RecoverStage::Reset(saved) },
    };
    let leave_bitmode = Operation {
        command: Command::SetBitmode {
            guard: armed(),
            bitmask: RECOVERY_BITMASK,
            mode: BitMode::Reset,
        },
        next: Next::Recover { guard: armed(), stage: RecoverStage::LeaveBitmode(saved) },
    };
    lemma_run_step(
        device.input_discarded().epoch_bumped(),
        Action::Send(bitmode_request(device, RECOVERY_BITMASK, BitMode::Reset)),
        leave_bitmode,
        done,
        rest,
        left,
    );
    lemma_run_step(
        device,
        Action::Send(reset_request(device)),
        reset,
        done,
        seq![done] + rest,
        left,
    );
}

/// The first five actions of recovery.
proof fn lemma_recovery_starts(device: DeviceView, rest: Seq<Outcome>, left: RecoveryAction)
    ensures
        ({
            let done = Outcome::Finished(Ok(()));
            let (start, step) = crate::operation::recovered(
                reset_for_recovery(device, left),
                armed(),
                RecoverStage::LeaveBitmode(crate::operation::saved_config(device)),
            );
            let (after, end, actions) = run(start, step, rest, left);
            run(
                device.poisoned(false),
                recovery_begun(device),
                seq![done, done, done, done, done] + rest,
                left,
            ) == (
                after,
                end,
                seq![
                    Action::Drain(Pipe::Read, device.read_timeout),
                    Action::Drain(Pipe::Write, device.write_timeout),
                    Action::FinishEeprom(device.recovery_action),
                    Action::Send(reset_request(device)),
                    Action::Send(bitmode_request(device, RECOVERY_BITMASK, BitMode::Reset)),
                ] + actions,
            )
        }),
{
    let done = Outcome::Finished(Ok(()));
    let ready = DeviceView { recovery_action: left, ..device.poisoned(false) };
    let (start, step) = crate::operation::recovered(
        reset_for_recovery(device, left),
        armed(),
        RecoverStage::LeaveBitmode(crate::operation::saved_config(device)),
    );
    let actions = run(start, step, rest, left).2;
    lemma_recovery_resets(ready, rest, left);
    lemma_recovery_drains(device, seq![done] + (seq![done] + rest), left);
    lemma_flat(done, done, done, done, done, rest);
    lemma_flat(
        Action::Drain(Pipe::Read, device.read_timeout),
        Action::Drain(Pipe::Write, device.write_timeout),
        Action::FinishEeprom(device.recovery_action),
        Action::Send(reset_request(device)),
        Action::Send(bitmode_request(device, RECOVERY_BITMASK, BitMode::Reset)),
        actions,
    );
}

proof fn lemma_flat<T>(a: T, b: T, c: T, d: T, e: T, rest: Seq<T>)
    ensures
        seq![a] + (seq![b] + (seq![c] + (seq![d] + (seq![e] + rest)))) == seq![a, b, c, d, e]
            + rest,
{
    assert(seq![a] + (seq![b] + (seq![c] + (seq![d] + (seq![e] + rest)))) =~= seq![a, b, c, d, e]
        + rest);
}

/// The tail of recovery from the restored baud rate on.
proof fn lemma_bitmode_restored(device: DeviceView, saved: DeviceView, left: RecoveryAction)
    requires
        !device.recovery_required,
        device.usb_index == saved.usb_index,
        device.write_timeout == saved.write_timeout,
        saved.bitbang_enabled == (saved.bitbang_mode != BitMode::Reset),
    ensures
        ({
            let (start, step) = crate::operation::baudrate_restored(
                device,
                armed(),
                crate::operation::saved_config(saved),
            );
            let outcomes = if saved.bitbang_enabled {
                successes(1)
            } else {
                Seq::empty()
            };
            let (after, end, actions) = run(start, step, outcomes, left);
            &&& end == Step::Done(Ok(()))
            &&& after == if saved.bitbang_enabled {
                device.with_bitmode(
                    saved.bitbang_mask,
                    saved.bitbang_mode,
                ).epoch_bumped().epoch_bumped()
            } else {
                device.epoch_bumped()
            }
            &&& actions == if saved.bitbang_enabled {
                seq![
                    Action::Send(
                        bitmode_request(saved, saved.bitbang_mask, saved.bitbang_mode),
                    ),
                ]
            } else {
                Seq::empty()
            }
        }),
{
    reveal_with_fuel(run, 3);
    let (start, step) = crate::operation::baudrate_restored(
        device,
        armed(),
        crate::operation::saved_config(saved),
    );
    if saved.bitbang_enabled {
        let actions = run(start, step, successes(1), left).2;
        assert(actions =~= seq![
            Action::Send(bitmode_request(saved, saved.bitbang_mask, saved.bitbang_mode)),
        ]);
    }
}

/// The tail of recovery once the device has left every bitbang mode.
proof fn lemma_configuration_restored(
    device: DeviceView,
    saved: DeviceView,
    divisor: BaudDivisor,
    left: RecoveryAction,
)
    requires
        !device.recovery_required,
        !device.bitbang_enabled,
        device.usb_index == saved.usb_index,
        device.write_timeout == saved.write_timeout,
        device.chip_type == saved.chip_type,
        device.baudrate == saved.baudrate,
        saved.bitbang_enabled == (saved.bitbang_mode != BitMode::Reset),
        20 * divisor.actual <= 21 * saved.baudrate,
        20 * saved.baudrate <= 21 * divisor.actual,
    ensures
        ({
            let (start, step) = crate::operation::recovered(
                device,
                armed(),
                RecoverStage::LeaveBitmode(crate::operation::saved_config(saved)),
            );
            let bitmode = if saved.bitbang_enabled {
                successes(1)
            } else {
                Seq::empty()
            };
            let outcomes = if saved.baudrate > 0 {
                seq![Outcome::Divisor(Some(divisor)), Outcome::Finished(Ok(()))]
            } else {
                Seq::empty()
            } + bitmode;
            let (after, end, actions) = run(start, step, outcomes, left);
            &&& end == Step::Done(Ok(()))
            &&& after == if saved.bitbang_enabled {
                device.with_bitmode(
                    saved.bitbang_mask,
                    saved.bitbang_mode,
                ).epoch_bumped().epoch_bumped()
            } else {
                device.epoch_bumped()
            }
            &&& actions == if saved.baudrate > 0 {
                baudrate_actions(device, saved.baudrate, divisor)
            } else {
                Seq::empty()
            } + if saved.bitbang_enabled {
                seq![
                    Action::Send(
                        bitmode_request(saved, saved.bitbang_mask, saved.bitbang_mode),
                    ),
                ]
            } else {
                Seq::empty()
            }
        }),
{
    lemma_bitmode_restored(device, saved, left);
    let config = crate::operation::saved_config(saved);
    let bitmode = if saved.bitbang_enabled {
        successes(1)
    } else {
        Seq::empty()
    };
    let restored = if saved.bitbang_enabled {
        seq![Action::Send(bitmode_request(saved, saved.bitbang_mask, saved.bitbang_mode))]
    } else {
        Seq::empty()
    };
    if saved.baudrate > 0 {
        let next = Next::Recover { guard: armed(), stage: RecoverStage::RestoreBaudrate(config) };
        let look_up = Operation {
            command: Command::ConvertBaudrate {
                baudrate: saved.baudrate,
                effective: saved.baudrate,
            },
            next,
        };
        let set = Operation {
            command: Command::SetBaudrate { guard: armed(), baudrate: saved.baudrate },
            next,
        };
        let done = Outcome::Finished(Ok(()));
        let found = Outcome::Divisor(Some(divisor));
        let actions = baudrate_actions(device, saved.baudrate, divisor);
        assert(device.with_baudrate(saved.baudrate) == device);
        lemma_run_step(device, actions[1], set, done, bitmode, left);
        lemma_run_step(device, actions[0], look_up, found, seq![done] + bitmode, left);
        assert(seq![found, done] + bitmode =~= seq![found] + (seq![done] + bitmode));
        assert(actions + restored =~= seq![actions[0]] + (seq![actions[1]] + restored));
    } else {
        assert(Seq::<Outcome>::empty() + bitmode =~= bitmode);
        assert(Seq::<Action>::empty() + restored =~= restored);
    }
}

/// Recovery of a device, whether it requires recovery or not, performs exactly
/// [`recovery_actions`] and, if they all succeed, ends well with the device
/// ready and configured as before. `left` is what the EEPROM work leaves
/// recorded.
pub proof fn recovery_restores(device: DeviceView, divisor: BaudDivisor, left: RecoveryAction)
    requires
        device.bitbang_enabled == (device.bitbang_mode != BitMode::Reset),
        20 * divisor.actual <= 21 * device.baudrate,
        20 * device.baudrate <= 21 * divisor.actual,
    ensures
        run(
            device.poisoned(false),
            recovery_begun(device),
            recovery_outcomes(device, divisor),
            left,
        ) == (
            after_recovery(device, left),
            Step::Done(Ok(())),
            recovery_actions(device, divisor),
        ),
{
    let done = Outcome::Finished(Ok(()));
    let rest = if device.baudrate > 0 {
        seq![Outcome::Divisor(Some(divisor)), done]
    } else {
        Seq::empty()
    } + if device.bitbang_enabled {
        successes(1)
    } else {
        Seq::empty()
    };
    lemma_recovery_starts(device, rest, left);
    lemma_configuration_restored(reset_for_recovery(device, left), device, divisor, left);
    assert(successes(5) =~= seq![done, done, done, done, done]);
}

/// A device after `n` bumps of its epoch.
pub open spec fn epoch_bumped_times(device: DeviceView, n: nat) -> DeviceView
    decreases n,
{
    if n == 0 {
        device
    } else {
        epoch_bumped_times(device, (n - 1) as nat).epoch_bumped()
    }
}

proof fn lemma_epoch_bumped_times(device: DeviceView, n: nat)
    ensures
        epoch_bumped_times(device, n).recovery_epoch == counter_after(device.recovery_epoch, n),
    decreases n,
{
    if n > 0 {
        lemma_epoch_bumped_times(device, (n - 1) as nat);
    }
}

/// A bump invalidates every MPSSE context created before it, not only those of
/// the last epoch: of fewer than 2^64 bumps, none brings an epoch back that came
/// before.
pub proof fn contexts_are_invalidated(device: DeviceView, created: nat, now: nat)
    requires
        created < now < created + 0x1_0000_0000_0000_0000,
    ensures
        epoch_bumped_times(device, now).recovery_epoch != epoch_bumped_times(
            device,
            created,
        ).recovery_epoch,
{
    lemma_epoch_bumped_times(device, created);
    lemma_epoch_bumped_times(device, now);
    device_ids_are_unique(device.recovery_epoch, created, now);
}

/// Operations change the epoch by bumps alone: a step of one bumps it once where
/// it completes a reset or a change of the bit mode, and once where it completes
/// recovery.
pub proof fn operations_only_bump_the_epoch(
    device: DeviceView,
    operation: Operation,
    outcome: Outcome,
)
    requires
        operation.wf(),
        answers(outcome, operation.command),
    ensures
        ({
            let (after, step) = resumed(device, operation, outcome);
            let done = outcome matches Outcome::Finished(Ok(_));
            let configured: nat = if done && (operation.command is Reset
                || operation.command is SetBitmode) {
                1
            } else {
                0
            };
            let recovered: nat = if operation.next is Recover && (step matches Step::Done(Ok(_))) {
                1
            } else {
                0
            };
            after.recovery_epoch == epoch_bumped_times(
                device,
                configured + recovered,
            ).recovery_epoch
        }),
{
    assert(epoch_bumped_times(device, 0) == device);
    assert(epoch_bumped_times(device, 1) == device.epoch_bumped());
    assert(epoch_bumped_times(device, 2) == device.epoch_bumped().epoch_bumped());
}

/// A recovery that succeeds bumps the epoch three times, and once more where it
/// restores a bit mode.
pub proof fn recovery_bumps_the_epoch(device: DeviceView, left: RecoveryAction)
    ensures
        after_recovery(device, left).recovery_epoch == epoch_bumped_times(
            device,
            if device.bitbang_enabled {
                4
            } else {
                3
            },
        ).recovery_epoch,
{
    reveal_with_fuel(epoch_bumped_times, 5);
}

/// The outcomes answer the actions that they are outcomes of.
pub open spec fn outcomes_fit(
    device: DeviceView,
    step: Step,
    outcomes: Seq<Outcome>,
    left: RecoveryAction,
) -> bool
    decreases outcomes.len(),
{
    if outcomes.len() == 0 {
        true
    } else {
        match step {
            Step::Perform(action, operation) => {
                let (after, next) = resumed(
                    performed(device, action, left),
                    operation,
                    outcomes[0],
                );
                answers(outcomes[0], operation.command) && outcomes_fit(
                    after,
                    next,
                    outcomes.skip(1),
                    left,
                )
            },
            Step::Done(_) => true,
        }
    }
}

proof fn lemma_recovery_decides(
    device: DeviceView,
    step: Step,
    outcomes: Seq<Outcome>,
    left: RecoveryAction,
)
    requires
        step.wf(),
        step matches Step::Perform(_, operation) ==> operation.next is Recover,
        step matches Step::Done(result) ==> device.recovery_required == result is Err,
        outcomes_fit(device, step, outcomes, left),
    ensures
        ({
            let (after, end, _) = run(device, step, outcomes, left);
            match end {
                Step::Perform(_, operation) => abandoned(after, operation).recovery_required,
                Step::Done(result) => after.recovery_required == result is Err,
            }
        }),
    decreases outcomes.len(),
{
    reveal_with_fuel(run, 2);
    if outcomes.len() > 0 {
        if let Step::Perform(action, operation) = step {
            let before = performed(device, action, left);
            let (after, next) = resumed(before, operation, outcomes[0]);
            ending_decides(before, operation, outcomes[0]);
            lemma_recovery_decides(after, next, outcomes.skip(1), left);
        }
    }
}

/// Recovery makes a device ready only by completing. However its actions end:
/// if it ends well the device is ready; if it fails, or is abandoned, the
/// device requires recovery.
pub proof fn recovery_is_all_or_nothing(
    device: DeviceView,
    outcomes: Seq<Outcome>,
    left: RecoveryAction,
)
    requires
        outcomes_fit(device.poisoned(false), recovery_begun(device), outcomes, left),
    ensures
        ({
            let (after, end, _) = run(
                device.poisoned(false),
                recovery_begun(device),
                outcomes,
                left,
            );
            match end {
                Step::Perform(_, operation) => abandoned(after, operation).recovery_required,
                Step::Done(result) => after.recovery_required == result is Err,
            }
        }),
{
    lemma_recovery_decides(device.poisoned(false), recovery_begun(device), outcomes, left);
}

} // verus!
