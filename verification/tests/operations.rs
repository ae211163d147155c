use std::time::Duration;

use ftdi_nusb::{
    Action, BaudDivisor, BitMode, ChipType, ControlOut, Error, FtdiDevice, Interface, Outcome, Pipe,
    ReadStep, RecoveryAction, Step,
};
use nusb::transfer::{Buffer, TransferError};

const TIMEOUT: Duration = Duration::from_millis(10);

fn device() -> FtdiDevice {
    let mut device = FtdiDevice::from_open_device(0x0700, true, None, Interface::A, 0);
    device.set_write_timeout(TIMEOUT);
    device.set_read_timeout(TIMEOUT);
    device
}

fn divisor(actual: u32) -> BaudDivisor {
    BaudDivisor { value: 0x1234, index: 0x0201, actual }
}

/// Run an operation to its end. Every action succeeds, up to one that fails.
fn run(device: &mut FtdiDevice, step: Step, fail_at: usize) -> (Vec<Action>, Result<(), Error>) {
    let mut step = step;
    let mut actions = Vec::new();
    loop {
        match step {
            Step::Done(result) => return (actions, result),
            Step::Perform(action, operation) => {
                let outcome = match &action {
                    Action::ConvertBaudrate { rate, .. } => Outcome::Divisor(Some(divisor(*rate))),
                    _ if actions.len() == fail_at => {
                        Outcome::Finished(Err(Error::Transfer(TransferError::Stall)))
                    }
                    _ => Outcome::Finished(Ok(())),
                };
                actions.push(action);
                step = device.resume(operation, outcome);
            }
        }
    }
}

fn sent(action: &Action) -> (u8, u16, u16) {
    match action {
        Action::Send(ControlOut { request, value, index, timeout }) => {
            assert_eq!(*timeout, TIMEOUT);
            (*request, *value, *index)
        }
        _ => panic!("not a request: {:?}", action),
    }
}

/// Let the device hold some input.
fn hold_input(device: &mut FtdiDevice) {
    let mut buf = [0u8; 1];
    let raw = Buffer::from(vec![1, 96, 7, 8, 9]);
    let completion = ftdi_nusb::Completion { buffer: raw, actual_len: 5, status: Ok(()) };
    assert_eq!(device.resume_read(&mut buf, 64, Some(completion)).unwrap(), 1);
    assert!(holds_input(device));
}

fn holds_input(device: &mut FtdiDevice) -> bool {
    let mut buf = [0u8; 1];
    matches!(device.read_data(&mut buf, 64, 1), ReadStep::Done(Ok(1)))
}

#[test]
fn reset_discards_input_and_invalidates_contexts() {
    let mut device = device();
    hold_input(&mut device);
    let step = device.usb_reset();
    let (actions, result) = run(&mut device, step, usize::MAX);
    assert!(result.is_ok());
    assert_eq!(actions.len(), 1);
    assert_eq!(sent(&actions[0]), (0, 0, 0));
    assert_eq!(device.recovery_epoch(), 1);
    assert!(!holds_input(&mut device));
    assert!(!device.recovery_required());
}

#[test]
fn flush_rx_drains_and_purges_six_times() {
    let mut device = device();
    hold_input(&mut device);
    let step = device.flush_rx();
    let (actions, result) = run(&mut device, step, usize::MAX);
    assert!(result.is_ok());
    assert_eq!(actions.len(), 7);
    assert!(matches!(actions[0], Action::Drain(Pipe::Read, TIMEOUT)));
    for action in &actions[1..] {
        assert_eq!(sent(action), (0, 2, 1));
    }
    assert!(!holds_input(&mut device));
    assert_eq!(device.recovery_epoch(), 0);
}

#[test]
fn flush_rx_that_fails_requires_recovery() {
    for fail_at in 0..7 {
        let mut device = device();
        let step = device.flush_rx();
        let (actions, result) = run(&mut device, step, fail_at);
        assert_eq!(actions.len(), fail_at + 1);
        assert!(matches!(result, Err(Error::Transfer(TransferError::Stall))));
        assert!(device.recovery_required());
    }
}

#[test]
fn flush_all_purges_the_transmit_buffer_first() {
    let mut device = device();
    let step = device.flush_all();
    let (actions, result) = run(&mut device, step, usize::MAX);
    assert!(result.is_ok());
    assert_eq!(actions.len(), 8);
    assert_eq!(sent(&actions[0]), (0, 1, 1));
    assert!(matches!(actions[1], Action::Drain(Pipe::Read, _)));

    // A failed purge of the transmit buffer leaves nothing in doubt.
    let step = device.shutdown();
    let (actions, result) = run(&mut device, step, 0);
    assert_eq!(actions.len(), 1);
    assert!(result.is_err());
    assert!(!device.recovery_required());
}

#[test]
fn set_bitmode_records_the_mode() {
    let mut device = device();
    let step = device.set_bitmode(0x0B, BitMode::Mpsse);
    let (actions, result) = run(&mut device, step, usize::MAX);
    assert!(result.is_ok());
    assert_eq!(sent(&actions[0]), (0x0B, 0x020B, 1));
    assert!(device.bitbang_enabled());
    assert_eq!(device.bitmode(), (0x0B, BitMode::Mpsse));
    assert_eq!(device.recovery_epoch(), 1);

    let step = device.disable_bitbang();
    let (actions, result) = run(&mut device, step, usize::MAX);
    assert!(result.is_ok());
    assert_eq!(sent(&actions[0]), (0x0B, 0, 1));
    assert!(!device.bitbang_enabled());
    assert_eq!(device.bitmode(), (0, BitMode::Reset));
}

#[test]
fn set_baudrate_records_the_rate() {
    let mut device = device();
    let step = device.set_baudrate(115_200);
    let (actions, result) = run(&mut device, step, usize::MAX);
    assert!(result.is_ok());
    assert_eq!(actions.len(), 2);
    assert!(matches!(
        actions[0],
        Action::ConvertBaudrate { rate: 115_200, chip_type: ChipType::Ft2232H, index: 1 }
    ));
    assert_eq!(sent(&actions[1]), (3, 0x1234, 0x0201));
    assert_eq!(device.baudrate(), 115_200);
}

#[test]
fn bitbang_runs_four_times_as_fast() {
    let mut device = device();
    let step = device.set_bitmode(0xFF, BitMode::Bitbang);
    run(&mut device, step, usize::MAX).1.unwrap();
    let step = device.set_baudrate(9600);
    let (actions, result) = run(&mut device, step, usize::MAX);
    assert!(result.is_ok());
    assert!(matches!(actions[0], Action::ConvertBaudrate { rate: 38_400, .. }));
    assert_eq!(device.baudrate(), 9600);
}

#[test]
fn bitbang_rate_out_of_reach_is_refused() {
    let mut device = device();
    let step = device.set_baudrate(9600);
    run(&mut device, step, usize::MAX).1.unwrap();
    let step = device.set_bitmode(0xFF, BitMode::Bitbang);
    run(&mut device, step, usize::MAX).1.unwrap();
    for baudrate in [u32::MAX / 4 + 1, u32::MAX] {
        assert!(matches!(
            device.set_baudrate(baudrate),
            Step::Done(Err(Error::InvalidArgument("baud rate is too high")))
        ));
        assert_eq!(device.baudrate(), 9600);
        assert!(!device.recovery_required());
    }
    assert!(matches!(
        device.set_baudrate(u32::MAX / 4),
        Step::Perform(Action::ConvertBaudrate { rate: 0xFFFF_FFFC, .. }, _)
    ));
}

/// The result of setting 10000 baud when the chip would run at `found`.
fn set_10000(found: Option<u32>) -> Result<bool, Error> {
    let mut device = device();
    match device.set_baudrate(10_000) {
        Step::Perform(Action::ConvertBaudrate { .. }, operation) => {
            let outcome = Outcome::Divisor(found.map(divisor));
            match device.resume(operation, outcome) {
                Step::Done(result) => {
                    assert_eq!(device.baudrate(), 0);
                    assert!(!device.recovery_required());
                    result.map(|()| false)
                }
                Step::Perform(_, _) => Ok(true),
            }
        }
        _ => unreachable!(),
    }
}

#[test]
fn baudrate_has_to_be_within_five_percent() {
    assert!(matches!(set_10000(None), Err(Error::InvalidArgument("baud rate must be > 0"))));
    assert!(matches!(set_10000(Some(10_500)), Ok(true)));
    assert!(matches!(
        set_10000(Some(10_501)),
        Err(Error::UnsupportedBaudRate { requested: 10_000, actual: 10_501 })
    ));
    assert!(matches!(set_10000(Some(9_524)), Ok(true)));
    assert!(matches!(
        set_10000(Some(9_523)),
        Err(Error::UnsupportedBaudRate { requested: 10_000, actual: 9_523 })
    ));
    assert!(matches!(set_10000(Some(0)), Err(Error::UnsupportedBaudRate { .. })));
}

#[test]
fn opening_resets_and_sets_the_initial_baudrate() {
    let (mut device, step) =
        FtdiDevice::from_device_info(0x0600, true, None, Interface::Any, 3);
    device.set_write_timeout(TIMEOUT);
    let (actions, result) = run(&mut device, step, usize::MAX);
    assert!(result.is_ok());
    assert_eq!(actions.len(), 3);
    assert!(matches!(actions[1], Action::ConvertBaudrate { rate: 9600, .. }));
    assert_eq!(device.baudrate(), 9600);
    assert_eq!(device.device_id(), 3);

    let (mut device, step) = FtdiDevice::open_wasm(0x0600, true, None, Interface::Any, 4);
    assert!(run(&mut device, step, usize::MAX).1.is_ok());
    assert_eq!(device.baudrate(), 9600);
}

#[test]
fn abandoned_operations_require_recovery() {
    let mut device = device();
    for step in [device.usb_reset(), device.flush_rx(), device.set_bitmode(0, BitMode::Mcu)] {
        match step {
            Step::Perform(_, operation) => device.abandon(operation),
            Step::Done(_) => unreachable!(),
        }
        assert!(device.recovery_required());
        device.prepare_stateful_cleanup();
    }
    // Nothing was sent yet while the divisor is looked up.
    match device.set_baudrate(9600) {
        Step::Perform(_, operation) => device.abandon(operation),
        Step::Done(_) => unreachable!(),
    }
    assert!(!device.recovery_required());
}

#[test]
fn poisoned_device_refuses_operations() {
    let mut device = device();
    device.mark_recovery_required();
    assert!(matches!(device.usb_reset(), Step::Done(Err(Error::RecoveryRequired))));
    assert!(matches!(device.flush_rx(), Step::Done(Err(Error::RecoveryRequired))));
    assert!(matches!(device.flush_all(), Step::Done(Err(Error::RecoveryRequired))));
    assert!(matches!(device.disable_bitbang(), Step::Done(Err(Error::RecoveryRequired))));
    assert!(matches!(device.initialize(), Step::Done(Err(Error::RecoveryRequired))));
    let step = device.set_baudrate(9600);
    let (actions, result) = run(&mut device, step, usize::MAX);
    assert_eq!(actions.len(), 1);
    assert!(matches!(result, Err(Error::RecoveryRequired)));
}

#[test]
fn recovery_restores_the_configuration() {
    let mut device = device();
    let step = device.set_baudrate(9600);
    run(&mut device, step, usize::MAX).1.unwrap();
    let step = device.set_bitmode(0x0B, BitMode::Mpsse);
    run(&mut device, step, usize::MAX).1.unwrap();
    hold_input(&mut device);
    device.set_recovery_action(RecoveryAction::RewriteEeprom);
    device.mark_recovery_required();
    let epoch = device.recovery_epoch();

    let step = device.recover();
    let (actions, result) = run(&mut device, step, usize::MAX);
    assert!(result.is_ok());
    assert_eq!(actions.len(), 8);
    assert!(matches!(actions[0], Action::Drain(Pipe::Read, TIMEOUT)));
    assert!(matches!(actions[1], Action::Drain(Pipe::Write, TIMEOUT)));
    assert!(matches!(actions[2], Action::FinishEeprom(RecoveryAction::RewriteEeprom)));
    assert_eq!(sent(&actions[3]), (0, 0, 0));
    assert_eq!(sent(&actions[4]), (0x0B, 0x00FF, 1));
    assert!(matches!(actions[5], Action::ConvertBaudrate { rate: 9600, .. }));
    assert_eq!(sent(&actions[6]), (3, 0x1234, 0x0201));
    assert_eq!(sent(&actions[7]), (0x0B, 0x020B, 1));

    assert!(device.ensure_ready().is_ok());
    assert_eq!(device.baudrate(), 9600);
    assert_eq!(device.bitmode(), (0x0B, BitMode::Mpsse));
    assert!(device.bitbang_enabled());
    assert_eq!(device.recovery_epoch(), epoch + 4);
    assert_eq!(device.recovery_action(), RecoveryAction::RewriteEeprom);
    assert!(!holds_input(&mut device));
}

#[test]
fn recovery_of_a_fresh_device() {
    let mut device = device();
    let step = device.recover();
    let (actions, result) = run(&mut device, step, usize::MAX);
    assert!(result.is_ok());
    assert_eq!(actions.len(), 5);
    assert!(matches!(actions[2], Action::FinishEeprom(RecoveryAction::Nothing)));
    assert_eq!(device.bitmode(), (0xFF, BitMode::Reset));
    assert_eq!(device.recovery_epoch(), 3);
}

#[test]
fn recovery_that_fails_still_requires_recovery() {
    for fail_at in [0, 1, 2, 3, 4, 6, 7] {
        let mut device = device();
        let step = device.set_baudrate(9600);
        run(&mut device, step, usize::MAX).1.unwrap();
        let step = device.set_bitmode(0x0B, BitMode::SyncFifo);
        run(&mut device, step, usize::MAX).1.unwrap();
        device.set_recovery_action(RecoveryAction::EraseEeprom);
        let step = device.recover();
        let (actions, result) = run(&mut device, step, fail_at);
        assert_eq!(actions.len(), fail_at + 1);
        assert!(result.is_err());
        assert!(device.recovery_required());
        assert_eq!(device.recovery_action(), RecoveryAction::EraseEeprom);
    }
}

#[test]
fn recovery_that_is_abandoned_still_requires_recovery() {
    let mut device = device();
    match device.recover() {
        Step::Perform(_, operation) => device.abandon(operation),
        Step::Done(_) => unreachable!(),
    }
    assert!(device.recovery_required());
}

#[test]
fn abandoned_stream_is_not_restored() {
    let mut device = device();
    let step = device.set_bitmode(0xFF, BitMode::SyncFifo);
    run(&mut device, step, usize::MAX).1.unwrap();
    device.mark_stream_abandoned();
    assert!(device.recovery_required());
    assert!(!device.bitbang_enabled());
    let step = device.recover();
    let (actions, result) = run(&mut device, step, usize::MAX);
    assert!(result.is_ok());
    assert_eq!(actions.len(), 5);
    assert_eq!(device.bitmode(), (0xFF, BitMode::Reset));
}

#[test]
fn recovery_bookkeeping() {
    let mut device = device();
    assert_eq!(device.recovery_action(), RecoveryAction::Nothing);
    device.set_recovery_action(RecoveryAction::EraseEeprom);
    device.clear_recovery_action();
    assert_eq!(device.recovery_action(), RecoveryAction::default());
    let guard = device.begin_stateful_operation().unwrap();
    device.release(guard);
    assert!(device.recovery_required());
    assert!(matches!(device.begin_stateful_operation(), Err(Error::RecoveryRequired)));
    device.bump_recovery_epoch();
    assert_eq!(device.recovery_epoch(), 1);
}

#[test]
fn epochs_do_not_come_back() {
    let mut device = device();
    let mut epochs = vec![device.recovery_epoch()];
    for round in 0..12 {
        let step = match round % 3 {
            0 => device.usb_reset(),
            1 => device.set_bitmode(0xFF, BitMode::Bitbang),
            _ => device.recover(),
        };
        run(&mut device, step, usize::MAX).1.unwrap();
        assert!(!epochs.contains(&device.recovery_epoch()));
        epochs.push(device.recovery_epoch());
    }
}
