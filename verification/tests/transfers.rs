use std::time::{Duration, Instant};

use ftdi_nusb::{
    cancel_and_drain, clear_pending_transfers, Completion, DrainStep, Error, FtdiDevice, Interface,
    ReadStep, RetryStep, TransferDeadline, Wait, WriteAllStep, WriteEvent, WriteStep,
};
use nusb::transfer::{Buffer, TransferError};

const TIMEOUT: Duration = Duration::from_millis(10);

fn device() -> FtdiDevice {
    let mut device = FtdiDevice::from_open_device(0x0600, true, None, Interface::A, 0);
    device.set_write_timeout(TIMEOUT);
    device.set_read_timeout(TIMEOUT);
    device
}

fn completed(bytes: &[u8]) -> Completion {
    Completion { buffer: Buffer::from(bytes), actual_len: bytes.len(), status: Ok(()) }
}

fn failed(error: TransferError) -> Completion {
    Completion { buffer: Buffer::new(64), actual_len: 0, status: Err(error) }
}

// ---- Reading ----

#[test]
fn read_submits_a_transfer_of_whole_packets() {
    let mut device = device();
    let mut buf = [0u8; 100];
    match device.read_data(&mut buf, 64, 0) {
        ReadStep::Wait { submit: Some(buffer), timeout } => {
            assert_eq!(buffer.requested_len(), 128);
            assert_eq!(buffer.len(), 0);
            assert_eq!(timeout, TIMEOUT);
        }
        _ => panic!("no transfer"),
    }
}

#[test]
fn read_resumes_a_queued_transfer() {
    let mut device = device();
    let mut buf = [0u8; 100];
    assert!(matches!(
        device.read_data(&mut buf, 64, 1),
        ReadStep::Wait { submit: None, timeout: TIMEOUT }
    ));
    assert!(matches!(device.resume_read(&mut buf, 64, None), Err(Error::Timeout(TIMEOUT))));
    assert!(matches!(device.read_data(&mut buf, 64, 1), ReadStep::Wait { submit: None, .. }));
}

#[test]
fn read_strips_status_and_holds_the_rest() {
    let mut device = device();
    let mut buf = [0u8; 3];
    let raw = completed(&[1, 96, 10, 11, 1, 96, 12, 13, 1, 96, 14]);
    assert_eq!(device.resume_read(&mut buf, 4, Some(raw)).unwrap(), 3);
    assert_eq!(buf, [10, 11, 12]);
    // What did not fit is served first, without a transfer.
    let mut one = [0u8; 1];
    assert!(matches!(device.read_data(&mut one, 4, 0), ReadStep::Done(Ok(1))));
    assert_eq!(one, [13]);
    let mut buf = [9u8; 3];
    assert!(matches!(device.read_data(&mut buf, 4, 0), ReadStep::Done(Ok(1))));
    assert_eq!(buf, [14, 9, 9]);
    assert!(matches!(device.read_data(&mut buf, 4, 0), ReadStep::Wait { .. }));
}

#[test]
fn read_of_status_bytes_alone() {
    let mut device = device();
    let mut buf = [9u8; 4];
    assert_eq!(device.resume_read(&mut buf, 64, Some(completed(&[1, 96]))).unwrap(), 0);
    let packets = completed(&[1, 96, 5, 1, 96]);
    assert_eq!(device.resume_read(&mut buf, 3, Some(packets)).unwrap(), 1);
    assert_eq!(buf, [5, 9, 9, 9]);
}

#[test]
fn read_takes_in_a_transfer_larger_than_its_buffer() {
    let mut device = device();
    device.set_read_chunksize(4);
    let raw: Vec<u8> = (0..64).collect();
    let mut buf = [0u8; 62];
    assert_eq!(device.resume_read(&mut buf, 64, Some(completed(&raw))).unwrap(), 62);
    assert_eq!(&buf[..], &raw[2..]);
}

#[test]
fn new_chunk_size_discards_held_input() {
    let mut device = device();
    let mut buf = [0u8; 1];
    assert_eq!(device.resume_read(&mut buf, 64, Some(completed(&[1, 96, 5, 6]))).unwrap(), 1);
    device.set_read_chunksize(64);
    assert_eq!(device.read_chunksize(), 64);
    assert!(matches!(device.read_data(&mut buf, 64, 0), ReadStep::Wait { .. }));
}

#[test]
fn read_errors() {
    let mut device = device();
    let mut buf = [0u8; 4];
    assert!(matches!(device.read_data(&mut [], 64, 0), ReadStep::Done(Ok(0))));
    assert!(matches!(
        device.read_data(&mut buf, 2, 0),
        ReadStep::Done(Err(Error::InvalidArgument("invalid read endpoint packet size")))
    ));
    assert!(matches!(
        device.resume_read(&mut buf, 64, Some(failed(TransferError::Fault))),
        Err(Error::Transfer(TransferError::Fault))
    ));
    assert!(!device.recovery_required());
    assert!(matches!(
        device.read_data(&mut buf, usize::MAX, 0),
        ReadStep::Done(Err(Error::InvalidArgument("read transfer size overflow")))
    ));
    device.mark_recovery_required();
    assert!(matches!(
        device.read_data(&mut buf, 64, 0),
        ReadStep::Done(Err(Error::RecoveryRequired))
    ));
}

#[test]
fn reads_keep_the_stream() {
    let mut device = device();
    let mut sent = Vec::new();
    let mut got = Vec::new();
    let mut next = 0u8;
    for round in 0..20usize {
        let mut buf = vec![0u8; round % 5 + 1];
        let n = match device.read_data(&mut buf, 8, 1) {
            ReadStep::Done(result) => result.unwrap(),
            ReadStep::Wait { .. } => {
                let mut raw = Vec::new();
                for _ in 0..2 {
                    raw.extend_from_slice(&[1, 96]);
                    for _ in 0..6 {
                        raw.push(next);
                        sent.push(next);
                        next += 1;
                    }
                }
                device.resume_read(&mut buf, 8, Some(completed(&raw))).unwrap()
            }
        };
        got.extend_from_slice(&buf[..n]);
    }
    assert_eq!(&sent[..got.len()], &got[..]);
    assert!(sent.len() - got.len() < 12);
}

// ---- Writing ----

/// Run a write whose transfers all complete as they should, up to one that
/// does not.
fn write(
    device: &mut FtdiDevice,
    data: &[u8],
    bad: Option<(usize, WriteEvent)>,
) -> (Vec<Vec<u8>>, Result<usize, Error>) {
    let mut chunks = Vec::new();
    let mut bad = bad;
    let mut queued: Option<Buffer> = None;
    let mut step = device.write_data(data);
    loop {
        let (write, event) = match step {
            WriteStep::Done(result) => return (chunks, result),
            WriteStep::Begin { timeout, write } => {
                assert_eq!(timeout, device.write_timeout());
                assert!(queued.is_none());
                (write, WriteEvent::Ready)
            }
            WriteStep::Submit { buffer, write } => {
                assert_eq!(buffer.len(), buffer.requested_len());
                chunks.push(buffer.to_vec());
                queued = Some(buffer);
                (write, WriteEvent::Ready)
            }
            WriteStep::Wait { write } => {
                let buffer = queued.take().unwrap();
                match bad.take() {
                    Some((at, event)) if at + 1 == chunks.len() => (write, event),
                    other => {
                        bad = other;
                        let actual_len = buffer.len();
                        let done = Completion { buffer, actual_len, status: Ok(()) };
                        (write, WriteEvent::Completed(done))
                    }
                }
            }
        };
        let pending = if queued.is_some() { 1 } else { 0 };
        step = device.resume_write(data, write, pending, event);
    }
}

#[test]
fn write_sends_chunks_in_order() {
    let mut device = device();
    device.set_write_chunksize(4);
    assert_eq!(device.write_chunksize(), 4);
    let (chunks, result) = write(&mut device, &[1, 2, 3, 4, 5, 6, 7, 8, 9], None);
    assert_eq!(chunks, vec![vec![1, 2, 3, 4], vec![5, 6, 7, 8], vec![9]]);
    assert_eq!(result.unwrap(), 9);
    assert!(!device.recovery_required());
}

#[test]
fn write_with_a_huge_chunk_size() {
    let mut device = device();
    device.set_write_chunksize(usize::MAX);
    let (chunks, result) = write(&mut device, &[1, 2, 3], None);
    assert_eq!(chunks, vec![vec![1, 2, 3]]);
    assert_eq!(result.unwrap(), 3);
}

#[test]
fn write_errors_leave_the_device_ready() {
    let mut device = device();
    device.set_write_chunksize(2);
    let data = [1, 2, 3, 4];
    let (chunks, result) = write(&mut device, &data, Some((1, WriteEvent::TimedOut)));
    assert_eq!(chunks.len(), 2);
    assert!(matches!(result, Err(Error::Timeout(TIMEOUT))));
    let stalled = WriteEvent::Completed(failed(TransferError::Stall));
    let (chunks, result) = write(&mut device, &data, Some((0, stalled)));
    assert_eq!(chunks.len(), 1);
    assert!(matches!(result, Err(Error::Transfer(TransferError::Stall))));
    let short = Completion { buffer: Buffer::new(2), actual_len: 1, status: Ok(()) };
    let (_, result) = write(&mut device, &data, Some((0, WriteEvent::Completed(short))));
    assert!(matches!(result, Err(Error::ShortWrite { expected: 2, actual: 1 })));
    assert!(!device.recovery_required());
}

#[test]
fn write_waits_for_transfers_of_an_earlier_write() {
    let mut device = device();
    let data = [1, 2];
    let write = match device.write_data(&data) {
        WriteStep::Begin { write, .. } => write,
        _ => unreachable!(),
    };
    let write = match device.resume_write(&data, write, 1, WriteEvent::Ready) {
        WriteStep::Wait { write } => write,
        _ => unreachable!(),
    };
    let old = WriteEvent::Completed(completed(&[7]));
    match device.resume_write(&data, write, 0, old) {
        WriteStep::Submit { buffer, .. } => assert_eq!(&buffer[..], &data),
        _ => unreachable!(),
    }
}

#[test]
fn dropped_write_requires_recovery() {
    let mut device = device();
    match device.write_data(&[1]) {
        WriteStep::Begin { write, .. } => device.abandon_write(write),
        _ => unreachable!(),
    }
    assert!(device.recovery_required());
    assert!(matches!(
        device.write_data(&[1]),
        WriteStep::Done(Err(Error::RecoveryRequired))
    ));
}

#[test]
fn empty_write() {
    let mut device = device();
    assert!(matches!(device.write_data(&[]), WriteStep::Done(Ok(0))));
    device.mark_recovery_required();
    assert!(matches!(device.write_data(&[]), WriteStep::Done(Err(Error::RecoveryRequired))));
}

#[test]
fn write_all_goes_on_until_everything_is_written() {
    let data = [0u8; 10];
    assert!(matches!(FtdiDevice::write_all(&[]), WriteAllStep::Done(Ok(()))));
    assert!(matches!(FtdiDevice::write_all(&data), WriteAllStep::Write { offset: 0 }));
    assert!(matches!(
        FtdiDevice::resume_write_all(&data, 0, Ok(4)),
        WriteAllStep::Write { offset: 4 }
    ));
    assert!(matches!(
        FtdiDevice::resume_write_all(&data, 4, Ok(6)),
        WriteAllStep::Done(Ok(()))
    ));
    assert!(matches!(
        FtdiDevice::resume_write_all(&data, 4, Ok(0)),
        WriteAllStep::Done(Err(Error::WriteZero))
    ));
    assert!(matches!(
        FtdiDevice::resume_write_all(&data, 4, Err(Error::RecoveryRequired)),
        WriteAllStep::Done(Err(Error::RecoveryRequired))
    ));
}

// ---- Retrying and draining ----

#[test]
fn transient_errors_are_retried() {
    let mut retry = FtdiDevice::read_data_retry(2, TIMEOUT);
    let mut attempts = 0;
    loop {
        attempts += 1;
        match retry.after(Err(Error::Transfer(TransferError::Fault))) {
            RetryStep::PauseAndRetry { delay, retry: next } => {
                assert_eq!(delay, TIMEOUT);
                retry = next;
            }
            RetryStep::PauseAndFail { delay, error } => {
                assert_eq!(delay, TIMEOUT);
                assert!(matches!(error, Error::Transfer(TransferError::Fault)));
                break;
            }
            RetryStep::Done(_) => unreachable!(),
        }
    }
    assert_eq!(attempts, 3);
}

#[test]
fn other_results_are_not_retried() {
    let retry = FtdiDevice::write_data_retry(5, TIMEOUT);
    assert!(matches!(retry.after(Ok(7)), RetryStep::Done(Ok(7))));
    assert!(matches!(
        retry.after(Err(Error::Timeout(TIMEOUT))),
        RetryStep::Done(Err(Error::Timeout(TIMEOUT)))
    ));
}

#[test]
fn draining_an_endpoint() {
    assert!(matches!(cancel_and_drain(TIMEOUT, 2, false), DrainStep::Wait));
    assert!(matches!(cancel_and_drain(TIMEOUT, 0, false), DrainStep::Done));
    assert!(matches!(
        cancel_and_drain(TIMEOUT, 2, true),
        DrainStep::CancelAndFail(Error::Timeout(TIMEOUT))
    ));
    assert_eq!(clear_pending_transfers(1, false), None);
    assert_eq!(clear_pending_transfers(0, false), Some(true));
    assert_eq!(clear_pending_transfers(1, true), Some(false));
}

// ---- Deadlines ----

#[test]
fn deadlines_count_down() {
    let start = Instant::now();
    let deadline = TransferDeadline::starting_at(start, Duration::from_secs(5));
    match deadline.wait_at(start + Duration::from_secs(2)) {
        Wait::AtMost(left) => assert_eq!(left, Duration::from_secs(3)),
        _ => panic!("no time left"),
    }
    assert!(matches!(deadline.wait_at(start + Duration::from_secs(6)), Wait::Expired));
}

#[test]
fn endless_deadlines_never_expire() {
    let deadline = TransferDeadline::new(Duration::MAX);
    assert!(matches!(deadline, TransferDeadline::Never));
    assert!(matches!(deadline.wait(), Wait::Forever));
    assert!(matches!(
        TransferDeadline::new(Duration::from_secs(3600)).wait(),
        Wait::AtMost(_)
    ));
}
