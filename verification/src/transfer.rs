//! Bulk data transfer.
//!
//! As with operations, the caller submits the transfers and waits for them; the
//! library says which, and makes sense of their completions.

use std::time::Duration;

use nusb::transfer::{Buffer, TransferError};
use vstd::prelude::*;

use crate::device::{shorter, DeviceView, FtdiDevice};
use crate::error::Error;
use crate::packet::{payload, read_transfer_size, transfer_size, STATUS_LEN};
use crate::platform::{
    buffer_bytes, buffer_into_vec, buffer_requested_len, extend_buffer, new_buffer, requested_len,
};
use crate::recovery::RecoveryGuard;

verus! {

/// How a bulk transfer ended.
pub struct Completion {
    /// The buffer that was submitted, with what was received.
    pub buffer: Buffer,
    /// How many bytes were transferred.
    pub actual_len: usize,
    pub status: Result<(), TransferError>,
}

// ---- Reading ----

/// What is to be done next about a read.
pub enum ReadStep {
    /// Nothing: the read has ended.
    Done(Result<usize, Error>),
    /// Submit the buffer, if there is one, and wait for a completion, but no
    /// longer than `timeout` from now. Then call [`FtdiDevice::resume_read`].
    Wait { submit: Option<Buffer>, timeout: Duration },
}

/// Whether `submit` is what a read of `len` bytes submits.
pub open spec fn read_submits(
    device: DeviceView,
    len: usize,
    packet_size: usize,
    pending: usize,
    submit: Option<Buffer>,
) -> bool {
    match submit {
        None => pending > 0,
        Some(buffer) => {
            &&& pending == 0
            &&& buffer_bytes(buffer) == Seq::<u8>::empty()
            &&& Some(buffer_requested_len(buffer) as usize) == transfer_size(
                len,
                device.read_chunksize,
                packet_size,
            )
            &&& buffer_requested_len(buffer) <= u32::MAX
        },
    }
}

/// How a read of `len` bytes ends before any transfer is waited for, if it does.
pub open spec fn read_at_once(
    device: DeviceView,
    len: usize,
    packet_size: usize,
    pending: usize,
) -> Option<Result<usize, Error>> {
    if device.recovery_required {
        Some(Err(Error::RecoveryRequired))
    } else if len == 0 {
        Some(Ok(0))
    } else if packet_size <= STATUS_LEN {
        Some(Err(Error::InvalidArgument("invalid read endpoint packet size")))
    } else if device.input.len() > 0 {
        Some(Ok(shorter(device.input.len(), len as nat) as usize))
    } else if pending == 0 && transfer_size(len, device.read_chunksize, packet_size) is None {
        Some(Err(Error::InvalidArgument("read transfer size overflow")))
    } else {
        None
    }
}

/// The serial input that a completed read brought: none, if it brought status
/// bytes alone.
pub open spec fn received(completion: Completion, packet_size: usize) -> Seq<u8> {
    if completion.actual_len <= STATUS_LEN {
        Seq::empty()
    } else {
        payload(
            buffer_bytes(completion.buffer).take(completion.actual_len as int),
            packet_size as nat,
        )
    }
}

/// Whether a read into `buf` begins with `step`, leaving `filled` in the place
/// of `buf` and `after` in the place of `before`.
pub open spec fn read_begun(
    before: DeviceView,
    buf: Seq<u8>,
    packet_size: usize,
    pending: usize,
    after: DeviceView,
    filled: Seq<u8>,
    step: ReadStep,
) -> bool {
    let at_once = read_at_once(before, buf.len() as usize, packet_size, pending);
    let taken = match at_once {
        Some(Ok(n)) => n as int,
        _ => 0,
    };
    &&& filled == before.input.take(taken) + buf.skip(taken)
    &&& after == (DeviceView { input: before.input.skip(taken), ..before })
    &&& match at_once {
        Some(result) => step == ReadStep::Done(result),
        None => {
            &&& step matches ReadStep::Wait { submit, timeout }
            &&& timeout == before.read_timeout
            &&& before.input.len() == 0
            &&& read_submits(before, buf.len() as usize, packet_size, pending, submit)
        },
    }
}

/// Whether a read into `buf` that waited for `completion` ends with `result`,
/// leaving `filled` in the place of `buf` and `after` in the place of `before`.
pub open spec fn read_resumed(
    before: DeviceView,
    buf: Seq<u8>,
    packet_size: usize,
    completion: Option<Completion>,
    after: DeviceView,
    filled: Seq<u8>,
    result: Result<usize, Error>,
) -> bool {
    match completion {
        None => {
            &&& result == Err::<usize, Error>(Error::Timeout(before.read_timeout))
            &&& after == before
            &&& filled == buf
        },
        Some(c) => match c.status {
            Err(error) => {
                &&& result == Err::<usize, Error>(Error::Transfer(error))
                &&& after == before
                &&& filled == buf
            },
            Ok(()) => {
                let input = received(c, packet_size);
                let taken = shorter(input.len(), buf.len()) as int;
                &&& result == Ok::<usize, Error>(taken as usize)
                &&& filled == input.take(taken) + buf.skip(taken)
                &&& after == (DeviceView { input: input.skip(taken), ..before })
            },
        },
    }
}

impl FtdiDevice {
    /// Read data from the device into `buf`.
    ///
    /// `packet_size` is that of the read endpoint, and `pending` the number of
    /// transfers queued on it. The two modem status bytes that the chip
    /// prepends to every USB packet are stripped. The number of payload bytes
    /// read is 0 if the chip only sent status bytes.
    ///
    /// Input that is held is served first. A transfer left queued by a read
    /// that timed out or was cancelled is resumed rather than discarded, so no
    /// input is lost.
    pub fn read_data(&mut self, buf: &mut [u8], packet_size: usize, pending: usize) -> (step:
        ReadStep)
        requires
            old(self).wf(),
            read_at_once(old(self)@, old(buf)@.len() as usize, packet_size, pending) is None
                && pending == 0 ==> (transfer_size(
                old(buf)@.len() as usize,
                old(self)@.read_chunksize,
                packet_size,
            ) matches Some(size) ==> size <= isize::MAX),
        ensures
            final(self).wf(),
            read_begun(
                old(self)@,
                old(buf)@,
                packet_size,
                pending,
                final(self)@,
                final(buf)@,
                step,
            ),
            // The read buffer has room for all that is asked for.
            step matches ReadStep::Wait { submit: Some(buffer), .. } ==> final(self).buffer().len()
                == buffer_requested_len(buffer),
    {
        let len: usize = buf.len();
        assert(self@.input.take(0) + buf@.skip(0) =~= buf@);
        assert(self@.input.skip(0) =~= self@.input);
        match self.ensure_ready() {
            Ok(()) => {},
            Err(error) => return ReadStep::Done(Err(error)),
        }
        if len == 0 {
            return ReadStep::Done(Ok(0));
        }
        if packet_size <= STATUS_LEN {
            return ReadStep::Done(
                Err(Error::InvalidArgument("invalid read endpoint packet size")),
            );
        }
        if self.has_input() {
            let taken: usize = self.take_input(buf);
            return ReadStep::Done(Ok(taken));
        }
        let timeout = self.read_timeout();
        if pending > 0 {
            return ReadStep::Wait { submit: None, timeout };
        }
        match read_transfer_size(len, self.read_chunksize(), packet_size) {
            Some(size) => {
                self.prepare_input(size);
                ReadStep::Wait { submit: Some(new_buffer(size)), timeout }
            },
            None => ReadStep::Done(Err(Error::InvalidArgument("read transfer size overflow"))),
        }
    }

    /// Go on with a read once a transfer has completed, or was waited for in
    /// vain (`None`). What does not fit in `buf` is held for the next read.
    pub fn resume_read(
        &mut self,
        buf: &mut [u8],
        packet_size: usize,
        completion: Option<Completion>,
    ) -> (result: Result<usize, Error>)
        requires
            old(self).wf(),
            old(self)@.input.len() == 0,
            packet_size > STATUS_LEN,
            completion matches Some(c) ==> (c.status is Ok && c.actual_len > STATUS_LEN
                ==> c.actual_len <= buffer_bytes(c.buffer).len()),
        ensures
            final(self).wf(),
            read_resumed(
                old(self)@,
                old(buf)@,
                packet_size,
                completion,
                final(self)@,
                final(buf)@,
                result,
            ),
    {
        let completion = match completion {
            Some(completion) => completion,
            None => return Err(Error::Timeout(self.read_timeout())),
        };
        let ghost input = received(completion, packet_size);
        let Completion { buffer, actual_len, status } = completion;
        match status {
            Ok(()) => {},
            Err(error) => return Err(Error::Transfer(error)),
        }
        if actual_len <= STATUS_LEN {
            // Only modem status bytes, no payload.
            assert(input.take(0) + buf@.skip(0) =~= buf@);
            assert(input.skip(0) =~= self@.input);
            return Ok(0);
        }
        let raw: Vec<u8> = buffer_into_vec(buffer);
        Ok(self.accept_input(&raw, actual_len, packet_size, buf))
    }
}

// ---- Writing ----

/// Where a write stands within its current chunk.
#[derive(Clone, Copy, Debug, PartialEq, Eq, Structural)]
pub enum WritePhase {
    /// Transfers that an earlier write left queued have to complete first.
    Before,
    /// The chunk was submitted and has to complete.
    Submitted,
}

/// A write in progress.
#[derive(Debug)]
pub struct Write {
    /// Armed: only a write that is dropped leaves its outcome unknown.
    pub guard: RecoveryGuard,
    /// How many bytes are written.
    pub offset: usize,
    pub phase: WritePhase,
}

/// What is to be done next about a write.
pub enum WriteStep {
    /// Nothing: the write has ended.
    Done(Result<usize, Error>),
    /// A new chunk begins: the waits of this chunk end `timeout` from now.
    /// Answered by [`WriteEvent::Ready`].
    Begin { timeout: Duration, write: Write },
    /// Wait for a completion. Answered by [`WriteEvent::Completed`] or
    /// [`WriteEvent::TimedOut`].
    Wait { write: Write },
    /// Submit the buffer. Answered by [`WriteEvent::Ready`].
    Submit { buffer: Buffer, write: Write },
}

/// What became of a step.
pub enum WriteEvent {
    /// The step was taken.
    Ready,
    /// A transfer completed.
    Completed(Completion),
    /// No transfer completed in time.
    TimedOut,
}

/// Where the chunk ends that starts at `offset`.
pub open spec fn chunk_end(device: DeviceView, len: nat, offset: nat) -> nat {
    shorter(offset + device.write_chunksize as nat, len)
}

/// Whether the chunks of a write of `len` bytes are small enough for a transfer.
pub open spec fn chunks_fit(device: DeviceView, len: nat) -> bool {
    let chunk = shorter(device.write_chunksize as nat, len);
    chunk <= u32::MAX && chunk <= isize::MAX
}

/// How a completed write transfer is judged.
pub open spec fn judged(completion: Completion) -> Result<(), Error> {
    match completion.status {
        Err(error) => Err(Error::Transfer(error)),
        Ok(()) => if completion.actual_len == buffer_requested_len(completion.buffer) {
            Ok(())
        } else {
            Err(
                Error::ShortWrite {
                    expected: buffer_requested_len(completion.buffer) as usize,
                    actual: completion.actual_len,
                },
            )
        },
    }
}

/// The error with which `event` ends a write, if it does.
pub open spec fn write_error(device: DeviceView, event: WriteEvent) -> Option<Error> {
    match event {
        WriteEvent::Ready => None,
        WriteEvent::TimedOut => Some(Error::Timeout(device.write_timeout)),
        WriteEvent::Completed(completion) => match judged(completion) {
            Ok(()) => None,
            Err(error) => Some(error),
        },
    }
}

/// Whether `step` is how a write of `data` goes on at `offset`.
pub open spec fn chunk_begun(
    device: DeviceView,
    data: Seq<u8>,
    offset: int,
    guard: RecoveryGuard,
    step: WriteStep,
) -> bool {
    if offset < data.len() {
        step == (WriteStep::Begin {
            timeout: device.write_timeout,
            write: Write { guard, offset: offset as usize, phase: WritePhase::Before },
        })
    } else {
        step == WriteStep::Done(Ok(offset as usize))
    }
}

/// Whether `step` is how a write of `data` goes on after `event`, with `pending`
/// transfers queued.
pub open spec fn write_goes_on(
    device: DeviceView,
    data: Seq<u8>,
    write: Write,
    pending: usize,
    event: WriteEvent,
    step: WriteStep,
) -> bool {
    let end = chunk_end(device, data.len(), write.offset as nat);
    match write_error(device, event) {
        Some(error) => step == WriteStep::Done(Err(error)),
        None => if pending > 0 {
            step == (WriteStep::Wait { write })
        } else {
            match write.phase {
                WritePhase::Before => {
                    &&& step matches WriteStep::Submit { buffer, write: next }
                    &&& buffer_bytes(buffer) == data.subrange(write.offset as int, end as int)
                    &&& buffer_requested_len(buffer) == end - write.offset
                    &&& next == (Write { phase: WritePhase::Submitted, ..write })
                },
                WritePhase::Submitted => chunk_begun(
                    device,
                    data,
                    end as int,
                    write.guard,
                    step,
                ),
            }
        },
    }
}

fn judge(completion: Completion) -> (result: Result<(), Error>)
    ensures
        result == judged(completion),
{
    match completion.status {
        Err(error) => Err(Error::Transfer(error)),
        Ok(()) => {
            let expected: usize = requested_len(&completion.buffer);
            if completion.actual_len != expected {
                Err(Error::ShortWrite { expected, actual: completion.actual_len })
            } else {
                Ok(())
            }
        },
    }
}

impl FtdiDevice {
    /// Write data to the device, in chunks of
    /// [`write_chunksize`](Self::write_chunksize). Ends with the number of bytes
    /// written.
    ///
    /// Transfer errors are returned and leave the device ready. A write that is
    /// dropped, however, may have transmitted a chunk in part or in full: pass it
    /// to [`abandon_write`](Self::abandon_write), and the device requires
    /// recovery.
    pub fn write_data(&mut self, buf: &[u8]) -> (step: WriteStep)
        requires
            old(self).wf(),
        ensures
            final(self).wf(),
            final(self)@ == old(self)@,
            if old(self)@.recovery_required {
                step == WriteStep::Done(Err(Error::RecoveryRequired))
            } else {
                chunk_begun(old(self)@, buf@, 0, RecoveryGuard { armed: true }, step)
            },
    {
        match self.ensure_ready() {
            Ok(()) => {},
            Err(error) => return WriteStep::Done(Err(error)),
        }
        if buf.len() == 0 {
            return WriteStep::Done(Ok(0));
        }
        WriteStep::Begin {
            timeout: self.write_timeout(),
            write: Write { guard: RecoveryGuard::new(), offset: 0, phase: WritePhase::Before },
        }
    }

    /// Go on with a write of `buf`. `pending` is the number of transfers queued
    /// on the write endpoint.
    pub fn resume_write(&mut self, buf: &[u8], write: Write, pending: usize, event: WriteEvent) -> (
        step: WriteStep)
        requires
            old(self).wf(),
            write.offset < buf@.len(),
            chunks_fit(old(self)@, buf@.len()),
        ensures
            final(self).wf(),
            final(self)@ == old(self)@,
            write_goes_on(old(self)@, buf@, write, pending, event, step),
    {
        let Write { guard, offset, phase } = write;
        let judged: Result<(), Error> = match event {
            WriteEvent::Ready => Ok(()),
            WriteEvent::TimedOut => Err(Error::Timeout(self.write_timeout())),
            WriteEvent::Completed(completion) => judge(completion),
        };
        match judged {
            Ok(()) => {},
            Err(error) => {
                self.complete(guard);
                return WriteStep::Done(Err(error));
            },
        }
        if pending > 0 {
            return WriteStep::Wait { write: Write { guard, offset, phase } };
        }
        let chunksize: usize = self.write_chunksize();
        let end: usize = if chunksize <= buf.len() - offset {
            offset + chunksize
        } else {
            buf.len()
        };
        match phase {
            WritePhase::Before => {
                let chunk: &[u8] = vstd::slice::slice_subrange(buf, offset, end);
                let mut buffer: Buffer = new_buffer(chunk.len());
                extend_buffer(&mut buffer, chunk);
                assert(buffer_bytes(buffer) =~= buf@.subrange(offset as int, end as int));
                WriteStep::Submit {
                    buffer,
                    write: Write { guard, offset, phase: WritePhase::Submitted },
                }
            },
            WritePhase::Submitted => {
                if end < buf.len() {
                    WriteStep::Begin {
                        timeout: self.write_timeout(),
                        write: Write { guard, offset: end, phase: WritePhase::Before },
                    }
                } else {
                    self.complete(guard);
                    WriteStep::Done(Ok(end))
                }
            },
        }
    }

    /// Drop a write before it is done: the device requires recovery, so that
    /// nothing races the transfer that may still be queued.
    pub fn abandon_write(&mut self, write: Write)
        requires
            old(self).wf(),
        ensures
            final(self).wf(),
            final(self)@ == old(self)@.released(write.guard),
    {
        self.release(write.guard);
    }
}

/// What is to be done next about a write of everything.
#[derive(Debug)]
pub enum WriteAllStep {
    /// Nothing: it has ended.
    Done(Result<(), Error>),
    /// Write the data from `offset` on.
    Write { offset: usize },
}

/// How a write of all of `len` bytes goes on when `offset` are written.
pub open spec fn write_all_from(len: nat, offset: nat) -> WriteAllStep {
    if offset < len {
        WriteAllStep::Write { offset: offset as usize }
    } else {
        WriteAllStep::Done(Ok(()))
    }
}

/// How a write of all of `len` bytes goes on after a write from `offset` on.
pub open spec fn write_all_next(
    len: nat,
    offset: usize,
    written: Result<usize, Error>,
) -> WriteAllStep {
    match written {
        Err(error) => WriteAllStep::Done(Err(error)),
        Ok(n) => if n == 0 {
            WriteAllStep::Done(Err(Error::WriteZero))
        } else {
            write_all_from(len, (offset + n) as nat)
        },
    }
}

impl FtdiDevice {
    /// Write all bytes to the device, however many writes that takes.
    pub fn write_all(buf: &[u8]) -> (step: WriteAllStep)
        ensures
            step == write_all_from(buf@.len(), 0),
    {
        if buf.len() > 0 {
            WriteAllStep::Write { offset: 0 }
        } else {
            WriteAllStep::Done(Ok(()))
        }
    }

    /// Go on with a write of everything after a write from `offset` on.
    pub fn resume_write_all(buf: &[u8], offset: usize, written: Result<usize, Error>) -> (step:
        WriteAllStep)
        requires
            written matches Ok(n) ==> offset + n <= buf@.len(),
        ensures
            step == write_all_next(buf@.len(), offset, written),
    {
        match written {
            Err(error) => WriteAllStep::Done(Err(error)),
            Ok(n) => {
                if n == 0 {
                    return WriteAllStep::Done(Err(Error::WriteZero));
                }
                let len: usize = buf.len();
                if n < len - offset {
                    WriteAllStep::Write { offset: offset + n }
                } else {
                    WriteAllStep::Done(Ok(()))
                }
            },
        }
    }
}

// ---- Retrying ----

/// A transfer that is retried on transient errors.
#[derive(Clone, Copy, Debug)]
pub struct Retry {
    /// How many attempts may follow the current one.
    pub left: usize,
    /// How long to pause after a failed attempt.
    pub delay: Duration,
}

/// What is to be done next about a transfer that is retried.
#[derive(Debug)]
pub enum RetryStep {
    /// Nothing: it has ended.
    Done(Result<usize, Error>),
    /// Pause, then make another attempt.
    PauseAndRetry { delay: Duration, retry: Retry },
    /// Pause, then end with this error.
    PauseAndFail { delay: Duration, error: Error },
}

/// How a transfer goes on after an attempt with this result.
pub open spec fn retried(retry: Retry, result: Result<usize, Error>) -> RetryStep {
    match result {
        Err(error) => if error is Transfer {
            if retry.left > 0 {
                RetryStep::PauseAndRetry {
                    delay: retry.delay,
                    retry: Retry { left: (retry.left - 1) as usize, ..retry },
                }
            } else {
                RetryStep::PauseAndFail { delay: retry.delay, error }
            }
        } else {
            RetryStep::Done(Err(error))
        },
        Ok(n) => RetryStep::Done(Ok(n)),
    }
}

impl FtdiDevice {
    /// Read data with retry on transient USB errors: the first attempt of up to
    /// `max_retries + 1`.
    pub fn read_data_retry(max_retries: usize, retry_delay: Duration) -> (retry: Retry)
        ensures
            retry == (Retry { left: max_retries, delay: retry_delay }),
    {
        Retry { left: max_retries, delay: retry_delay }
    }

    /// Write data with retry on transient USB errors: the first attempt of up to
    /// `max_retries + 1`.
    pub fn write_data_retry(max_retries: usize, retry_delay: Duration) -> (retry: Retry)
        ensures
            retry == (Retry { left: max_retries, delay: retry_delay }),
    {
        Retry { left: max_retries, delay: retry_delay }
    }
}

impl Retry {
    /// Decide on the result of an attempt. Only errors of a transfer are
    /// transient.
    pub fn after(self, result: Result<usize, Error>) -> (step: RetryStep)
        ensures
            step == retried(self, result),
    {
        match result {
            Ok(n) => RetryStep::Done(Ok(n)),
            Err(Error::Transfer(error)) => {
                if self.left > 0 {
                    RetryStep::PauseAndRetry {
                        delay: self.delay,
                        retry: Retry { left: self.left - 1, delay: self.delay },
                    }
                } else {
                    RetryStep::PauseAndFail { delay: self.delay, error: Error::Transfer(error) }
                }
            },
            Err(error) => RetryStep::Done(Err(error)),
        }
    }
}

// ---- Draining ----

/// What is to be done next about an endpoint whose transfers were cancelled.
#[derive(Debug)]
pub enum DrainStep {
    /// Nothing: no transfer is queued any more.
    Done,
    /// Wait for a completion.
    Wait,
    /// Cancel the transfers once more, and end with this error.
    CancelAndFail(Error),
}

/// Whether cancelled transfers are cleared: `None` if `pending` of them have to
/// be waited for, and `false` if such a wait timed out.
pub fn clear_pending_transfers(pending: usize, timed_out: bool) -> (cleared: Option<bool>)
    ensures
        cleared == (if timed_out {
            Some(false)
        } else if pending > 0 {
            None
        } else {
            Some(true)
        }),
{
    if timed_out {
        Some(false)
    } else if pending > 0 {
        None
    } else {
        Some(true)
    }
}

/// Go on with an endpoint whose transfers were cancelled and have to complete
/// within `timeout`: `pending` of them are still queued, and the last wait for
/// one timed out or not.
pub fn cancel_and_drain(timeout: Duration, pending: usize, timed_out: bool) -> (step: DrainStep)
    ensures
        step == (if timed_out {
            DrainStep::CancelAndFail(Error::Timeout(timeout))
        } else if pending > 0 {
            DrainStep::Wait
        } else {
            DrainStep::Done
        }),
{
    match clear_pending_transfers(pending, timed_out) {
        None => DrainStep::Wait,
        Some(true) => DrainStep::Done,
        Some(false) => DrainStep::CancelAndFail(Error::Timeout(timeout)),
    }
}

} // verus!
