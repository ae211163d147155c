//! The state of an opened device.

use std::time::Duration;

use vstd::prelude::*;

use crate::error::Error;
use crate::identify::{detect_chip_type, determine_max_packet_size};
use crate::packet::strip_modem_status;
use crate::recovery::{successor, RecoveryAction, RecoveryGuard};
use crate::types::{BitMode, ChipType, Interface};

verus! {

/// Default read and write timeout, in seconds.
pub const DEFAULT_TIMEOUT_SECS: u64 = 5;

/// Default read and write buffer chunk size.
pub const DEFAULT_CHUNKSIZE: usize = 4096;

/// An opened FTDI USB device.
///
/// It records how the chip was configured, holds the input that was received
/// but not read yet, and knows whether the device has to be recovered.
#[derive(Debug)]
pub struct FtdiDevice {
    chip_type: ChipType,
    baudrate: u32,
    bitbang_enabled: bool,
    bitbang_mode: BitMode,
    // Direction mask of the last bit mode; recovery sets it again.
    bitbang_mask: u8,
    read_timeout: Duration,
    write_timeout: Duration,
    // Received input, with the modem status bytes stripped.
    readbuffer: Vec<u8>,
    readbuffer_offset: usize,
    readbuffer_remaining: usize,
    readbuffer_chunksize: usize,
    writebuffer_chunksize: usize,
    max_packet_size: usize,
    interface_num: u8,
    usb_index: u16,
    recovery_required: bool,
    recovery_epoch: u64,
    recovery_action: RecoveryAction,
    // Unique per opened device; binds MPSSE contexts to the device they were
    // initialized on.
    device_id: u64,
}

/// What a device knows, with its read buffer as the input that it holds.
#[verifier::ext_equal]
pub struct DeviceView {
    pub chip_type: ChipType,
    pub baudrate: u32,
    pub bitbang_enabled: bool,
    pub bitbang_mode: BitMode,
    pub bitbang_mask: u8,
    pub read_timeout: Duration,
    pub write_timeout: Duration,
    /// Input that was received but not read yet, oldest byte first.
    pub input: Seq<u8>,
    pub read_chunksize: usize,
    pub write_chunksize: usize,
    pub max_packet_size: usize,
    pub interface_num: u8,
    pub usb_index: u16,
    pub recovery_required: bool,
    pub recovery_epoch: u64,
    pub recovery_action: RecoveryAction,
    pub device_id: u64,
}

impl DeviceView {
    /// With every MPSSE context created so far invalidated.
    pub open spec fn epoch_bumped(self) -> DeviceView {
        DeviceView { recovery_epoch: successor(self.recovery_epoch), ..self }
    }

    /// With no input held.
    pub open spec fn input_discarded(self) -> DeviceView {
        DeviceView { input: Seq::empty(), ..self }
    }

    /// With recovery required, or not.
    pub open spec fn poisoned(self, recovery_required: bool) -> DeviceView {
        DeviceView { recovery_required, ..self }
    }

    /// After a guard was let go of.
    pub open spec fn released(self, guard: RecoveryGuard) -> DeviceView {
        self.poisoned(self.recovery_required || guard.armed)
    }

    /// With `baudrate` recorded as the baud rate.
    pub open spec fn with_baudrate(self, baudrate: u32) -> DeviceView {
        DeviceView { baudrate, ..self }
    }

    /// With `mode` recorded as the bit mode.
    pub open spec fn with_bitmode(self, bitmask: u8, mode: BitMode) -> DeviceView {
        DeviceView {
            bitbang_mode: mode,
            bitbang_enabled: mode != BitMode::Reset,
            bitbang_mask: bitmask,
            ..self
        }
    }
}

/// A device as it is when it has just been opened.
pub open spec fn opened(
    chip_type: ChipType,
    max_packet_size: usize,
    iface: Interface,
    device_id: u64,
) -> DeviceView {
    DeviceView {
        chip_type,
        baudrate: 0,
        bitbang_enabled: false,
        bitbang_mode: BitMode::Reset,
        bitbang_mask: 0,
        read_timeout: crate::platform::seconds(DEFAULT_TIMEOUT_SECS),
        write_timeout: crate::platform::seconds(DEFAULT_TIMEOUT_SECS),
        input: Seq::empty(),
        read_chunksize: DEFAULT_CHUNKSIZE,
        write_chunksize: DEFAULT_CHUNKSIZE,
        max_packet_size,
        interface_num: iface.addresses().interface_num,
        usb_index: if chip_type.multi_channel() {
            iface.addresses().usb_index
        } else {
            0
        },
        recovery_required: false,
        recovery_epoch: 0,
        recovery_action: RecoveryAction::Nothing,
        device_id,
    }
}

/// A device as it is when it has just been opened, by what its descriptors say.
pub open spec fn opened_device(
    bcd_device: u16,
    has_serial: bool,
    configuration: Option<&[u8]>,
    iface: Interface,
    device_id: u64,
) -> DeviceView {
    let chip_type = crate::identify::chip_of(bcd_device, has_serial);
    let layout = match configuration {
        Some(bytes) => crate::platform::configuration_layout(bytes@),
        None => None,
    };
    opened(
        chip_type,
        crate::identify::max_packet_size_of(layout, chip_type, iface.addresses().interface_num),
        iface,
        device_id,
    )
}

/// The smaller of two lengths.
pub open spec fn shorter(a: nat, b: nat) -> nat {
    if a <= b {
        a
    } else {
        b
    }
}

/// `buffer` cut off, or filled up with zeros, to a length of `size`.
pub open spec fn resized(buffer: Seq<u8>, size: nat) -> Seq<u8> {
    Seq::new(
        size,
        |i: int|
            if i < buffer.len() {
                buffer[i]
            } else {
                0
            },
    )
}

impl View for FtdiDevice {
    type V = DeviceView;

    closed spec fn view(&self) -> DeviceView {
        DeviceView {
            chip_type: self.chip_type,
            baudrate: self.baudrate,
            bitbang_enabled: self.bitbang_enabled,
            bitbang_mode: self.bitbang_mode,
            bitbang_mask: self.bitbang_mask,
            read_timeout: self.read_timeout,
            write_timeout: self.write_timeout,
            input: if self.readbuffer_remaining == 0 {
                Seq::empty()
            } else {
                self.readbuffer@.subrange(
                    self.readbuffer_offset as int,
                    self.readbuffer_offset + self.readbuffer_remaining,
                )
            },
            read_chunksize: self.readbuffer_chunksize,
            write_chunksize: self.writebuffer_chunksize,
            max_packet_size: self.max_packet_size,
            interface_num: self.interface_num,
            usb_index: self.usb_index,
            recovery_required: self.recovery_required,
            recovery_epoch: self.recovery_epoch,
            recovery_action: self.recovery_action,
            device_id: self.device_id,
        }
    }
}

// ---- Construction ----

impl FtdiDevice {
    /// The held input lies within the read buffer, and a bitbang mode is
    /// enabled if one other than [`BitMode::Reset`] is recorded.
    pub closed spec fn wf(&self) -> bool {
        &&& self.readbuffer_remaining > 0 ==> self.readbuffer_offset + self.readbuffer_remaining
            <= self.readbuffer@.len()
        &&& self.bitbang_enabled == (self.bitbang_mode != BitMode::Reset)
    }

    /// The read buffer as a whole: the held input lies in it, and completed
    /// transfers are copied to it.
    pub closed spec fn buffer(&self) -> Seq<u8> {
        self.readbuffer@
    }

    /// In every state of a device, a bitbang mode is enabled exactly if the
    /// recorded mode is one.
    pub proof fn bitbang_flag_matches_mode(&self)
        requires
            self.wf(),
        ensures
            self@.bitbang_enabled == (self@.bitbang_mode != BitMode::Reset),
    {
    }

    /// The state of a device that was just opened on the channel `iface`.
    ///
    /// `bcd_device` and `has_serial` are the device version and the presence
    /// of a serial number string in the device descriptor; `configuration`
    /// holds the bytes of the active configuration, if there is one. Control
    /// requests carry index 0 on single-channel chips and the number of the
    /// channel, from 1, on the others.
    pub fn from_open_device(
        bcd_device: u16,
        has_serial: bool,
        configuration: Option<&[u8]>,
        iface: Interface,
        device_id: u64,
    ) -> (device: FtdiDevice)
        ensures
            device.wf(),
            device@ == opened_device(bcd_device, has_serial, configuration, iface, device_id),
            device.buffer() == resized(Seq::empty(), DEFAULT_CHUNKSIZE as nat),
    {
        let config = iface.config();
        let chip_type = detect_chip_type(bcd_device, has_serial);
        let max_packet_size: usize = determine_max_packet_size(
            configuration,
            chip_type,
            config.interface_num,
        );
        let usb_index: u16 = if chip_type.is_multi_channel() {
            config.usb_index
        } else {
            0
        };
        FtdiDevice {
            chip_type,
            baudrate: 0,
            bitbang_enabled: false,
            bitbang_mode: BitMode::Reset,
            bitbang_mask: 0,
            read_timeout: Duration::from_secs(DEFAULT_TIMEOUT_SECS),
            write_timeout: Duration::from_secs(DEFAULT_TIMEOUT_SECS),
            readbuffer: vec![0u8; DEFAULT_CHUNKSIZE],
            readbuffer_offset: 0,
            readbuffer_remaining: 0,
            readbuffer_chunksize: DEFAULT_CHUNKSIZE,
            writebuffer_chunksize: DEFAULT_CHUNKSIZE,
            max_packet_size,
            interface_num: config.interface_num,
            usb_index,
            recovery_required: false,
            recovery_epoch: 0,
            recovery_action: RecoveryAction::Nothing,
            device_id,
        }
    }
}

// ---- Accessors ----

impl FtdiDevice {
    /// The detected FTDI chip type.
    pub fn chip_type(&self) -> (chip_type: ChipType)
        ensures
            chip_type == self@.chip_type,
    {
        self.chip_type
    }

    /// The currently configured baud rate.
    pub fn baudrate(&self) -> (baudrate: u32)
        ensures
            baudrate == self@.baudrate,
    {
        self.baudrate
    }

    /// The maximum USB packet size for this device.
    pub fn max_packet_size(&self) -> (size: usize)
        ensures
            size == self@.max_packet_size,
    {
        self.max_packet_size
    }

    /// The number of the USB interface.
    pub fn interface_num(&self) -> (interface_num: u8)
        ensures
            interface_num == self@.interface_num,
    {
        self.interface_num
    }

    /// The channel index of control requests.
    pub fn usb_index(&self) -> (usb_index: u16)
        ensures
            usb_index == self@.usb_index,
    {
        self.usb_index
    }

    /// Whether a bitbang or MPSSE mode is enabled.
    pub fn bitbang_enabled(&self) -> (enabled: bool)
        ensures
            enabled == self@.bitbang_enabled,
    {
        self.bitbang_enabled
    }

    /// The last bit mode and its direction mask.
    pub fn bitmode(&self) -> (mode: (u8, BitMode))
        ensures
            mode == (self@.bitbang_mask, self@.bitbang_mode),
    {
        (self.bitbang_mask, self.bitbang_mode)
    }

    /// Set the read timeout for USB transfers.
    pub fn set_read_timeout(&mut self, timeout: Duration)
        requires
            old(self).wf(),
        ensures
            final(self).wf(),
            final(self)@ == (DeviceView { read_timeout: timeout, ..old(self)@ }),
    {
        self.read_timeout = timeout;
    }

    /// Set the write timeout for USB transfers.
    pub fn set_write_timeout(&mut self, timeout: Duration)
        requires
            old(self).wf(),
        ensures
            final(self).wf(),
            final(self)@ == (DeviceView { write_timeout: timeout, ..old(self)@ }),
    {
        self.write_timeout = timeout;
    }

    /// Get the current read timeout.
    pub fn read_timeout(&self) -> (timeout: Duration)
        ensures
            timeout == self@.read_timeout,
    {
        self.read_timeout
    }

    /// Get the current write timeout.
    pub fn write_timeout(&self) -> (timeout: Duration)
        ensures
            timeout == self@.write_timeout,
    {
        self.write_timeout
    }

    /// Set the read buffer chunk size. Input that is held is discarded.
    pub fn set_read_chunksize(&mut self, chunksize: usize)
        requires
            old(self).wf(),
            chunksize <= isize::MAX,
        ensures
            final(self).wf(),
            final(self)@ == (DeviceView {
                input: Seq::empty(),
                read_chunksize: chunksize,
                ..old(self)@
            }),
            final(self).buffer() == resized(old(self).buffer(), chunksize as nat),
    {
        self.readbuffer_offset = 0;
        self.readbuffer_remaining = 0;
        self.readbuffer_chunksize = chunksize;
        self.prepare_input(chunksize);
    }

    /// Get the current read buffer chunk size.
    pub fn read_chunksize(&self) -> (chunksize: usize)
        ensures
            chunksize == self@.read_chunksize,
    {
        self.readbuffer_chunksize
    }

    /// Set the write buffer chunk size.
    pub fn set_write_chunksize(&mut self, chunksize: usize)
        requires
            old(self).wf(),
        ensures
            final(self).wf(),
            final(self)@ == (DeviceView { write_chunksize: chunksize, ..old(self)@ }),
    {
        self.writebuffer_chunksize = chunksize;
    }

    /// Get the current write buffer chunk size.
    pub fn write_chunksize(&self) -> (chunksize: usize)
        ensures
            chunksize == self@.write_chunksize,
    {
        self.writebuffer_chunksize
    }
}

// ---- Recovery state ----

impl FtdiDevice {
    /// Refuse to go on while the device requires recovery.
    pub fn ensure_ready(&self) -> (ready: Result<(), Error>)
        ensures
            ready == (if self@.recovery_required {
                Err::<(), Error>(Error::RecoveryRequired)
            } else {
                Ok::<(), Error>(())
            }),
    {
        if self.recovery_required {
            Err(Error::RecoveryRequired)
        } else {
            Ok(())
        }
    }

    /// Begin an operation that has to complete, or else the device requires
    /// recovery.
    pub fn begin_stateful_operation(&self) -> (begun: Result<RecoveryGuard, Error>)
        ensures
            begun == (if self@.recovery_required {
                Err::<RecoveryGuard, Error>(Error::RecoveryRequired)
            } else {
                Ok::<RecoveryGuard, Error>(RecoveryGuard { armed: true })
            }),
    {
        match self.ensure_ready() {
            Ok(()) => Ok(RecoveryGuard::new()),
            Err(error) => Err(error),
        }
    }

    /// Let go of a guard: if it is still armed, the device requires recovery.
    pub fn release(&mut self, guard: RecoveryGuard)
        requires
            old(self).wf(),
        ensures
            final(self).wf(),
            final(self)@ == old(self)@.released(guard),
    {
        let mut recovery_required = self.recovery_required;
        guard.release(&mut recovery_required);
        self.recovery_required = recovery_required;
    }

    /// Let go of a guard whose operation is complete.
    pub(crate) fn complete(&mut self, guard: RecoveryGuard)
        requires
            old(self).wf(),
        ensures
            final(self).wf(),
            final(self)@ == old(self)@,
    {
        let mut guard = guard;
        guard.disarm();
        self.release(guard);
    }

    /// Whether the device requires recovery.
    pub fn recovery_required(&self) -> (required: bool)
        ensures
            required == self@.recovery_required,
    {
        self.recovery_required
    }

    /// Record the persistent operation that recovery has to finish.
    pub fn set_recovery_action(&mut self, action: RecoveryAction)
        requires
            old(self).wf(),
        ensures
            final(self).wf(),
            final(self)@ == (DeviceView { recovery_action: action, ..old(self)@ }),
    {
        self.recovery_action = action;
    }

    /// The persistent operation that recovery has to finish.
    pub fn recovery_action(&self) -> (action: RecoveryAction)
        ensures
            action == self@.recovery_action,
    {
        self.recovery_action
    }

    /// Record that recovery has no persistent operation to finish.
    pub fn clear_recovery_action(&mut self)
        requires
            old(self).wf(),
        ensures
            final(self).wf(),
            final(self)@ == (DeviceView {
                recovery_action: RecoveryAction::Nothing,
                ..old(self)@
            }),
    {
        self.recovery_action = RecoveryAction::Nothing;
    }

    /// The current recovery epoch.
    pub fn recovery_epoch(&self) -> (epoch: u64)
        ensures
            epoch == self@.recovery_epoch,
    {
        self.recovery_epoch
    }

    /// The identity of this device.
    pub fn device_id(&self) -> (device_id: u64)
        ensures
            device_id == self@.device_id,
    {
        self.device_id
    }

    /// Invalidate every MPSSE context and bus object created before now.
    pub fn bump_recovery_epoch(&mut self)
        requires
            old(self).wf(),
        ensures
            final(self).wf(),
            final(self)@ == old(self)@.epoch_bumped(),
    {
        self.recovery_epoch = self.recovery_epoch.wrapping_add(1);
    }

    /// Require recovery before anything else is done.
    pub fn mark_recovery_required(&mut self)
        requires
            old(self).wf(),
        ensures
            final(self).wf(),
            final(self)@ == old(self)@.poisoned(true),
    {
        self.recovery_required = true;
    }

    /// Temporarily permit best-effort cleanup while an outer armed
    /// [`RecoveryGuard`] still owns the final decision.
    pub fn prepare_stateful_cleanup(&mut self)
        requires
            old(self).wf(),
        ensures
            final(self).wf(),
            final(self)@ == old(self)@.poisoned(false),
    {
        self.recovery_required = false;
    }

    /// Record that a streaming session was abandoned. Recovery then returns
    /// the device to reset mode rather than to the mode that was interrupted.
    pub fn mark_stream_abandoned(&mut self)
        requires
            old(self).wf(),
        ensures
            final(self).wf(),
            final(self)@ == (DeviceView {
                bitbang_enabled: false,
                bitbang_mode: BitMode::Reset,
                recovery_required: true,
                ..old(self)@
            }),
    {
        self.bitbang_enabled = false;
        self.bitbang_mode = BitMode::Reset;
        self.mark_recovery_required();
    }

    /// Forget the input that is held.
    pub(crate) fn discard_input(&mut self)
        requires
            old(self).wf(),
        ensures
            final(self).wf(),
            final(self)@ == old(self)@.input_discarded(),
    {
        self.readbuffer_offset = 0;
        self.readbuffer_remaining = 0;
    }

    /// Record the baud rate that the chip was set to.
    pub(crate) fn record_baudrate(&mut self, baudrate: u32)
        requires
            old(self).wf(),
        ensures
            final(self).wf(),
            final(self)@ == old(self)@.with_baudrate(baudrate),
    {
        self.baudrate = baudrate;
    }

    /// Record the bit mode that the chip was set to.
    pub(crate) fn record_bitmode(&mut self, bitmask: u8, mode: BitMode)
        requires
            old(self).wf(),
        ensures
            final(self).wf(),
            final(self)@ == old(self)@.with_bitmode(bitmask, mode),
    {
        self.bitbang_mode = mode;
        self.bitbang_enabled = mode != BitMode::Reset;
        self.bitbang_mask = bitmask;
    }
}

// ---- Received input ----

impl FtdiDevice {
    /// Whether input is held.
    pub fn has_input(&self) -> (held: bool)
        requires
            self.wf(),
        ensures
            held == (self@.input.len() > 0),
    {
        self.readbuffer_remaining > 0
    }

    /// Move as much of the held input to `buf` as fits. Returns how much it was.
    pub(crate) fn take_input(&mut self, buf: &mut [u8]) -> (taken: usize)
        requires
            old(self).wf(),
            old(self)@.input.len() > 0,
        ensures
            final(self).wf(),
            taken == shorter(old(self)@.input.len(), old(buf)@.len()),
            final(buf)@ == old(self)@.input.take(taken as int) + old(buf)@.skip(taken as int),
            final(self)@ == (DeviceView {
                input: old(self)@.input.skip(taken as int),
                ..old(self)@
            }),
    {
        let taken: usize = if self.readbuffer_remaining <= buf.len() {
            self.readbuffer_remaining
        } else {
            buf.len()
        };
        let ghost input = self@.input;
        assert(self.readbuffer.len() == self.readbuffer@.len());
        copy_to_front(buf, self.readbuffer.as_slice(), self.readbuffer_offset, taken);
        assert(input.take(taken as int) =~= self.readbuffer@.subrange(
            self.readbuffer_offset as int,
            self.readbuffer_offset + taken,
        ));
        self.readbuffer_remaining = self.readbuffer_remaining - taken;
        self.readbuffer_offset = self.readbuffer_offset + taken;
        assert(self@.input =~= input.skip(taken as int));
        taken
    }

    /// Make the read buffer `transfer_size` bytes long. No input is held.
    pub(crate) fn prepare_input(&mut self, transfer_size: usize)
        requires
            old(self).wf(),
            old(self)@.input.len() == 0,
            transfer_size <= isize::MAX,
        ensures
            final(self).wf(),
            final(self)@ == old(self)@,
            final(self).buffer() == resized(old(self).buffer(), transfer_size as nat),
    {
        let ghost before = self.readbuffer@;
        self.readbuffer.resize(transfer_size, 0);
        assert forall|i: int| 0 <= i < before.len() && i < transfer_size implies self.readbuffer@[i]
            == before[i] by {
            if before.len() < transfer_size {
                assert(self.readbuffer@.subrange(0, before.len() as int)[i] == before[i]);
            }
        }
    }

    /// Take in the first `actual_len` bytes of a raw transfer: as much of their
    /// payload as fits moves to `buf`, and the rest is held. Returns how much
    /// moved to `buf`. No input is held before.
    pub(crate) fn accept_input(
        &mut self,
        raw: &Vec<u8>,
        actual_len: usize,
        packet_size: usize,
        buf: &mut [u8],
    ) -> (taken: usize)
        requires
            old(self).wf(),
            old(self)@.input.len() == 0,
            actual_len <= raw@.len(),
            packet_size > 0,
        ensures
            final(self).wf(),
            ({
                let received = crate::packet::payload(
                    raw@.take(actual_len as int),
                    packet_size as nat,
                );
                &&& taken == shorter(received.len(), old(buf)@.len())
                &&& final(buf)@ == received.take(taken as int) + old(buf)@.skip(taken as int)
                &&& final(self)@ == (DeviceView {
                    input: received.skip(taken as int),
                    ..old(self)@
                })
            }),
    {
        // A transfer left pending by a cancelled read may be larger than the
        // current buffer if the chunk size was lowered in between.
        if self.readbuffer.len() < actual_len {
            self.readbuffer.resize(actual_len, 0);
        }
        copy_to_front(self.readbuffer.as_mut_slice(), raw.as_slice(), 0, actual_len);
        let ghost received = crate::packet::payload(
            raw@.take(actual_len as int),
            packet_size as nat,
        );
        let stripped: usize;
        {
            let (transfer, _unused) = self.readbuffer.as_mut_slice().split_at_mut(actual_len);
            assert(transfer@ =~= raw@.take(actual_len as int));
            stripped = strip_modem_status(transfer, packet_size);
        }
        assert(self.readbuffer@.take(stripped as int) =~= received);
        if stripped == 0 {
            assert(received.take(0) + buf@.skip(0) =~= buf@);
            assert(received.skip(0) =~= Seq::<u8>::empty());
            return 0;
        }
        let taken: usize = if stripped <= buf.len() {
            stripped
        } else {
            buf.len()
        };
        copy_to_front(buf, self.readbuffer.as_slice(), 0, taken);
        assert(self.readbuffer@.subrange(0, taken as int) =~= received.take(taken as int));
        self.readbuffer_offset = 0;
        if stripped > buf.len() {
            self.shift_buffer(taken, stripped);
            self.readbuffer_remaining = stripped - taken;
            assert(self@.input =~= received.skip(taken as int));
        } else {
            self.readbuffer_remaining = 0;
            assert(received.skip(taken as int) =~= Seq::<u8>::empty());
        }
        taken
    }

    /// Move the bytes from `start` up to `end` to the front of the read buffer.
    fn shift_buffer(&mut self, start: usize, end: usize)
        requires
            start <= end <= old(self).readbuffer@.len(),
        ensures
            final(self).readbuffer@.len() == old(self).readbuffer@.len(),
            final(self).readbuffer@.take(end - start) == old(self).readbuffer@.subrange(
                start as int,
                end as int,
            ),
            *final(self) == (FtdiDevice { readbuffer: final(self).readbuffer, ..*old(self) }),
    {
        let ghost full = self.readbuffer@;
        let ghost before = *self;
        let len: usize = end - start;
        let mut k: usize = 0;
        while k < len
            invariant
                *self == (FtdiDevice { readbuffer: self.readbuffer, ..before }),
                start + len == end,
                end <= full.len(),
                self.readbuffer@.len() == full.len(),
                k <= len,
                forall|i: int| 0 <= i < k ==> self.readbuffer@[i] == full[start + i],
                forall|i: int| start + k <= i < full.len() ==> self.readbuffer@[i] == full[i],
            decreases len - k,
        {
            let byte: u8 = self.readbuffer[start + k];
            self.readbuffer[k] = byte;
            k = k + 1;
        }
        assert(self.readbuffer@.take(len as int) =~= full.subrange(start as int, end as int));
    }
}

/// Copy `len` bytes of `source`, from `offset` on, to the front of `target`.
fn copy_to_front(target: &mut [u8], source: &[u8], offset: usize, len: usize)
    requires
        len <= old(target)@.len(),
        offset + len <= source@.len(),
    ensures
        final(target)@ == source@.subrange(offset as int, offset + len) + old(target)@.skip(
            len as int,
        ),
{
    let ghost before = target@;
    let available: usize = source.len();
    let mut k: usize = 0;
    while k < len
        invariant
            len <= before.len(),
            available == source@.len(),
            offset + len <= available,
            target@.len() == before.len(),
            k <= len,
            forall|i: int| 0 <= i < k ==> target@[i] == source@[offset + i],
            forall|i: int| k <= i < before.len() ==> target@[i] == before[i],
        decreases len - k,
    {
        target[k] = source[offset + k];
        k = k + 1;
    }
    assert(target@ =~= source@.subrange(offset as int, offset + len) + before.skip(len as int));
}

} // verus!
