//! What the library relies on from `nusb` and from the system clock.
//!
//! Everything here is taken on trust: the contracts state what the
//! documentation and the source of the named functions say.

use std::time::{Duration, Instant};

use nusb::descriptors::ConfigurationDescriptor;
use nusb::transfer::Buffer;
use vstd::prelude::*;

verus! {

/// A point on the system's monotonic clock, [`std::time::Instant`].
#[verifier::external_type_specification]
#[verifier::external_body]
pub struct ExInstant(std::time::Instant);

/// The error of a failed transfer, [`nusb::transfer::TransferError`].
#[verifier::external_type_specification]
#[verifier::external_body]
pub struct ExTransferError(nusb::transfer::TransferError);

/// The memory of a bulk transfer, [`nusb::transfer::Buffer`].
#[verifier::external_type_specification]
#[verifier::external_body]
pub struct ExBuffer(nusb::transfer::Buffer);

/// The initialized bytes of a buffer.
pub uninterp spec fn buffer_bytes(buffer: Buffer) -> Seq<u8>;

/// The length that a buffer was made for.
pub uninterp spec fn buffer_requested_len(buffer: Buffer) -> nat;

/// `Buffer::new`: an empty buffer made for `requested_len` bytes. It panics
/// on a length that does not fit in 32 bits, or that no allocation can have.
#[verifier::external_body]
pub(crate) fn new_buffer(requested_len: usize) -> (buffer: Buffer)
    requires
        requested_len <= u32::MAX,
        requested_len <= isize::MAX,
    ensures
        buffer_bytes(buffer) == Seq::<u8>::empty(),
        buffer_requested_len(buffer) == requested_len,
{
    Buffer::new(requested_len)
}

/// `Buffer::extend_from_slice`: appends bytes. A buffer's capacity is never
/// below the length that it was made for, so within that length it cannot panic.
#[verifier::external_body]
pub(crate) fn extend_buffer(buffer: &mut Buffer, bytes: &[u8])
    requires
        buffer_bytes(*old(buffer)).len() + bytes@.len() <= buffer_requested_len(*old(buffer)),
    ensures
        buffer_bytes(*final(buffer)) == buffer_bytes(*old(buffer)) + bytes@,
        buffer_requested_len(*final(buffer)) == buffer_requested_len(*old(buffer)),
{
    buffer.extend_from_slice(bytes)
}

/// `Buffer::requested_len`: the length that the buffer was made for.
#[verifier::external_body]
pub(crate) fn requested_len(buffer: &Buffer) -> (len: usize)
    ensures
        len == buffer_requested_len(*buffer),
{
    buffer.requested_len()
}

/// `Buffer::into_vec`: the initialized bytes.
#[verifier::external_body]
pub(crate) fn buffer_into_vec(buffer: Buffer) -> (bytes: Vec<u8>)
    ensures
        bytes@ == buffer_bytes(buffer),
{
    buffer.into_vec()
}

/// `Instant::now`: the present; nothing is known of it.
pub assume_specification[ Instant::now ]() -> (now: Instant)
;

/// The instant a time span after `start`, if the clock can represent it.
pub uninterp spec fn instant_plus(start: Instant, span: Duration) -> Option<Instant>;

/// `Instant::checked_add`: the instant `span` after `start`, if the clock can
/// represent it.
pub assume_specification[ Instant::checked_add ](start: &Instant, span: Duration) -> (end: Option<
    Instant,
>)
    ensures
        end == instant_plus(*start, span),
;

/// The time from `earlier` to `later`, if `later` is not the earlier one.
pub uninterp spec fn time_between(later: Instant, earlier: Instant) -> Option<Duration>;

/// `Instant::checked_duration_since`: the time from `earlier` to `later`, if
/// `later` is not the earlier one.
pub assume_specification[ Instant::checked_duration_since ](
    later: &Instant,
    earlier: Instant,
) -> (span: Option<Duration>)
    ensures
        span == time_between(*later, earlier),
;

/// A whole number of seconds as a time span.
pub uninterp spec fn seconds(secs: u64) -> Duration;

/// `Duration::from_secs`: a whole number of seconds.
pub assume_specification[ Duration::from_secs ](secs: u64) -> (span: Duration)
    ensures
        span == seconds(secs),
;

/// An interface of a USB configuration.
#[derive(Debug)]
pub struct InterfaceGroup {
    /// Number of the interface.
    pub number: u8,
    /// Its alternate settings, each as the packet sizes of its endpoints.
    pub alt_settings: Vec<Vec<usize>>,
}

impl View for InterfaceGroup {
    type V = (u8, Seq<Seq<usize>>);

    open spec fn view(&self) -> (u8, Seq<Seq<usize>>) {
        (self.number, self.alt_settings@.map_values(|alt: Vec<usize>| alt@))
    }
}

/// The interfaces that the bytes of a configuration descriptor describe, each
/// with its number and, for each alternate setting, the packet sizes of its
/// endpoints. `None` if the bytes are no configuration descriptor.
pub uninterp spec fn configuration_layout(descriptor: Seq<u8>) -> Option<
    Seq<(u8, Seq<Seq<usize>>)>,
>;

/// `ConfigurationDescriptor::new` and its `interfaces`: the interfaces that the
/// bytes of a configuration descriptor describe.
#[verifier::external_body]
pub(crate) fn configuration_interfaces(descriptor: &[u8]) -> (interfaces: Option<
    Vec<InterfaceGroup>,
>)
    ensures
        crate::identify::layout_of(interfaces) == configuration_layout(descriptor@),
{
    let configuration = ConfigurationDescriptor::new(descriptor)?;
    let groups = configuration.interfaces().map(|group| InterfaceGroup {
        number: group.interface_number(),
        alt_settings: group
            .alt_settings()
            .map(|alt| alt.endpoints().map(|endpoint| endpoint.max_packet_size()).collect())
            .collect(),
    });
    Some(groups.collect())
}

} // verus!
