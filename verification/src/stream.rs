//! What holds of transferred data as a whole.

use vstd::prelude::*;

use crate::device::{shorter, DeviceView};
use crate::error::Error;
use crate::packet::{
    configured_size, div_up, packet_payload, payload, transfer_size, STATUS_LEN,
};
use crate::platform::{buffer_bytes, buffer_requested_len};
use crate::recovery::RecoveryGuard;
use crate::transfer::{
    chunk_begun, chunk_end, read_begun, read_resumed, received, retried, write_all_from,
    write_all_next, write_goes_on, Completion, ReadStep, Retry, RetryStep, Write, WriteAllStep,
    WriteEvent, WritePhase, WriteStep,
};

verus! {

// ---- Packets ----

/// A sequence of pieces, joined.
pub open spec fn joined(pieces: Seq<Seq<u8>>) -> Seq<u8>
    decreases pieces.len(),
{
    if pieces.len() == 0 {
        Seq::empty()
    } else {
        pieces[0] + joined(pieces.skip(1))
    }
}

/// Whether these are the packets of one transfer: none is empty or longer than
/// `packet_size`, and only the last may be shorter.
pub open spec fn is_transfer(packets: Seq<Seq<u8>>, packet_size: nat) -> bool {
    &&& forall|i: int|
        0 <= i < packets.len() ==> 0 < (#[trigger] packets[i]).len() <= packet_size
    &&& forall|i: int|
        0 <= i < packets.len() - 1 ==> (#[trigger] packets[i]).len() == packet_size
}

/// The payload of a transfer is what its packets carry behind their status
/// bytes, in order: nothing else gets in, and nothing is left out.
pub proof fn payload_is_that_of_the_packets(packets: Seq<Seq<u8>>, packet_size: nat)
    requires
        is_transfer(packets, packet_size),
    ensures
        payload(joined(packets), packet_size) == joined(
            packets.map_values(|packet: Seq<u8>| packet_payload(packet)),
        ),
    decreases packets.len(),
{
    let payloads = packets.map_values(|packet: Seq<u8>| packet_payload(packet));
    if packets.len() > 0 {
        let rest = packets.skip(1);
        let raw = joined(packets);
        assert forall|i: int| 0 <= i < rest.len() implies 0 < (#[trigger] rest[i]).len()
            <= packet_size by {
            assert(rest[i] == packets[i + 1]);
        }
        assert forall|i: int| 0 <= i < rest.len() - 1 implies (#[trigger] rest[i]).len()
            == packet_size by {
            assert(rest[i] == packets[i + 1]);
        }
        payload_is_that_of_the_packets(rest, packet_size);
        assert(payloads.skip(1) =~= rest.map_values(|packet: Seq<u8>| packet_payload(packet)));
        if packets.len() == 1 {
            assert(joined(rest) =~= Seq::<u8>::empty());
        }
        let len = packets[0].len() as int;
        assert(raw.take(len) =~= packets[0]);
        assert(raw.skip(len) =~= joined(rest));
        if packets.len() == 1 {
            assert(payload(raw.skip(len), packet_size) =~= joined(payloads.skip(1)));
        }
    }
}

/// Every byte of a packet behind the two status bytes is payload, however long
/// the packet is, and nothing else is.
pub proof fn packet_payload_is_all_but_the_status(packet: Seq<u8>)
    ensures
        packet.len() <= 2 ==> packet_payload(packet).len() == 0,
        packet.len() > 2 ==> packet_payload(packet).len() == packet.len() - 2,
        forall|i: int| 0 <= i < packet.len() - 2 ==> packet_payload(packet)[i] == packet[i + 2],
{
}

/// Whether byte `k` of `data` is the one that packets of `p` bytes carry there.
pub open spec fn payload_byte_is(raw: Seq<u8>, p: int, data: Seq<u8>, k: int) -> bool {
    let at = (k / (p - 2)) * p + 2 + k % (p - 2);
    0 <= at < raw.len() && data[k] == raw[at]
}

/// The payload of a transfer, byte by byte. Every full packet gives all but two
/// of its bytes, and so does a last, shorter one that has more than two. Byte `k`
/// of the payload is byte `k % (packet_size - 2)`, from 0 behind the status
/// bytes, of packet `k / (packet_size - 2)`.
pub proof fn payload_by_index(raw: Seq<u8>, packet_size: nat)
    requires
        packet_size > 2,
    ensures
        ({
            let p = packet_size as int;
            let n = raw.len() as int;
            payload(raw, packet_size).len() == (n / p) * (p - 2) + if n % p > 2 {
                n % p - 2
            } else {
                0
            }
        }),
        forall|k: int|
            0 <= k < payload(raw, packet_size).len() ==> #[trigger] payload_byte_is(
                raw,
                packet_size as int,
                payload(raw, packet_size),
                k,
            ),
    decreases raw.len(),
{
    let p = packet_size as int;
    let room = p - 2;
    let n = raw.len() as int;
    let all = payload(raw, packet_size);
    if n < p {
        lemma_div_mod(n, p, 0, n);
        if n > 0 {
            assert(raw.take(n) =~= raw);
            assert(payload(raw.skip(n), packet_size) =~= Seq::<u8>::empty());
            assert(all =~= packet_payload(raw));
        }
        assert forall|k: int| 0 <= k < all.len() implies #[trigger] payload_byte_is(
            raw,
            p,
            all,
            k,
        ) by {
            lemma_div_mod(k, room, 0, k);
        }
    } else {
        let rest = raw.skip(p);
        let later = payload(rest, packet_size);
        payload_by_index(rest, packet_size);
        vstd::arithmetic::div_mod::lemma_fundamental_div_mod(n - p, p);
        vstd::arithmetic::div_mod::lemma_mod_bound(n - p, p);
        assert(n == ((n - p) / p + 1) * p + (n - p) % p) by (nonlinear_arith)
            requires
                n - p == p * ((n - p) / p) + (n - p) % p,
        ;
        lemma_div_mod(n, p, (n - p) / p + 1, (n - p) % p);
        assert((n / p) * room == ((n - p) / p) * room + room) by (nonlinear_arith)
            requires
                n / p == (n - p) / p + 1,
        ;
        assert(all =~= packet_payload(raw.take(p)) + later);
        assert forall|k: int| 0 <= k < all.len() implies #[trigger] payload_byte_is(
            raw,
            p,
            all,
            k,
        ) by {
            if k < room {
                lemma_div_mod(k, room, 0, k);
                assert(all[k] == raw[2 + k]);
                assert(payload_byte_is(raw, p, all, k));
            } else {
                let j = k - room;
                assert(all[k] == later[j]);
                assert(payload_byte_is(rest, p, later, j));
                vstd::arithmetic::div_mod::lemma_fundamental_div_mod(j, room);
                vstd::arithmetic::div_mod::lemma_mod_bound(j, room);
                assert(k == (j / room + 1) * room + j % room) by (nonlinear_arith)
                    requires
                        k - room == room * (j / room) + j % room,
                ;
                lemma_div_mod(k, room, j / room + 1, j % room);
                assert((k / room) * p == (j / room) * p + p) by (nonlinear_arith)
                    requires
                        k / room == j / room + 1,
                ;
                let at = (j / room) * p + 2 + j % room;
                assert(rest[at] == raw[at + p]);
                assert(payload_byte_is(raw, p, all, k));
            }
        }
    }
}

/// Packets of at most two bytes carry no payload.
pub proof fn tiny_packets_carry_nothing(raw: Seq<u8>, packet_size: nat)
    requires
        packet_size <= 2,
    ensures
        payload(raw, packet_size).len() == 0,
    decreases raw.len(),
{
    if raw.len() > 0 && packet_size > 0 {
        let len = if raw.len() <= packet_size {
            raw.len() as int
        } else {
            packet_size as int
        };
        tiny_packets_carry_nothing(raw.skip(len), packet_size);
    }
}

/// A quotient and a remainder that fit are those of the division.
proof fn lemma_div_mod(x: int, d: int, q: int, r: int)
    requires
        0 <= r < d,
        x == q * d + r,
    ensures
        x / d == q,
        x % d == r,
{
    vstd::arithmetic::div_mod::lemma_fundamental_div_mod_converse(x, d, q, r);
}

/// A transfer of whole packets brings all but two bytes of each of them.
pub proof fn full_packets_bring_their_data(raw: Seq<u8>, packet_size: nat, packets: nat)
    requires
        packet_size > 2,
        raw.len() == packets * packet_size,
    ensures
        payload(raw, packet_size).len() == packets * (packet_size - 2),
{
    payload_by_index(raw, packet_size);
    lemma_div_mod(raw.len() as int, packet_size as int, packets as int, 0);
}

/// Stripping in place and stripping into a new `Vec` give the same bytes.
pub proof fn both_ways_of_stripping_agree(raw: Seq<u8>, packet_size: nat)
    ensures
        ({
            let stripped = payload(raw, packet_size).len() as int;
            let in_place = payload(raw, packet_size) + raw.skip(stripped);
            &&& in_place.take(stripped) == payload(raw, packet_size)
            &&& in_place.len() == raw.len()
        }),
{
    crate::packet::lemma_payload_len(raw, packet_size);
    let stripped = payload(raw, packet_size).len() as int;
    assert((payload(raw, packet_size) + raw.skip(stripped)).take(stripped) =~= payload(
        raw,
        packet_size,
    ));
}

/// The size of a read transfer is a whole number of packets and at most the
/// configured size. Unless it is cut down to that, its packets have room for
/// all of the payload; and one packet fewer would not.
pub proof fn transfer_size_is_tight(payload_len: usize, configured: usize, packet_size: usize)
    requires
        packet_size > STATUS_LEN,
    ensures
        transfer_size(payload_len, configured, packet_size) matches Some(size) ==> {
            &&& size % packet_size == 0
            &&& size <= configured_size(configured as int, packet_size as int)
            &&& size == configured_size(configured as int, packet_size as int) || {
                let room = packet_size - STATUS_LEN;
                let packets = size as int / packet_size as int;
                payload_len <= packets * room && packets * room < payload_len + room
            }
        },
{
    if let Some(size) = transfer_size(payload_len, configured, packet_size) {
        let p = packet_size as int;
        let room = packet_size - STATUS_LEN;
        let wanted_packets = div_up(payload_len as int, room);
        vstd::arithmetic::div_mod::lemma_mod_multiples_basic(wanted_packets, p);
        vstd::arithmetic::div_mod::lemma_mod_multiples_basic(div_up(configured as int, p), p);
        vstd::arithmetic::div_mod::lemma_mod_self_0(p);
        vstd::arithmetic::div_mod::lemma_fundamental_div_mod(payload_len + room - 1, room);
        vstd::arithmetic::div_mod::lemma_mod_bound(payload_len + room - 1, room);
        vstd::arithmetic::div_mod::lemma_div_multiples_vanish(wanted_packets, p);
        assert(p * wanted_packets == wanted_packets * p) by (nonlinear_arith);
        assert(room * wanted_packets == wanted_packets * room) by (nonlinear_arith);
    }
}

/// A read transfer is a whole number of packets: no more than the payload needs,
/// and none beyond the one in which the configured size ends, but as many as
/// these two limits allow. A configured size below one packet counts as one.
pub proof fn transfer_size_in_packets(payload_len: usize, configured: usize, packet_size: usize)
    requires
        packet_size > 2,
    ensures
        transfer_size(payload_len, configured, packet_size) matches Some(size) ==> {
            let p = packet_size as int;
            let packets = size as int / p;
            &&& size == packets * p
            &&& packets * (p - 2) < payload_len + (p - 2)
            &&& packets <= 1 || size < configured + p
            &&& packets * (p - 2) >= payload_len || (packets >= 1 && size >= configured)
            &&& size <= u32::MAX
        },
{
    if let Some(size) = transfer_size(payload_len, configured, packet_size) {
        let p = packet_size as int;
        let wanted = div_up(payload_len as int, p - 2);
        lemma_div_up(payload_len as int, p - 2);
        lemma_div_up(configured as int, p);
        let packets = if size == wanted * p {
            wanted
        } else if configured == 0 {
            1
        } else {
            div_up(configured as int, p)
        };
        assert(size == packets * p);
        lemma_div_mod(size as int, p, packets, 0);
        if configured > 0 {
            let most = div_up(configured as int, p);
            assert(most >= 1) by (nonlinear_arith)
                requires
                    most * p >= configured,
                    configured > 0,
                    p > 0,
            ;
        }
        if size != wanted * p {
            assert(packets <= wanted) by (nonlinear_arith)
                requires
                    packets * p <= wanted * p,
                    p > 0,
            ;
            assert(packets * (p - 2) <= wanted * (p - 2)) by (nonlinear_arith)
                requires
                    packets <= wanted,
                    p > 2,
            ;
        } else if configured == 0 {
            assert(wanted <= 1) by (nonlinear_arith)
                requires
                    wanted * p <= p,
                    p > 0,
            ;
        }
    }
}

/// A read transfer has a size exactly if the packets for the payload and those
/// for the configured size can both be counted in bytes, and the fewer of them
/// fit in 32 bits.
pub proof fn transfer_size_is_owed(payload_len: usize, configured: usize, packet_size: usize)
    requires
        packet_size > 2,
    ensures
        transfer_size(payload_len, configured, packet_size) is Some <==> {
            let p = packet_size as int;
            let most = usize::MAX as int / p;
            let few = u32::MAX as int / p;
            &&& payload_len <= most * (p - 2)
            &&& configured <= most * p
            &&& payload_len <= few * (p - 2) || (p <= u32::MAX && configured <= few * p)
        },
{
    let p = packet_size as int;
    lemma_packets_fit(payload_len as int, p - 2, p, usize::MAX as int);
    lemma_packets_fit(payload_len as int, p - 2, p, u32::MAX as int);
    lemma_packets_fit(configured as int, p, p, usize::MAX as int);
    lemma_packets_fit(configured as int, p, p, u32::MAX as int);
    lemma_div_up(configured as int, p);
    if configured > 0 {
        assert(div_up(configured as int, p) >= 1 && div_up(configured as int, p) * p >= p)
            by (nonlinear_arith)
            requires
                div_up(configured as int, p) * p >= configured,
                configured > 0,
                p > 0,
        ;
    } else {
        assert(configured <= (usize::MAX as int / p) * p && configured <= (u32::MAX as int / p) * p)
            by (nonlinear_arith)
            requires
                configured == 0,
                p > 0,
        ;
    }
}

/// Packets that are too short for the status bytes make no transfer.
pub proof fn tiny_packets_make_no_transfer(
    payload_len: usize,
    configured: usize,
    packet_size: usize,
)
    requires
        packet_size < 2,
    ensures
        transfer_size(payload_len, configured, packet_size) is None,
{
}

proof fn lemma_div_up(a: int, b: int)
    requires
        a >= 0,
        b > 0,
    ensures
        a <= div_up(a, b) * b < a + b,
        div_up(a, b) >= 0,
{
    vstd::arithmetic::div_mod::lemma_fundamental_div_mod(a + b - 1, b);
    vstd::arithmetic::div_mod::lemma_mod_bound(a + b - 1, b);
    vstd::arithmetic::div_mod::lemma_div_pos_is_pos(a + b - 1, b);
    assert(b * div_up(a, b) == div_up(a, b) * b) by (nonlinear_arith);
}

/// The packets of `p` bytes that carry `a` bytes, `b` in each, fit in `limit`
/// bytes exactly if the packets that do fit carry as much.
proof fn lemma_packets_fit(a: int, b: int, p: int, limit: int)
    requires
        a >= 0,
        b > 0,
        p > 0,
        limit >= 0,
    ensures
        div_up(a, b) * p <= limit <==> a <= (limit / p) * b,
{
    lemma_div_up(a, b);
    let packets = div_up(a, b);
    let most = limit / p;
    vstd::arithmetic::div_mod::lemma_fundamental_div_mod(limit, p);
    vstd::arithmetic::div_mod::lemma_mod_bound(limit, p);
    if packets <= most {
        assert(packets * p <= limit && packets * b <= most * b) by (nonlinear_arith)
            requires
                packets <= most,
                limit == p * most + limit % p,
                0 <= limit % p,
                p > 0,
                b > 0,
        ;
    } else {
        assert(packets * p > limit && packets * b >= most * b + b) by (nonlinear_arith)
            requires
                packets >= most + 1,
                limit == p * most + limit % p,
                limit % p < p,
                p > 0,
                b > 0,
        ;
    }
}

// ---- Reading ----

/// What a read does to the stream of input.
pub struct Reading {
    /// How many bytes it has room for.
    pub room: nat,
    /// The payload of the transfer that it takes in; if there is none, the read
    /// serves input that is held.
    pub arrived: Option<Seq<u8>>,
}

impl Reading {
    /// The input that the read chooses from, if `held` is held.
    pub open spec fn source(self, held: Seq<u8>) -> Seq<u8> {
        match self.arrived {
            Some(input) => input,
            None => held,
        }
    }

    /// The bytes that the read returns.
    pub open spec fn returned(self, held: Seq<u8>) -> Seq<u8> {
        let source = self.source(held);
        source.take(shorter(source.len(), self.room) as int)
    }

    /// The bytes that are held afterward.
    pub open spec fn kept(self, held: Seq<u8>) -> Seq<u8> {
        let source = self.source(held);
        source.skip(shorter(source.len(), self.room) as int)
    }
}

/// Whether transfers are taken in only while nothing is held.
pub open spec fn in_order(held: Seq<u8>, readings: Seq<Reading>) -> bool
    decreases readings.len(),
{
    readings.len() > 0 ==> {
        &&& readings[0].arrived is Some ==> held.len() == 0
        &&& in_order(readings[0].kept(held), readings.skip(1))
    }
}

/// Everything that a series of reads returns, in order.
pub open spec fn all_returned(held: Seq<u8>, readings: Seq<Reading>) -> Seq<u8>
    decreases readings.len(),
{
    if readings.len() == 0 {
        Seq::empty()
    } else {
        readings[0].returned(held) + all_returned(readings[0].kept(held), readings.skip(1))
    }
}

/// What is held after a series of reads.
pub open spec fn held_after(held: Seq<u8>, readings: Seq<Reading>) -> Seq<u8>
    decreases readings.len(),
{
    if readings.len() == 0 {
        held
    } else {
        held_after(readings[0].kept(held), readings.skip(1))
    }
}

/// Everything that the transfers of a series of reads carried, in order.
pub open spec fn all_received(readings: Seq<Reading>) -> Seq<u8>
    decreases readings.len(),
{
    if readings.len() == 0 {
        Seq::empty()
    } else {
        (match readings[0].arrived {
            Some(input) => input,
            None => Seq::empty(),
        }) + all_received(readings.skip(1))
    }
}

/// Readings lose no input, make none up, and keep its order, however little room
/// they have: what was held and what then arrived is what they return, followed
/// by what is still held.
pub proof fn readings_keep_the_stream(held: Seq<u8>, readings: Seq<Reading>)
    requires
        in_order(held, readings),
    ensures
        all_returned(held, readings) + held_after(held, readings) == held + all_received(readings),
    decreases readings.len(),
{
    if readings.len() > 0 {
        let kept = readings[0].kept(held);
        let rest = readings.skip(1);
        readings_keep_the_stream(kept, rest);
        let returned = readings[0].returned(held);
        assert(returned + kept =~= readings[0].source(held));
        assert(all_returned(held, readings) + held_after(held, readings) =~= returned + (
        all_returned(kept, rest) + held_after(kept, rest)));
        assert(returned + (kept + all_received(rest)) =~= (returned + kept) + all_received(rest));
        if readings[0].arrived is None {
            assert(Seq::<u8>::empty() + all_received(rest) =~= all_received(rest));
        } else {
            assert(held + all_received(readings) =~= all_received(readings));
        }
    } else {
        assert(Seq::<u8>::empty() + held =~= held + Seq::<u8>::empty());
    }
}

/// A call of [`FtdiDevice::read_data`], followed by one of
/// [`FtdiDevice::resume_read`] if the first says to wait.
///
/// [`FtdiDevice::read_data`]: crate::FtdiDevice::read_data
/// [`FtdiDevice::resume_read`]: crate::FtdiDevice::resume_read
pub struct Read {
    /// The device and the caller's buffer, before.
    pub before: DeviceView,
    pub buf: Seq<u8>,
    pub packet_size: usize,
    pub pending: usize,
    /// The device, the buffer and the step after the first call.
    pub begun: DeviceView,
    pub begun_buf: Seq<u8>,
    pub step: ReadStep,
    /// What was waited for, if the step is to wait.
    pub completion: Option<Completion>,
    /// The device and the buffer at the end, and the result.
    pub after: DeviceView,
    pub filled: Seq<u8>,
    pub result: Result<usize, Error>,
}

impl Read {
    /// The calls behaved as their contracts say.
    pub open spec fn happened(self) -> bool {
        &&& self.buf.len() <= usize::MAX
        &&& read_begun(
            self.before,
            self.buf,
            self.packet_size,
            self.pending,
            self.begun,
            self.begun_buf,
            self.step,
        )
        &&& match self.step {
            ReadStep::Done(result) => {
                &&& self.after == self.begun
                &&& self.filled == self.begun_buf
                &&& self.result == result
            },
            ReadStep::Wait { .. } => read_resumed(
                self.begun,
                self.begun_buf,
                self.packet_size,
                self.completion,
                self.after,
                self.filled,
                self.result,
            ),
        }
    }

    /// The bytes that the read returned to its caller.
    pub open spec fn returned(self) -> Seq<u8> {
        match self.result {
            Ok(n) => self.filled.take(n as int),
            Err(_) => Seq::empty(),
        }
    }

    /// What the read does to the stream. One that fails or times out has no
    /// effect, like one without room.
    pub open spec fn reading(self) -> Reading {
        match self.result {
            Err(_) => Reading { room: 0, arrived: None },
            Ok(_) => Reading {
                room: self.buf.len(),
                arrived: match self.step {
                    ReadStep::Done(_) => None,
                    ReadStep::Wait { .. } => Some(
                        received(self.completion->0, self.packet_size),
                    ),
                },
            },
        }
    }
}

/// Every read is a reading. One that ends well at once serves what is held; one
/// that ends well after a wait takes in the payload of the transfer, with nothing
/// held before. It returns as much as there is room for, leaves the rest of the
/// caller's buffer alone, and holds what is left. One that fails or times out
/// leaves what is held, and the caller's buffer, as they were.
pub proof fn reads_are_readings(read: Read)
    requires
        read.happened(),
    ensures
        read.returned() == read.reading().returned(read.before.input),
        read.after.input == read.reading().kept(read.before.input),
        read.reading().arrived is Some ==> read.before.input.len() == 0,
        read.filled == read.returned() + read.buf.skip(read.returned().len() as int),
        read.result is Err ==> read.after == read.before && read.filled == read.buf,
{
    let held = read.before.input;
    assert(held.take(0) + read.buf.skip(0) =~= read.buf);
    assert(held.skip(0) =~= held);
    match read.result {
        Ok(n) => {
            let source = read.reading().source(held);
            assert(n == shorter(source.len(), read.buf.len()));
            assert(read.filled =~= source.take(n as int) + read.buf.skip(n as int));
            assert(read.returned() =~= source.take(n as int));
        },
        Err(_) => {
            assert(read.returned() =~= read.reading().returned(held));
            assert(read.returned() + read.buf.skip(0) =~= read.buf);
        },
    }
}

/// Whether each read finds held what the one before it left.
pub open spec fn is_series(held: Seq<u8>, reads: Seq<Read>) -> bool
    decreases reads.len(),
{
    reads.len() > 0 ==> {
        &&& reads[0].happened()
        &&& reads[0].before.input == held
        &&& is_series(reads[0].after.input, reads.skip(1))
    }
}

/// The bytes that a series of reads returned to its callers, in order.
pub open spec fn reads_returned(reads: Seq<Read>) -> Seq<u8>
    decreases reads.len(),
{
    if reads.len() == 0 {
        Seq::empty()
    } else {
        reads[0].returned() + reads_returned(reads.skip(1))
    }
}

/// What is held at the end of a series of reads that starts with `held`.
pub open spec fn reads_left(held: Seq<u8>, reads: Seq<Read>) -> Seq<u8> {
    if reads.len() == 0 {
        held
    } else {
        reads.last().after.input
    }
}

/// The payloads of the transfers that a series of reads took in, in order.
pub open spec fn reads_received(reads: Seq<Read>) -> Seq<u8> {
    all_received(reads.map_values(|read: Read| read.reading()))
}

proof fn lemma_series(held: Seq<u8>, reads: Seq<Read>)
    requires
        is_series(held, reads),
    ensures
        ({
            let readings = reads.map_values(|read: Read| read.reading());
            &&& in_order(held, readings)
            &&& all_returned(held, readings) == reads_returned(reads)
            &&& held_after(held, readings) == reads_left(held, reads)
        }),
    decreases reads.len(),
{
    let readings = reads.map_values(|read: Read| read.reading());
    if reads.len() > 0 {
        let rest = reads.skip(1);
        reads_are_readings(reads[0]);
        lemma_series(reads[0].after.input, rest);
        assert(readings.skip(1) =~= rest.map_values(|read: Read| read.reading()));
        if rest.len() > 0 {
            assert(rest.last() == reads.last());
        }
    }
}

/// Reads lose no input, make none up, and keep its order, however small the
/// buffers are that they fill, and however many of them fail: what was held and
/// what the transfers then brought is what the reads return, followed by what is
/// still held.
pub proof fn reads_keep_the_stream(held: Seq<u8>, reads: Seq<Read>)
    requires
        is_series(held, reads),
    ensures
        reads_returned(reads) + reads_left(held, reads) == held + reads_received(reads),
{
    lemma_series(held, reads);
    readings_keep_the_stream(held, reads.map_values(|read: Read| read.reading()));
}

/// Held input is served first, without a transfer: as many bytes as there are or
/// as fit, whichever is less, and oldest first. The rest stays held, in order.
pub proof fn held_input_is_served_first(
    before: DeviceView,
    buf: Seq<u8>,
    packet_size: usize,
    pending: usize,
    after: DeviceView,
    filled: Seq<u8>,
    step: ReadStep,
)
    requires
        read_begun(before, buf, packet_size, pending, after, filled, step),
        0 < buf.len() <= usize::MAX,
        packet_size > 2,
        !before.recovery_required,
        before.input.len() > 0,
    ensures
        ({
            let held = before.input;
            &&& step matches ReadStep::Done(Ok(n))
            &&& n <= held.len() && n <= buf.len()
            &&& n == held.len() || n == buf.len()
            &&& filled.len() == buf.len()
            &&& forall|i: int| 0 <= i < n ==> filled[i] == held[i]
            &&& forall|i: int| n <= i < buf.len() ==> filled[i] == buf[i]
            &&& after.input.len() == held.len() - n
            &&& forall|i: int| 0 <= i < held.len() - n ==> after.input[i] == held[n + i]
            &&& after == (DeviceView { input: after.input, ..before })
        }),
{
}

/// With nothing held, a read waits for the transfer that is queued, or submits an
/// empty buffer for one of [`transfer_size`]; it fails if there is no such size.
/// Nothing changes yet.
pub proof fn read_without_input_waits(
    before: DeviceView,
    buf: Seq<u8>,
    packet_size: usize,
    pending: usize,
    after: DeviceView,
    filled: Seq<u8>,
    step: ReadStep,
)
    requires
        read_begun(before, buf, packet_size, pending, after, filled, step),
        0 < buf.len() <= usize::MAX,
        packet_size > 2,
        !before.recovery_required,
        before.input.len() == 0,
    ensures
        after == before,
        filled == buf,
        pending > 0 ==> step == (ReadStep::Wait { submit: None, timeout: before.read_timeout }),
        pending == 0 ==> match transfer_size(
            buf.len() as usize,
            before.read_chunksize,
            packet_size,
        ) {
            Some(size) => {
                &&& step matches ReadStep::Wait { submit: Some(buffer), timeout }
                &&& timeout == before.read_timeout
                &&& buffer_bytes(buffer).len() == 0
                &&& buffer_requested_len(buffer) == size
            },
            None => step == ReadStep::Done(
                Err(Error::InvalidArgument("read transfer size overflow")),
            ),
        },
{
    assert(before.input.skip(0) =~= before.input);
    assert(before.input.take(0) + buf.skip(0) =~= buf);
}

/// A read is refused, with nothing changed, if the device requires recovery; it
/// has nothing to do if it has no room; and it fails if packets have no payload.
pub proof fn read_is_refused(
    before: DeviceView,
    buf: Seq<u8>,
    packet_size: usize,
    pending: usize,
    after: DeviceView,
    filled: Seq<u8>,
    step: ReadStep,
)
    requires
        read_begun(before, buf, packet_size, pending, after, filled, step),
        buf.len() <= usize::MAX,
        before.recovery_required || buf.len() == 0 || packet_size <= 2,
    ensures
        after == before,
        filled == buf,
        step == ReadStep::Done(
            if before.recovery_required {
                Err(Error::RecoveryRequired)
            } else if buf.len() == 0 {
                Ok(0)
            } else {
                Err(Error::InvalidArgument("invalid read endpoint packet size"))
            },
        ),
{
    assert(before.input.skip(0) =~= before.input);
    assert(before.input.take(0) + buf.skip(0) =~= buf);
}

/// A completed transfer gives the read every data byte behind the status bytes of
/// its packets: first as many as fit in the caller's buffer, and then, held, all
/// the others. Byte `k` of them is at `(k / (p - 2)) * p + 2 + k % (p - 2)` in the
/// transfer, where `p` is the packet size.
pub proof fn completed_read_gives_all_data(
    before: DeviceView,
    buf: Seq<u8>,
    packet_size: usize,
    completion: Completion,
    after: DeviceView,
    filled: Seq<u8>,
    result: Result<usize, Error>,
)
    requires
        read_resumed(before, buf, packet_size, Some(completion), after, filled, result),
        buf.len() <= usize::MAX,
        packet_size > 2,
        completion.status is Ok,
        completion.actual_len <= buffer_bytes(completion.buffer).len(),
    ensures
        ({
            let p = packet_size as int;
            let len = completion.actual_len as int;
            let raw = buffer_bytes(completion.buffer);
            let total = (len / p) * (p - 2) + if len % p > 2 {
                len % p - 2
            } else {
                0
            };
            &&& result matches Ok(n)
            &&& n <= total && n <= buf.len()
            &&& n == total || n == buf.len()
            &&& filled.len() == buf.len()
            &&& forall|k: int|
                0 <= k < n ==> (#[trigger] filled[k]) == raw[(k / (p - 2)) * p + 2 + k % (p - 2)]
            &&& forall|k: int| n <= k < buf.len() ==> filled[k] == buf[k]
            &&& after.input.len() == total - n
            &&& forall|k: int|
                n <= k < total ==> after.input[k - n] == #[trigger] raw[(k / (p - 2)) * p + 2 + k % (
                p - 2)]
            &&& after == (DeviceView { input: after.input, ..before })
        }),
{
    let p = packet_size as int;
    let len = completion.actual_len as int;
    let raw = buffer_bytes(completion.buffer);
    let data = payload(raw.take(len), packet_size as nat);
    payload_by_index(raw.take(len), packet_size as nat);
    let n = result->Ok_0 as int;
    if len <= 2 {
        crate::packet::lemma_short_payload(raw.take(len), packet_size as nat);
    }
    assert(received(completion, packet_size) =~= data);
    assert forall|k: int| 0 <= k < n implies (#[trigger] filled[k]) == raw[(k / (p - 2)) * p + 2 + k
        % (p - 2)] by {
        assert(payload_byte_is(raw.take(len), p, data, k));
    }
    assert forall|k: int| n <= k < data.len() implies after.input[k - n] == #[trigger] raw[(k / (p
        - 2)) * p + 2 + k % (p - 2)] by {
        assert(payload_byte_is(raw.take(len), p, data, k));
    }
}

/// A read whose transfer failed, or was waited for in vain, says so and changes
/// nothing.
pub proof fn failed_read_changes_nothing(
    before: DeviceView,
    buf: Seq<u8>,
    packet_size: usize,
    completion: Option<Completion>,
    after: DeviceView,
    filled: Seq<u8>,
    result: Result<usize, Error>,
)
    requires
        read_resumed(before, buf, packet_size, completion, after, filled, result),
    ensures
        completion is None ==> result == Err::<usize, Error>(Error::Timeout(before.read_timeout)),
        completion matches Some(c) ==> (c.status matches Err(error) ==> result == Err::<
            usize,
            Error,
        >(Error::Transfer(error))),
        completion matches Some(c) ==> (c.status is Ok ==> result is Ok),
        result is Err ==> after == before && filled == buf,
{
}

// ---- Writing ----

/// The write that a step goes on with, if any.
pub open spec fn write_of(step: WriteStep) -> Option<Write> {
    match step {
        WriteStep::Done(_) => None,
        WriteStep::Begin { write, .. } => Some(write),
        WriteStep::Wait { write } => Some(write),
        WriteStep::Submit { write, .. } => Some(write),
    }
}

/// Whether `steps` are those of a write of `data`, with these events, and with
/// these numbers of transfers queued.
pub open spec fn is_write(
    device: DeviceView,
    data: Seq<u8>,
    steps: Seq<WriteStep>,
    events: Seq<(usize, WriteEvent)>,
) -> bool {
    &&& steps.len() == events.len() + 1
    &&& chunk_begun(device, data, 0, RecoveryGuard { armed: true }, steps[0])
    &&& forall|i: int|
        0 <= i < events.len() ==> #[trigger] follows(
            device,
            data,
            steps[i],
            events[i],
            steps[i + 1],
        )
}

/// Whether `next` is how a write goes on from `step`.
pub open spec fn follows(
    device: DeviceView,
    data: Seq<u8>,
    step: WriteStep,
    event: (usize, WriteEvent),
    next: WriteStep,
) -> bool {
    write_of(step) matches Some(write) && write_goes_on(
        device,
        data,
        write,
        event.0,
        event.1,
        next,
    )
}

/// All bytes submitted by `steps`, in order.
pub open spec fn submitted(steps: Seq<WriteStep>) -> Seq<u8>
    decreases steps.len(),
{
    if steps.len() == 0 {
        Seq::empty()
    } else {
        submitted(steps.drop_last()) + match steps.last() {
            WriteStep::Submit { buffer, .. } => buffer_bytes(buffer),
            _ => Seq::empty(),
        }
    }
}

/// How much of the data is submitted when a write is in progress at `step`.
spec fn reached(device: DeviceView, data: Seq<u8>, write: Write) -> int {
    match write.phase {
        WritePhase::Before => write.offset as int,
        WritePhase::Submitted => chunk_end(device, data.len(), write.offset as nat) as int,
    }
}

proof fn lemma_write_in_progress(
    device: DeviceView,
    data: Seq<u8>,
    steps: Seq<WriteStep>,
    events: Seq<(usize, WriteEvent)>,
)
    requires
        is_write(device, data, steps, events),
        data.len() <= usize::MAX,
    ensures
        match steps.last() {
            WriteStep::Done(Ok(n)) => n == data.len() && submitted(steps) == data,
            WriteStep::Done(Err(_)) => submitted(steps).is_prefix_of(data),
            step => {
                &&& write_of(step) matches Some(write)
                &&& write.guard.armed
                &&& write.offset < data.len()
                &&& submitted(steps) == data.take(reached(device, data, write))
            },
        },
    decreases steps.len(),
{
    let before = steps.drop_last();
    if steps.len() == 1 {
        assert(submitted(before) =~= Seq::<u8>::empty());
        assert(submitted(steps) =~= Seq::<u8>::empty());
        if data.len() == 0 {
            assert(submitted(steps) =~= data);
        } else {
            assert(submitted(steps) =~= data.take(0));
        }
    } else {
        let prev = steps.len() - 2;
        let past = events.drop_last();
        assert(follows(device, data, steps[prev], events[prev], steps[prev + 1]));
        assert forall|i: int| 0 <= i < past.len() implies #[trigger] follows(
            device,
            data,
            before[i],
            past[i],
            before[i + 1],
        ) by {
            assert(follows(device, data, steps[i], events[i], steps[i + 1]));
        }
        lemma_write_in_progress(device, data, before, past);
        let write = write_of(before.last())->0;
        let end = chunk_end(device, data.len(), write.offset as nat) as int;
        assert(end <= data.len());
        if let WriteStep::Submit { buffer, .. } = steps.last() {
            assert(submitted(steps) =~= data.take(end));
        } else {
            assert(submitted(steps) =~= submitted(before));
        }
        if end == data.len() {
            assert(data.take(end) =~= data);
        }
    }
}

/// A write submits the data in order, from the start, with no byte left out or
/// sent twice, whatever becomes of the transfers. If it ends well, it has
/// submitted all of the data and returns its length.
pub proof fn writes_submit_the_data(
    device: DeviceView,
    data: Seq<u8>,
    steps: Seq<WriteStep>,
    events: Seq<(usize, WriteEvent)>,
)
    requires
        is_write(device, data, steps, events),
        data.len() <= usize::MAX,
    ensures
        submitted(steps).is_prefix_of(data),
        steps.last() matches WriteStep::Done(Ok(n)) ==> n == data.len() && submitted(steps) == data,
{
    lemma_write_in_progress(device, data, steps, events);
    if let Some(write) = write_of(steps.last()) {
        assert(submitted(steps).is_prefix_of(data));
    }
}

/// A write that is dropped in progress makes the device require recovery.
pub proof fn dropped_write_requires_recovery(
    device: DeviceView,
    data: Seq<u8>,
    steps: Seq<WriteStep>,
    events: Seq<(usize, WriteEvent)>,
)
    requires
        is_write(device, data, steps, events),
        data.len() <= usize::MAX,
    ensures
        write_of(steps.last()) matches Some(write) ==> device.released(write.guard)
            == device.poisoned(true),
{
    lemma_write_in_progress(device, data, steps, events);
}

/// Whether the transfers of a write go smoothly: nothing is queued when a chunk
/// begins, the chunk is when it was submitted, and it completes without an error
/// and in full.
pub open spec fn goes_smoothly(events: Seq<(usize, WriteEvent)>) -> bool {
    forall|i: int| 0 <= i < events.len() ==> #[trigger] is_smooth(i, events[i])
}

/// Whether the event `i` of a write, counted from 0, is as it should be.
pub open spec fn is_smooth(i: int, event: (usize, WriteEvent)) -> bool {
    if i % 3 == 0 {
        event.0 == 0 && event.1 is Ready
    } else if i % 3 == 1 {
        event.0 == 1 && event.1 is Ready
    } else {
        &&& event.0 == 0
        &&& event.1 matches WriteEvent::Completed(completion)
        &&& completion.status is Ok
        &&& completion.actual_len == buffer_requested_len(completion.buffer)
    }
}

/// A write that goes smoothly sends the data in chunks of the chunk size, the
/// last one shorter if need be, with the full timeout for each of them, and ends
/// well with the length of the data: chunk `k` begins with step `3 * k`, is
/// submitted with the next and waited for with the one after it.
pub proof fn smooth_write_succeeds(
    device: DeviceView,
    data: Seq<u8>,
    steps: Seq<WriteStep>,
    events: Seq<(usize, WriteEvent)>,
    k: nat,
)
    requires
        is_write(device, data, steps, events),
        goes_smoothly(events),
        data.len() <= usize::MAX,
        device.write_chunksize > 0,
    ensures
        3 * k < steps.len() ==> {
            let start = k * device.write_chunksize;
            if start < data.len() {
                steps[3 * k as int] == (WriteStep::Begin {
                    timeout: device.write_timeout,
                    write: Write {
                        guard: RecoveryGuard { armed: true },
                        offset: start as usize,
                        phase: WritePhase::Before,
                    },
                })
            } else {
                steps[3 * k as int] == WriteStep::Done(Ok(data.len() as usize))
            }
        },
        3 * k + 1 < steps.len() ==> {
            let start = k * device.write_chunksize;
            let left = data.len() - start;
            let size = if left <= device.write_chunksize {
                left
            } else {
                device.write_chunksize as int
            };
            &&& left > 0
            &&& steps[3 * k as int + 1] matches WriteStep::Submit { buffer, write }
            &&& buffer_requested_len(buffer) == size
            &&& buffer_bytes(buffer).len() == size
            &&& forall|i: int| 0 <= i < size ==> buffer_bytes(buffer)[i] == data[start + i]
            &&& write == (Write {
                guard: RecoveryGuard { armed: true },
                offset: start as usize,
                phase: WritePhase::Submitted,
            })
        },
        3 * k + 2 < steps.len() ==> steps[3 * k as int + 2] == (WriteStep::Wait {
            write: Write {
                guard: RecoveryGuard { armed: true },
                offset: (k * device.write_chunksize) as usize,
                phase: WritePhase::Submitted,
            },
        }),
    decreases k,
{
    let chunk = device.write_chunksize as int;
    let start = k * chunk;
    let i = 3 * k as int;
    assert(start >= 0) by (nonlinear_arith)
        requires
            start == k * chunk,
            chunk > 0,
    ;
    if k > 0 {
        let earlier = (k - 1) as nat;
        smooth_write_succeeds(device, data, steps, events, earlier);
        assert(start == (k - 1) * chunk + chunk) by (nonlinear_arith)
            requires
                start == k * chunk,
        ;
        if i < steps.len() {
            assert((k - 1) * chunk >= 0) by (nonlinear_arith)
                requires
                    k > 0,
                    chunk > 0,
            ;
            assert(follows(device, data, steps[i - 1], events[i - 1], steps[(i - 1) + 1]));
            assert(is_smooth(i - 1, events[i - 1]));
        }
    } else {
        assert(start == 0) by (nonlinear_arith)
            requires
                start == k * chunk,
                k == 0,
        ;
    }
    if i + 1 < steps.len() {
        assert(follows(device, data, steps[i], events[i], steps[i + 1]));
        assert(is_smooth(i, events[i]));
    }
    if i + 2 < steps.len() {
        assert(follows(device, data, steps[i + 1], events[i + 1], steps[(i + 1) + 1]));
        assert(is_smooth(i + 1, events[i + 1]));
    }
}

/// A write ends with an error exactly if a transfer is waited for in vain, fails,
/// or completes with another length than its buffer was made for; and the error
/// says which. While transfers are queued, it waits.
pub proof fn write_errors_are_reported(
    device: DeviceView,
    data: Seq<u8>,
    write: Write,
    pending: usize,
    event: WriteEvent,
    step: WriteStep,
)
    requires
        write_goes_on(device, data, write, pending, event, step),
    ensures
        event is TimedOut ==> step == WriteStep::Done(Err(Error::Timeout(device.write_timeout))),
        event matches WriteEvent::Completed(c) ==> (c.status matches Err(error) ==> step
            == WriteStep::Done(Err(Error::Transfer(error)))),
        event matches WriteEvent::Completed(c) ==> (c.status is Ok && c.actual_len
            != buffer_requested_len(c.buffer) ==> step == WriteStep::Done(
            Err(
                Error::ShortWrite {
                    expected: buffer_requested_len(c.buffer) as usize,
                    actual: c.actual_len,
                },
            ),
        )),
        event is Ready || (event matches WriteEvent::Completed(c) && c.status is Ok && c.actual_len
            == buffer_requested_len(c.buffer)) ==> {
            &&& !(step matches WriteStep::Done(Err(_)))
            &&& pending > 0 ==> step == (WriteStep::Wait { write })
            &&& pending == 0 ==> !(step is Wait)
        },
{
}

/// Once nothing is queued, a write submits the next chunk, or, if that was
/// submitted, begins the one after it or ends well. This holds after every event
/// that is no error, also after the completion of an earlier write's transfer.
pub proof fn write_goes_on_by_chunks(
    device: DeviceView,
    data: Seq<u8>,
    write: Write,
    event: WriteEvent,
    step: WriteStep,
)
    requires
        write_goes_on(device, data, write, 0, event, step),
        write.offset < data.len() <= usize::MAX,
        event is Ready || (event matches WriteEvent::Completed(c) && c.status is Ok && c.actual_len
            == buffer_requested_len(c.buffer)),
    ensures
        ({
            let left = data.len() - write.offset;
            let size = if left <= device.write_chunksize {
                left
            } else {
                device.write_chunksize as int
            };
            match write.phase {
                WritePhase::Before => {
                    &&& step matches WriteStep::Submit { buffer, write: next }
                    &&& buffer_requested_len(buffer) == size
                    &&& buffer_bytes(buffer).len() == size
                    &&& forall|i: int|
                        0 <= i < size ==> buffer_bytes(buffer)[i] == data[write.offset + i]
                    &&& next.guard == write.guard
                    &&& next.offset == write.offset
                    &&& next.phase is Submitted
                },
                WritePhase::Submitted => if size < left {
                    &&& step matches WriteStep::Begin { timeout, write: next }
                    &&& timeout == device.write_timeout
                    &&& next.guard == write.guard
                    &&& next.offset == write.offset + size
                    &&& next.phase is Before
                } else {
                    step == WriteStep::Done(Ok(data.len() as usize))
                },
            }
        }),
{
}

/// After a write of some of the data, writing everything goes on behind it, or
/// has ended well if nothing is left. A write that fails ends it with its error,
/// and one that makes no progress ends it as well.
pub proof fn write_all_goes_on(len: nat, offset: usize, n: usize, error: Error)
    requires
        len <= usize::MAX,
        offset + n <= len,
    ensures
        n > 0 && offset + n < len ==> write_all_next(len, offset, Ok(n)) == (WriteAllStep::Write {
            offset: (offset + n) as usize,
        }),
        n > 0 && offset + n == len ==> write_all_next(len, offset, Ok(n)) == WriteAllStep::Done(
            Ok(()),
        ),
        write_all_next(len, offset, Ok(0)) == WriteAllStep::Done(Err(Error::WriteZero)),
        write_all_next(len, offset, Err(error)) == WriteAllStep::Done(Err(error)),
        len > 0 ==> write_all_from(len, 0) == (WriteAllStep::Write { offset: 0 }),
        len == 0 ==> write_all_from(len, 0) == WriteAllStep::Done(Ok(())),
{
}

/// Chunks are never longer than the chunk size, and if that is not 0, every
/// chunk makes progress.
pub proof fn chunks_make_progress(device: DeviceView, len: nat, offset: nat)
    requires
        offset < len,
    ensures
        chunk_end(device, len, offset) <= offset + device.write_chunksize,
        device.write_chunksize > 0 ==> chunk_end(device, len, offset) > offset,
{
}

/// A write of all of `len` bytes, in which the writes end as `results` say: the
/// step at its end, and the number of bytes that the writes report.
pub open spec fn wrote_all(len: nat, step: WriteAllStep, results: Seq<Result<usize, Error>>) -> (
    WriteAllStep,
    nat,
)
    decreases results.len(),
{
    match step {
        WriteAllStep::Write { offset } => if results.len() == 0 {
            (step, 0)
        } else {
            let (end, rest) = wrote_all(
                len,
                write_all_next(len, offset, results[0]),
                results.skip(1),
            );
            let count: nat = match results[0] {
                Ok(n) => n as nat,
                Err(_) => 0,
            };
            (end, count + rest)
        },
        WriteAllStep::Done(_) => (step, 0),
    }
}

/// Whether no write reports more bytes than it was given.
pub open spec fn counts_fit(len: nat, step: WriteAllStep, results: Seq<Result<usize, Error>>) -> bool
    decreases results.len(),
{
    results.len() > 0 ==> (step matches WriteAllStep::Write { offset } ==> {
        &&& results[0] matches Ok(n) ==> offset + n <= len
        &&& counts_fit(len, write_all_next(len, offset, results[0]), results.skip(1))
    })
}

proof fn lemma_wrote_all(len: nat, step: WriteAllStep, results: Seq<Result<usize, Error>>)
    requires
        len <= usize::MAX,
        counts_fit(len, step, results),
        step matches WriteAllStep::Write { offset } ==> offset < len,
    ensures
        ({
            let (end, count) = wrote_all(len, step, results);
            let start: nat = match step {
                WriteAllStep::Write { offset } => offset as nat,
                WriteAllStep::Done(_) => len,
            };
            &&& end matches WriteAllStep::Write { offset } ==> offset == start + count < len
            &&& end == WriteAllStep::Done(Ok(())) ==> start + count == len
        }),
    decreases results.len(),
{
    if results.len() > 0 {
        if let WriteAllStep::Write { offset } = step {
            lemma_wrote_all(len, write_all_next(len, offset, results[0]), results.skip(1));
        }
    }
}

/// Writing everything goes on where the last write ended, and ends well only
/// once exactly all of the data is written.
pub proof fn write_all_writes_everything(len: nat, results: Seq<Result<usize, Error>>)
    requires
        len <= usize::MAX,
        counts_fit(len, write_all_from(len, 0), results),
    ensures
        ({
            let (end, count) = wrote_all(len, write_all_from(len, 0), results);
            &&& end matches WriteAllStep::Write { offset } ==> offset == count < len
            &&& end == WriteAllStep::Done(Ok(())) ==> count == len
        }),
{
    lemma_wrote_all(len, write_all_from(len, 0), results);
}

// ---- Retrying ----

/// A transfer that is retried, with attempts that end as `results` say: how
/// many attempts are made, and how it ends, if these are enough.
pub open spec fn attempts(retry: Retry, results: Seq<Result<usize, Error>>) -> (
    nat,
    Option<Result<usize, Error>>,
)
    decreases results.len(),
{
    if results.len() == 0 {
        (0, None)
    } else {
        match retried(retry, results[0]) {
            RetryStep::Done(result) => (1, Some(result)),
            RetryStep::PauseAndFail { error, .. } => (1, Some(Err(error))),
            RetryStep::PauseAndRetry { retry, .. } => {
                let (count, end) = attempts(retry, results.skip(1));
                (count + 1, end)
            },
        }
    }
}

/// Whether an attempt failed in a way that is retried.
pub open spec fn transient(result: Result<usize, Error>) -> bool {
    result matches Err(error) && error is Transfer
}

/// Transient errors are retried up to the given number of times, and no other
/// result is: the transfer ends with the first result that is not a transient
/// error or, after one attempt more than the retries, with the last error.
pub proof fn retries_are_bounded(retry: Retry, results: Seq<Result<usize, Error>>, last: int)
    requires
        0 <= last <= retry.left,
        last < results.len(),
        forall|i: int| 0 <= i < last ==> transient(#[trigger] results[i]),
        last == retry.left || !transient(results[last]),
    ensures
        attempts(retry, results) == ((last + 1) as nat, Some(results[last])),
    decreases last,
{
    if last > 0 {
        let next = Retry { left: (retry.left - 1) as usize, ..retry };
        let rest = results.skip(1);
        assert(transient(results[0]));
        assert forall|i: int| 0 <= i < last - 1 implies transient(#[trigger] rest[i]) by {
            assert(rest[i] == results[i + 1]);
        }
        retries_are_bounded(next, rest, last - 1);
    }
}

/// After every failed attempt there is a pause of the delay that was asked for,
/// the last one included.
pub proof fn retries_pause(retry: Retry, error: Error)
    requires
        error is Transfer,
    ensures
        retry.left > 0 ==> retried(retry, Err(error)) == (RetryStep::PauseAndRetry {
            delay: retry.delay,
            retry: Retry { left: (retry.left - 1) as usize, delay: retry.delay },
        }),
        retry.left == 0 ==> retried(retry, Err(error)) == (RetryStep::PauseAndFail {
            delay: retry.delay,
            error,
        }),
{
}

} // verus!
