//! Packet framing of bulk IN data.
//!
//! Every USB packet that an FTDI chip sends starts with two modem status
//! bytes; only what follows them is serial input.

use vstd::prelude::*;
use vstd::slice::slice_subrange;

verus! {

/// Number of modem status bytes at the start of every packet.
pub const STATUS_LEN: usize = 2;

/// The serial input carried by one packet.
pub open spec fn packet_payload(packet: Seq<u8>) -> Seq<u8> {
    if packet.len() > STATUS_LEN {
        packet.skip(STATUS_LEN as int)
    } else {
        Seq::empty()
    }
}

/// The length of the first packet of a transfer of `total` bytes.
pub open spec fn first_packet_len(total: nat, packet_size: nat) -> nat {
    if total <= packet_size {
        total
    } else {
        packet_size
    }
}

/// The serial input carried by a whole transfer: the payloads of its packets,
/// in order. All packets but the last are `packet_size` bytes long.
pub open spec fn payload(raw: Seq<u8>, packet_size: nat) -> Seq<u8>
    decreases raw.len(),
{
    if raw.len() == 0 || packet_size == 0 {
        Seq::empty()
    } else {
        let len = first_packet_len(raw.len(), packet_size) as int;
        packet_payload(raw.take(len)) + payload(raw.skip(len), packet_size)
    }
}

/// `a / b`, rounded up.
pub open spec fn div_up(a: int, b: int) -> int {
    (a + b - 1) / b
}

/// The raw size, in bytes, of the whole packets that carry `payload_len` bytes.
pub open spec fn raw_size(payload_len: int, packet_size: int) -> int {
    div_up(payload_len, packet_size - STATUS_LEN) * packet_size
}

/// The configured chunk size as a whole, nonzero number of packets, in bytes.
pub open spec fn configured_size(configured: int, packet_size: int) -> int {
    if configured == 0 {
        packet_size
    } else {
        div_up(configured, packet_size) * packet_size
    }
}

/// The size of the transfer that a read of `payload_len` bytes asks for, if
/// there is one.
pub open spec fn transfer_size(payload_len: usize, configured: usize, packet_size: usize) -> Option<
    usize,
> {
    let wanted = raw_size(payload_len as int, packet_size as int);
    let cap = configured_size(configured as int, packet_size as int);
    let size = if wanted <= cap {
        wanted
    } else {
        cap
    };
    if packet_size < STATUS_LEN || wanted > usize::MAX || cap > usize::MAX || size > u32::MAX {
        None
    } else {
        Some(size as usize)
    }
}

fn div_ceil(a: usize, b: usize) -> (q: usize)
    requires
        b > 0,
    ensures
        q == div_up(a as int, b as int),
{
    let q: usize = a / b;
    let r: usize = a % b;
    proof {
        vstd::arithmetic::div_mod::lemma_fundamental_div_mod(a as int, b as int);
        if r == 0 {
            assert(a == q * b) by (nonlinear_arith)
                requires
                    a == b * q + r,
                    r == 0,
            ;
            vstd::arithmetic::div_mod::lemma_fundamental_div_mod_converse(
                a + b - 1,
                b as int,
                q as int,
                b - 1,
            );
        } else {
            assert(a + b - 1 == (q + 1) * b + (r - 1)) by (nonlinear_arith)
                requires
                    a == b * q + r,
            ;
            vstd::arithmetic::div_mod::lemma_fundamental_div_mod_converse(
                a + b - 1,
                b as int,
                q + 1,
                r - 1,
            );
            assert(q < usize::MAX) by (nonlinear_arith)
                requires
                    a == b * q + r,
                    r > 0,
                    b > 0,
                    a <= usize::MAX,
            ;
        }
    }
    if r == 0 {
        q
    } else {
        q + 1
    }
}

/// Choose a raw USB transfer size for a read of `payload_len` bytes, taking the
/// two status bytes of every packet into account.
///
/// The configured chunk size, rounded up to whole packets, is a cap: a transfer
/// larger than the caller needs can hang when the device's answer ends exactly
/// on a packet boundary. `None` means that no size can be represented.
pub fn read_transfer_size(payload_len: usize, configured_size: usize, packet_size: usize) -> (size:
    Option<usize>)
    requires
        packet_size != STATUS_LEN,
    ensures
        size == transfer_size(payload_len, configured_size, packet_size),
{
    if packet_size < STATUS_LEN {
        return None;
    }
    let payload_per_packet: usize = packet_size - STATUS_LEN;
    let payload_packets: usize = div_ceil(payload_len, payload_per_packet);
    let payload_raw_size: usize = match payload_packets.checked_mul(packet_size) {
        Some(size) => size,
        None => return None,
    };
    let mut configured_packets: usize = div_ceil(configured_size, packet_size);
    proof {
        if configured_size > 0 {
            vstd::arithmetic::div_mod::lemma_div_is_ordered(
                packet_size as int,
                configured_size + packet_size - 1,
                packet_size as int,
            );
        }
        vstd::arithmetic::div_mod::lemma_div_by_self(packet_size as int);
        vstd::arithmetic::div_mod::lemma_basic_div(packet_size - 1, packet_size as int);
    }
    if configured_packets < 1 {
        configured_packets = 1;
    }
    let configured_raw_size: usize = match configured_packets.checked_mul(packet_size) {
        Some(size) => size,
        None => return None,
    };
    let transfer_size: usize = if payload_raw_size <= configured_raw_size {
        payload_raw_size
    } else {
        configured_raw_size
    };
    if transfer_size <= u32::MAX as usize {
        Some(transfer_size)
    } else {
        None
    }
}

/// Length of the packet that starts at `start`, in a transfer of `total` bytes.
fn packet_len(start: usize, total: usize, packet_size: usize) -> (len: usize)
    requires
        start <= total,
    ensures
        len == first_packet_len((total - start) as nat, packet_size as nat),
{
    if total - start <= packet_size {
        total - start
    } else {
        packet_size
    }
}

/// The payload is never longer than the transfer.
pub proof fn lemma_payload_len(raw: Seq<u8>, packet_size: nat)
    ensures
        payload(raw, packet_size).len() <= raw.len(),
    decreases raw.len(),
{
    if raw.len() > 0 && packet_size > 0 {
        let len = first_packet_len(raw.len(), packet_size) as int;
        lemma_payload_len(raw.skip(len), packet_size);
    }
}

/// Like [`strip_modem_status`], but collects the payload into a new `Vec`.
pub fn strip_modem_status_to_vec(data: &[u8], packet_size: usize) -> (stripped: Vec<u8>)
    requires
        packet_size > 0,
    ensures
        stripped@ == payload(data@, packet_size as nat),
{
    let total: usize = data.len();
    let mut stripped: Vec<u8> = Vec::with_capacity(total.saturating_sub(STATUS_LEN));
    let mut start: usize = 0;
    assert(data@.skip(0) =~= data@);
    while start < total
        invariant
            packet_size > 0,
            total == data@.len(),
            start <= total,
            stripped@ + payload(data@.skip(start as int), packet_size as nat) == payload(
                data@,
                packet_size as nat,
            ),
        decreases total - start,
    {
        let len: usize = packet_len(start, total, packet_size);
        let ghost rest = data@.skip(start as int);
        let ghost before = stripped@;
        if len > STATUS_LEN {
            let body: &[u8] = slice_subrange(data, start + STATUS_LEN, start + len);
            stripped.extend_from_slice(body);
        }
        assert(stripped@ =~= before + packet_payload(rest.take(len as int)));
        assert(rest.skip(len as int) =~= data@.skip(start + len));
        start = start + len;
        assert(stripped@ + payload(data@.skip(start as int), packet_size as nat) =~= before
            + payload(rest, packet_size as nat));
    }
    assert(stripped@ =~= payload(data@, packet_size as nat));
    stripped
}

/// Strip the two modem status bytes from each packet of a raw bulk IN transfer,
/// in place. Returns the number of payload bytes, which are moved to the front
/// of `data`; the bytes behind them keep their values.
pub fn strip_modem_status(data: &mut [u8], packet_size: usize) -> (stripped: usize)
    requires
        packet_size > 0 || old(data)@.len() <= STATUS_LEN,
    ensures
        stripped == payload(old(data)@, packet_size as nat).len(),
        final(data)@ == payload(old(data)@, packet_size as nat) + old(data)@.skip(
            stripped as int,
        ),
{
    let total: usize = data.len();
    let ghost raw = data@;
    proof {
        lemma_payload_len(raw, packet_size as nat);
    }
    if total <= STATUS_LEN {
        proof {
            lemma_short_payload(raw, packet_size as nat);
        }
        assert(raw =~= payload(raw, packet_size as nat) + raw.skip(0));
        return 0;
    }
    let mut write_pos: usize = 0;
    let mut start: usize = 0;
    let ghost mut done = Seq::<u8>::empty();
    assert(raw.skip(0) =~= raw);
    assert(done + raw.skip(0) =~= raw);
    while start < total
        invariant
            packet_size > 0,
            total == raw.len(),
            data@.len() == total,
            start <= total,
            write_pos <= start,
            write_pos == done.len(),
            done + payload(raw.skip(start as int), packet_size as nat) == payload(
                raw,
                packet_size as nat,
            ),
            data@ == done + raw.skip(write_pos as int),
        decreases total - start,
    {
        let len: usize = packet_len(start, total, packet_size);
        let ghost rest = raw.skip(start as int);
        let ghost before = done;
        if len > STATUS_LEN {
            let payload_start: usize = start + STATUS_LEN;
            let payload_len: usize = len - STATUS_LEN;
            let ghost body = packet_payload(rest.take(len as int));
            let mut k: usize = 0;
            assert(done + body.take(0) =~= done);
            while k < payload_len
                invariant
                    total == raw.len(),
                    data@.len() == total,
                    write_pos < payload_start,
                    payload_start + payload_len <= total,
                    write_pos == done.len(),
                    body == raw.subrange(payload_start as int, payload_start + payload_len),
                    k <= payload_len,
                    data@ == done + body.take(k as int) + raw.skip(write_pos + k),
                decreases payload_len - k,
            {
                let ghost now = data@;
                data[write_pos + k] = data[payload_start + k];
                assert(now[payload_start + k] == body[k as int]);
                k = k + 1;
                assert(data@ =~= done + body.take(k as int) + raw.skip(write_pos + k));
            }
            write_pos = write_pos + payload_len;
            proof {
                done = done + body;
            }
            assert(body.take(k as int) =~= body);
        }
        assert(done =~= before + packet_payload(rest.take(len as int)));
        assert(rest.skip(len as int) =~= raw.skip(start + len));
        start = start + len;
        assert(done + payload(raw.skip(start as int), packet_size as nat) =~= before + payload(
            rest,
            packet_size as nat,
        ));
    }
    assert(done =~= payload(raw, packet_size as nat));
    write_pos
}

/// A transfer of status bytes alone carries no payload.
pub proof fn lemma_short_payload(raw: Seq<u8>, packet_size: nat)
    requires
        raw.len() <= STATUS_LEN,
    ensures
        payload(raw, packet_size) == Seq::<u8>::empty(),
    decreases raw.len(),
{
    if raw.len() > 0 && packet_size > 0 {
        let len = first_packet_len(raw.len(), packet_size) as int;
        lemma_short_payload(raw.skip(len), packet_size);
    }
}

} // verus!
