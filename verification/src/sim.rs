use crate::connection::{Connection, ConnectionView};
use crate::error::IoError;
use crate::handle::{after_deliver, HandleView};
use vstd::prelude::*;
use vstd::utf8::{
    decode_utf8, decode_utf8_split, is_char_boundary, pop_first_scalar, valid_utf8,
    valid_utf8_concat,
};

verus! {

/// The far end of the wire in a simulation: a device that records every
/// message the write task puts on the wire, in arrival order. The byte
/// stream it observes is the concatenation of those messages.
pub struct SimDevice {
    received: Vec<String>,
}

impl View for SimDevice {
    type V = Seq<Seq<char>>;

    closed spec fn view(&self) -> Seq<Seq<char>> {
        self.received.deep_view()
    }
}

impl SimDevice {
    /// A device that has seen nothing yet.
    pub fn new() -> (d: Self)
        ensures
            d@ == Seq::<Seq<char>>::empty(),
    {
        let d = SimDevice { received: Vec::new() };
        proof {
            assert(d@ =~= Seq::<Seq<char>>::empty());
        }
        d
    }

    /// Every message seen so far, oldest first.
    pub fn received(&self) -> (r: &Vec<String>)
        ensures
            r.deep_view() == self@,
    {
        &self.received
    }
}

/// The write task catches up with its queue: every queued message goes on
/// the wire, oldest first. Afterwards the queue is empty and the device
/// has seen the old stream extended by exactly the queued messages, in
/// issue order — nothing lost, nothing duplicated, nothing reordered.
pub fn pump_writes(conn: &mut Connection, dev: &mut SimDevice)
    requires
        old(conn)@.handle matches Some(h) && h.writer_alive,
    ensures
        final(conn)@ == (ConnectionView {
            handle: Some(
                HandleView { outbound: Seq::empty(), ..old(conn)@.handle.unwrap() },
            ),
            ..old(conn)@
        }),
        final(dev)@ == old(dev)@ + old(conn)@.handle.unwrap().outbound,
{
    let ghost c0 = old(conn)@;
    let ghost h0 = old(conn)@.handle.unwrap();
    let ghost d0 = old(dev)@;
    loop
        invariant
            conn@.handle matches Some(hh) && hh.writer_alive,
            conn@.handle.unwrap().inbound == h0.inbound,
            conn@.handle.unwrap().reader_alive == h0.reader_alive,
            conn@.name == c0.name,
            conn@.baud_rate == c0.baud_rate,
            dev@ + conn@.handle.unwrap().outbound == d0 + h0.outbound,
        ensures
            conn@.handle matches Some(hh) && hh.writer_alive && hh.outbound.len() == 0,
            conn@.handle.unwrap().inbound == h0.inbound,
            conn@.handle.unwrap().reader_alive == h0.reader_alive,
            conn@.name == c0.name,
            conn@.baud_rate == c0.baud_rate,
            dev@ == d0 + h0.outbound,
        decreases conn@.handle.unwrap().outbound.len(),
    {
        let next = conn.take_outbound();
        match next {
            Some(msg) => {
                dev.received.push(msg);
                proof {
                    assert(dev@ + conn@.handle.unwrap().outbound =~= d0 + h0.outbound);
                }
            },
            None => {
                proof {
                    assert(dev@ =~= dev@ + conn@.handle.unwrap().outbound);
                }
                break;
            },
        }
    }
    proof {
        assert(conn@.handle.unwrap() =~= (HandleView { outbound: Seq::empty(), ..h0 }));
        assert(conn@ =~= (ConnectionView {
            handle: Some(HandleView { outbound: Seq::empty(), ..h0 }),
            ..c0
        }));
    }
}

/// Relies on String::from_utf8: returns the decoded text exactly when the
/// bytes are valid UTF-8, as vstd's model of UTF-8 states it, and nothing
/// on invalid bytes.
#[verifier::external_body]
fn decode_chunk(bytes: Vec<u8>) -> (r: Option<String>)
    ensures
        (match r {
            Some(s) => valid_utf8(bytes@) && s@ == decode_utf8(bytes@),
            None => !valid_utf8(bytes@),
        }),
{
    String::from_utf8(bytes).ok()
}

/// What one burst of device bytes does to the connection: valid UTF-8
/// that decodes to something is forwarded as one chunk; an empty decode
/// and a failed decode leave the buffered stream untouched.
pub open spec fn burst_step(c: ConnectionView, bytes: Seq<u8>) -> ConnectionView {
    if valid_utf8(bytes) && decode_utf8(bytes).len() > 0 {
        ConnectionView { handle: Some(after_deliver(c.handle.unwrap(), decode_utf8(bytes))), ..c }
    } else {
        c
    }
}

/// The connection after a sequence of device bursts, arriving in order.
pub open spec fn after_bursts(c: ConnectionView, bursts: Seq<Seq<u8>>) -> ConnectionView
    decreases bursts.len(),
{
    if bursts.len() == 0 {
        c
    } else {
        after_bursts(burst_step(c, bursts[0]), bursts.drop_first())
    }
}

/// Each burst decoded, in order.
pub open spec fn decoded_bursts(bursts: Seq<Seq<u8>>) -> Seq<Seq<char>> {
    bursts.map_values(|b: Seq<u8>| decode_utf8(b))
}

/// The chunks a sequence of bursts leaves for the reader: each burst
/// decoded, with the invalid and the empty ones dropped, in order.
pub open spec fn forwarded_chunks(bursts: Seq<Seq<u8>>) -> Seq<Seq<char>>
    decreases bursts.len(),
{
    if bursts.len() == 0 {
        Seq::empty()
    } else {
        let rest = forwarded_chunks(bursts.drop_first());
        if valid_utf8(bursts[0]) && decode_utf8(bursts[0]).len() > 0 {
            seq![decode_utf8(bursts[0])] + rest
        } else {
            rest
        }
    }
}

/// Law: the inbound path neither loses, duplicates nor reorders. After any
/// sequence of device bursts the inbound queue is the old queue extended
/// by exactly the decoded valid bursts, in arrival order; the invalid and
/// the empty ones are dropped and nothing is substituted for them.
pub proof fn lemma_bursts_buffer_in_order(c: ConnectionView, bursts: Seq<Seq<u8>>)
    requires
        c.handle is Some,
    ensures
        after_bursts(c, bursts) == (ConnectionView {
            handle: Some(
                HandleView {
                    inbound: c.handle.unwrap().inbound + forwarded_chunks(bursts),
                    ..c.handle.unwrap()
                },
            ),
            ..c
        }),
    decreases bursts.len(),
{
    let h = c.handle.unwrap();
    if bursts.len() == 0 {
        assert(h.inbound + forwarded_chunks(bursts) =~= h.inbound);
        assert(after_bursts(c, bursts) =~= (ConnectionView {
            handle: Some(HandleView { inbound: h.inbound + forwarded_chunks(bursts), ..h }),
            ..c
        }));
    } else {
        let c1 = burst_step(c, bursts[0]);
        lemma_bursts_buffer_in_order(c1, bursts.drop_first());
        if valid_utf8(bursts[0]) && decode_utf8(bursts[0]).len() > 0 {
            assert(h.inbound.push(decode_utf8(bursts[0])) + forwarded_chunks(bursts.drop_first())
                =~= h.inbound + forwarded_chunks(bursts));
        }
        assert(after_bursts(c, bursts) =~= (ConnectionView {
            handle: Some(HandleView { inbound: h.inbound + forwarded_chunks(bursts), ..h }),
            ..c
        }));
    }
}

/// Law: the round trip is exact when every burst decodes to something.
/// Starting from a drained buffer, after such a sequence of bursts the
/// buffered chunks are precisely the decoded bursts, in order, so draining
/// reads return their concatenation. A burst of invalid bytes is dropped
/// from the stream (the premise leaves those out), and one that decodes to
/// the empty text adds nothing.
pub proof fn lemma_valid_bursts_round_trip(c: ConnectionView, bursts: Seq<Seq<u8>>)
    requires
        c.handle matches Some(h) && h.inbound.len() == 0,
        forall|i: int|
            0 <= i < bursts.len() ==> valid_utf8(#[trigger] bursts[i]) && decode_utf8(
                bursts[i],
            ).len() > 0,
    ensures
        after_bursts(c, bursts).handle.unwrap().inbound == decoded_bursts(bursts),
    decreases bursts.len(),
{
    lemma_bursts_buffer_in_order(c, bursts);
    lemma_forwarded_chunks_all_valid(bursts);
    assert(c.handle.unwrap().inbound + forwarded_chunks(bursts) =~= forwarded_chunks(bursts));
}

/// When every burst is valid and decodes to something, nothing is dropped:
/// the forwarded chunks are exactly the decoded bursts.
proof fn lemma_forwarded_chunks_all_valid(bursts: Seq<Seq<u8>>)
    requires
        forall|i: int|
            0 <= i < bursts.len() ==> valid_utf8(#[trigger] bursts[i]) && decode_utf8(
                bursts[i],
            ).len() > 0,
    ensures
        forwarded_chunks(bursts) == decoded_bursts(bursts),
    decreases bursts.len(),
{
    if bursts.len() == 0 {
        assert(forwarded_chunks(bursts) =~= decoded_bursts(bursts));
    } else {
        lemma_forwarded_chunks_all_valid(bursts.drop_first());
        assert(decoded_bursts(bursts.drop_first()) =~= decoded_bursts(bursts).drop_first());
        assert(forwarded_chunks(bursts) =~= decoded_bursts(bursts));
    }
}

/// The end of a valid UTF-8 sequence is a character boundary of any valid
/// extension of it.
proof fn lemma_boundary_at_join(b1: Seq<u8>, b2: Seq<u8>)
    requires
        valid_utf8(b1),
        valid_utf8(b2),
    ensures
        is_char_boundary(b1 + b2, b1.len() as int),
    decreases b1.len(),
{
    valid_utf8_concat(b1, b2);
    if b1.len() > 0 {
        let rest = pop_first_scalar(b1);
        assert(pop_first_scalar(b1 + b2) =~= rest + b2);
        lemma_boundary_at_join(rest, b2);
    }
}

/// Decoding distributes over joining two valid UTF-8 sequences.
proof fn lemma_decode_concat(b1: Seq<u8>, b2: Seq<u8>)
    requires
        valid_utf8(b1),
        valid_utf8(b2),
    ensures
        valid_utf8(b1 + b2),
        decode_utf8(b1 + b2) == decode_utf8(b1) + decode_utf8(b2),
{
    valid_utf8_concat(b1, b2);
    lemma_boundary_at_join(b1, b2);
    decode_utf8_split(b1 + b2, b1.len() as int);
    assert((b1 + b2).subrange(0, b1.len() as int) =~= b1);
    assert((b1 + b2).subrange(b1.len() as int, (b1 + b2).len() as int) =~= b2);
}

/// Decoding the concatenated bursts equals decoding each burst and
/// concatenating, when every burst is valid.
proof fn lemma_flatten_decode(bursts: Seq<Seq<u8>>)
    requires
        forall|i: int| 0 <= i < bursts.len() ==> valid_utf8(#[trigger] bursts[i]),
    ensures
        valid_utf8(bursts.flatten()),
        decode_utf8(bursts.flatten()) == decoded_bursts(bursts).flatten(),
    decreases bursts.len(),
{
    if bursts.len() == 0 {
        assert(bursts.flatten() =~= Seq::<u8>::empty());
        assert(decoded_bursts(bursts).flatten() =~= Seq::<char>::empty());
        assert(decode_utf8(bursts.flatten()) =~= Seq::<char>::empty());
    } else {
        lemma_flatten_decode(bursts.drop_first());
        lemma_decode_concat(bursts[0], bursts.drop_first().flatten());
        assert(bursts.flatten() == bursts[0] + bursts.drop_first().flatten());
        let dec = decoded_bursts(bursts);
        assert(decoded_bursts(bursts.drop_first()) =~= dec.drop_first());
        assert(dec.flatten() == dec[0] + dec.drop_first().flatten());
        assert(dec[0] == decode_utf8(bursts[0]));
    }
}

/// Law: the round trip at stream granularity. Starting from a drained
/// buffer, when every delivered burst is valid UTF-8 and decodes to
/// something — the device hands over whole lines, so a valid stream
/// arrives as valid bursts — the concatenation of the buffered chunks,
/// which draining reads return in order, equals the whole delivered byte
/// stream decoded as UTF-8.
pub proof fn lemma_stream_round_trip(c: ConnectionView, bursts: Seq<Seq<u8>>)
    requires
        c.handle matches Some(h) && h.inbound.len() == 0,
        forall|i: int|
            0 <= i < bursts.len() ==> valid_utf8(#[trigger] bursts[i]) && decode_utf8(
                bursts[i],
            ).len() > 0,
    ensures
        valid_utf8(bursts.flatten()),
        after_bursts(c, bursts).handle.unwrap().inbound.flatten() == decode_utf8(
            bursts.flatten(),
        ),
{
    lemma_valid_bursts_round_trip(c, bursts);
    lemma_flatten_decode(bursts);
}

/// One burst of bytes arrives from the device. The read task decodes it as
/// UTF-8 and forwards the text as one message; an empty burst is not
/// forwarded. A burst that fails to decode is reported as `InvalidData`
/// and dropped: the task keeps running and the buffered stream is not
/// touched, so nothing malformed is ever substituted into it.
pub fn on_device_bytes(conn: &mut Connection, bytes: Vec<u8>) -> (r: Result<(), IoError>)
    requires
        old(conn)@.handle matches Some(h) && h.reader_alive,
    ensures
        final(conn)@ == burst_step(old(conn)@, bytes@),
        valid_utf8(bytes@) ==> r is Ok,
        !valid_utf8(bytes@) ==> r == Err::<(), IoError>(IoError::InvalidData),
{
    match decode_chunk(bytes) {
        Some(s) => {
            if !s.as_str().is_empty() {
                conn.deliver(s.as_str());
            }
            Ok(())
        },
        None => Err(IoError::InvalidData),
    }
}

} // verus!
