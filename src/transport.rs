use vstd::prelude::*;

use crate::frame::{
    body_encoding, compressed_body_read_as, frame_encoding, parse_body, parse_frame,
    read_body, read_compressed_body, split_frame, write_compressed_packet, write_packet,
    zlib_encoded, zlib_encodes, PacketError, RawPacket,
};
use crate::codec::var_encoding;

verus! {

/// Outbound side of a connection: frames waiting to be written, in the order they were queued.
pub struct Outbound {
    pub pending: Vec<u8>,
    /// Compression threshold, once compression is enabled.
    pub compression: Option<usize>,
}

/// Inbound side of a connection: received bytes not yet read as packets.
pub struct Inbound {
    pub buffer: Vec<u8>,
    pub compression: bool,
}

fn append_bytes(out: &mut Vec<u8>, tail: &Vec<u8>)
    ensures
        final(out)@ == old(out)@ + tail@,
{
    let mut k: usize = 0;
    while k < tail.len()
        invariant
            k <= tail@.len(),
            out@ == old(out)@ + tail@.subrange(0, k as int),
        decreases tail@.len() - k,
    {
        out.push(tail[k]);
        k += 1;
        assert(out@ =~= old(out)@ + tail@.subrange(0, k as int));
    }
    assert(tail@.subrange(0, tail@.len() as int) =~= tail@);
}

impl Outbound {
    pub fn new() -> (r: Outbound)
        ensures
            r.pending@.len() == 0,
            r.compression is None,
    {
        Outbound { pending: Vec::new(), compression: None }
    }

    /// Queues a packet behind those already queued, framed for the current mode.
    pub fn enqueue_packet(&mut self, id: i32, payload: &Vec<u8>) -> (r: Result<(), PacketError>)
        requires
            payload@.len() + 5 <= u64::MAX,
        ensures
            final(self).compression == old(self).compression,
            old(self).compression is None ==> r is Ok && final(self).pending@ == old(self).pending@
                + frame_encoding(body_encoding(id, payload@)),
            old(self).compression matches Some(t) ==> (body_encoding(id, payload@).len() < t ==> (r is Ok
                && final(self).pending@ == old(self).pending@ + frame_encoding(
                var_encoding(0) + body_encoding(id, payload@),
            ))),
            old(self).compression matches Some(t) ==> (body_encoding(id, payload@).len() >= t ==> (r is Ok
                <==> zlib_encodes(body_encoding(id, payload@)))),
            old(self).compression matches Some(t) ==> (body_encoding(id, payload@).len() >= t ==> match r {
                Ok(_) => final(self).pending@ == old(self).pending@ + frame_encoding(
                    var_encoding(body_encoding(id, payload@).len() as u64) + zlib_encoded(
                        body_encoding(id, payload@),
                    ),
                ),
                Err(e) => e == PacketError::CompressionFailed && final(self).pending@ == old(
                    self,
                ).pending@,
            }),
    {
        match self.compression {
            None => {
                let framed = write_packet(id, payload);
                append_bytes(&mut self.pending, &framed);
                Ok(())
            },
            Some(threshold) => {
                let framed = write_compressed_packet(id, payload, threshold)?;
                append_bytes(&mut self.pending, &framed);
                Ok(())
            },
        }
    }

    /// Takes every queued byte, in order, for writing.
    pub fn take_pending(&mut self) -> (r: Vec<u8>)
        ensures
            r@ == old(self).pending@,
            final(self).pending@.len() == 0,
            final(self).compression == old(self).compression,
    {
        self.pending.split_off(0)
    }

    /// Enables compression: what is already queued is handed back to be written as it is, and
    /// every later packet is framed compressed. Once enabled, the threshold is kept.
    pub fn enable_compression(&mut self, threshold: usize) -> (r: Vec<u8>)
        ensures
            r@ == old(self).pending@,
            final(self).pending@.len() == 0,
            old(self).compression is None ==> final(self).compression == Some(threshold),
            old(self).compression is Some ==> final(self).compression == old(self).compression,
    {
        let flushed = self.take_pending();
        if self.compression.is_none() {
            self.compression = Some(threshold);
        }
        flushed
    }
}

impl Inbound {
    pub fn new() -> (r: Inbound)
        ensures
            r.buffer@.len() == 0,
            !r.compression,
    {
        Inbound { buffer: Vec::new(), compression: false }
    }

    /// Adds bytes read from the socket behind those not read yet.
    pub fn push_bytes(&mut self, bytes: &Vec<u8>)
        ensures
            final(self).buffer@ == old(self).buffer@ + bytes@,
            final(self).compression == old(self).compression,
    {
        append_bytes(&mut self.buffer, bytes);
    }

    /// Switches to compressed bodies for every later frame.
    pub fn enable_compression(&mut self)
        ensures
            final(self).compression,
            final(self).buffer@ == old(self).buffer@,
    {
        self.compression = true;
    }

    /// Reads the next packet: `None` while its frame is incomplete. A read frame leaves the
    /// buffer, whether its body reads or not.
    pub fn next_packet(&mut self) -> (r: Result<Option<RawPacket>, PacketError>)
        ensures
            final(self).compression == old(self).compression,
            match parse_frame(old(self).buffer@) {
                Err(e) => r == Err::<Option<RawPacket>, PacketError>(e),
                Ok(None) => r matches Ok(None) && final(self).buffer@ == old(self).buffer@,
                Ok(Some((body, used))) => final(self).buffer@ == old(self).buffer@.skip(
                    used as int,
                ) && if old(self).compression {
                    match r {
                        Ok(Some(p)) => compressed_body_read_as(body, Ok(p)),
                        Err(e) => compressed_body_read_as(body, Err(e)),
                        Ok(None) => false,
                    }
                } else {
                    match parse_body(body) {
                        Err(e) => r == Err::<Option<RawPacket>, PacketError>(e),
                        Ok((id, payload)) => r matches Ok(Some(p)) && p.id == id && p.payload@
                            == payload,
                    }
                },
            },
    {
        let (body, used) = match split_frame(&self.buffer) {
            Err(e) => {
                return Err(e);
            },
            Ok(None) => {
                return Ok(None);
            },
            Ok(Some(frame)) => frame,
        };
        let mut rest: Vec<u8> = Vec::new();
        let mut k: usize = used;
        let ghost old_buffer = self.buffer@;
        while k < self.buffer.len()
            invariant
                used <= k <= self.buffer@.len(),
                self.buffer@ == old_buffer,
                rest@ == old_buffer.subrange(used as int, k as int),
            decreases self.buffer@.len() - k,
        {
            rest.push(self.buffer[k]);
            k += 1;
            assert(rest@ =~= old_buffer.subrange(used as int, k as int));
        }
        self.buffer = rest;
        let packet = if self.compression {
            read_compressed_body(&body)
        } else {
            read_body(&body)
        };
        match packet {
            Ok(p) => Ok(Some(p)),
            Err(e) => Err(e),
        }
    }
}

} // verus!
