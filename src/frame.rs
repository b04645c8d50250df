use vstd::prelude::*;

use crate::codec::{
    lemma_var_int_round_trip, parse_var_int, var_encoding, write_var, write_var_int, ByteBuffer,
    DeserializerError,
};
use crate::compression::{zlib_decoded, zlib_decodes, zlib_inflate};

verus! {

/// A packet as it travels inside a frame: its id and its payload bytes.
pub struct RawPacket {
    pub id: i32,
    pub payload: Vec<u8>,
}

/// Why a frame could not be read or written.
#[derive(Debug, Clone, Copy, PartialEq, Eq, Structural)]
pub enum PacketError {
    /// A length or id is malformed.
    Decode(DeserializerError),
    /// A frame declares a negative length.
    NegativeLength,
    /// The compressed body is not a valid zlib stream.
    DecompressionFailed,
    /// The decompressed body's length differs from the length the frame announced.
    LengthMismatch,
    /// The body could not be compressed.
    CompressionFailed,
}

/// Whether compressing `data` as a zlib stream at the default level succeeds.
pub uninterp spec fn zlib_encodes(data: Seq<u8>) -> bool;

/// What compressing `data` as a zlib stream at the default level gives.
pub uninterp spec fn zlib_encoded(data: Seq<u8>) -> Seq<u8>;

/// Relies on `flate2::bufread::ZlibEncoder` at the default level: reading it to the end
/// succeeds or fails, and yields the compressed stream, depending on the input bytes alone.
#[verifier::external_body]
fn zlib_compress(data: &Vec<u8>) -> (r: Option<Vec<u8>>)
    ensures
        r is Some <==> zlib_encodes(data@),
        r matches Some(v) ==> v@ == zlib_encoded(data@),
{
    let mut encoder = flate2::bufread::ZlibEncoder::new(&data[..], flate2::Compression::default());
    let mut out = Vec::new();
    std::io::Read::read_to_end(&mut encoder, &mut out).ok().map(|_| out)
}

/// A packet body: its id as a variable-length integer, then the payload.
pub open spec fn body_encoding(id: i32, payload: Seq<u8>) -> Seq<u8> {
    var_encoding(id as u32 as u64) + payload
}

/// A frame: the body's length as a variable-length integer, then the body.
pub open spec fn frame_encoding(body: Seq<u8>) -> Seq<u8> {
    var_encoding(body.len() as u64) + body
}

/// A packet body read as its id and payload.
pub open spec fn parse_body(body: Seq<u8>) -> Result<(i32, Seq<u8>), PacketError> {
    match parse_var_int(body) {
        Err(e) => Err(PacketError::Decode(e)),
        Ok((id, n)) => Ok((id, body.skip(n as int))),
    }
}

/// The frame at the start of `bytes`: `None` while it is incomplete, else the body and the
/// number of bytes the frame takes.
pub open spec fn parse_frame(bytes: Seq<u8>) -> Result<Option<(Seq<u8>, nat)>, PacketError> {
    match parse_var_int(bytes) {
        Err(DeserializerError::Incomplete) => Ok(None),
        Err(e) => Err(PacketError::Decode(e)),
        Ok((len, n)) => if len < 0 {
            Err(PacketError::NegativeLength)
        } else if n + len > bytes.len() {
            Ok(None)
        } else {
            Ok(Some((bytes.subrange(n as int, n + len), (n + len) as nat)))
        },
    }
}

fn copy_from(bytes: &Vec<u8>, from: usize, to: usize) -> (r: Vec<u8>)
    requires
        from <= to <= bytes@.len(),
    ensures
        r@ == bytes@.subrange(from as int, to as int),
{
    let mut out: Vec<u8> = Vec::new();
    let mut k: usize = from;
    while k < to
        invariant
            from <= k <= to,
            to <= bytes@.len(),
            out@ == bytes@.subrange(from as int, k as int),
        decreases to - k,
    {
        out.push(bytes[k]);
        k += 1;
        assert(out@ =~= bytes@.subrange(from as int, k as int));
    }
    out
}

fn append(out: &mut Vec<u8>, tail: &Vec<u8>)
    ensures
        final(out)@ == old(out)@ + tail@,
{
    let mut k: usize = 0;
    while k < tail.len()
        invariant
            k <= tail@.len(),
            out@ == old(out)@ + tail@.subrange(0, k as int),
        decreases tail@.len() - k,
    {
        out.push(tail[k]);
        k += 1;
        assert(out@ =~= old(out)@ + tail@.subrange(0, k as int));
    }
    assert(tail@.subrange(0, tail@.len() as int) =~= tail@);
}

/// Splits the first frame off a stream of received bytes.
pub fn split_frame(bytes: &Vec<u8>) -> (r: Result<Option<(Vec<u8>, usize)>, PacketError>)
    ensures
        match parse_frame(bytes@) {
            Err(e) => r == Err::<Option<(Vec<u8>, usize)>, PacketError>(e),
            Ok(None) => r matches Ok(None),
            Ok(Some((body, used))) => r matches Ok(Some((b, u))) && b@ == body && u == used,
        },
{
    let mut buf = ByteBuffer::new(copy_from(bytes, 0, bytes.len()));
    assert(bytes@.subrange(0, bytes@.len() as int) =~= bytes@);
    let len = match buf.get_var_int() {
        Ok(len) => len,
        Err(DeserializerError::Incomplete) => {
            return Ok(None);
        },
        Err(e) => {
            return Err(PacketError::Decode(e));
        },
    };
    if len < 0 {
        return Err(PacketError::NegativeLength);
    }
    let n = buf.pos;
    if len as usize > bytes.len() - n {
        return Ok(None);
    }
    let end = n + len as usize;
    Ok(Some((copy_from(bytes, n, end), end)))
}

/// Reads a packet body into its id and payload.
pub fn read_body(body: &Vec<u8>) -> (r: Result<RawPacket, PacketError>)
    ensures
        match parse_body(body@) {
            Err(e) => r == Err::<RawPacket, PacketError>(e),
            Ok((id, payload)) => r matches Ok(p) && p.id == id && p.payload@ == payload,
        },
{
    let mut buf = ByteBuffer::new(copy_from(body, 0, body.len()));
    assert(body@.subrange(0, body@.len() as int) =~= body@);
    match buf.get_var_int() {
        Ok(id) => {
            let payload = copy_from(body, buf.pos, body.len());
            assert(payload@ =~= body@.skip(buf.pos as int));
            Ok(RawPacket { id, payload })
        },
        Err(e) => Err(PacketError::Decode(e)),
    }
}

/// A compressed-mode body read as a packet: a zero length prefix means the rest is stored as
/// is; otherwise the rest is a zlib stream that must decompress to exactly that many bytes.
pub open spec fn compressed_body_read_as(body: Seq<u8>, r: Result<RawPacket, PacketError>) -> bool {
    match parse_var_int(body) {
        Err(e) => r == Err::<RawPacket, PacketError>(PacketError::Decode(e)),
        Ok((size, n)) => {
            let rest = body.skip(n as int);
            if size == 0 {
                match parse_body(rest) {
                    Err(e) => r == Err::<RawPacket, PacketError>(e),
                    Ok((id, payload)) => r matches Ok(p) && p.id == id && p.payload@ == payload,
                }
            } else {
                if !zlib_decodes(rest) {
                    r == Err::<RawPacket, PacketError>(PacketError::DecompressionFailed)
                } else if zlib_decoded(rest).len() != size {
                    r == Err::<RawPacket, PacketError>(PacketError::LengthMismatch)
                } else {
                    match parse_body(zlib_decoded(rest)) {
                        Err(e) => r == Err::<RawPacket, PacketError>(e),
                        Ok((id, payload)) => r matches Ok(p) && p.id == id && p.payload@ == payload,
                    }
                }
            }
        },
    }
}

/// Reads a body of a connection on which compression is enabled.
pub fn read_compressed_body(body: &Vec<u8>) -> (r: Result<RawPacket, PacketError>)
    ensures
        compressed_body_read_as(body@, r),
{
    let mut buf = ByteBuffer::new(copy_from(body, 0, body.len()));
    assert(body@.subrange(0, body@.len() as int) =~= body@);
    let size = match buf.get_var_int() {
        Ok(size) => size,
        Err(e) => {
            return Err(PacketError::Decode(e));
        },
    };
    let rest = copy_from(body, buf.pos, body.len());
    assert(rest@ =~= body@.skip(buf.pos as int));
    if size == 0 {
        return read_body(&rest);
    }
    let inflated = match zlib_inflate(&rest) {
        Ok(v) => v,
        Err(_) => {
            return Err(PacketError::DecompressionFailed);
        },
    };
    if size < 0 || inflated.len() != size as usize {
        return Err(PacketError::LengthMismatch);
    }
    read_body(&inflated)
}

/// Frames a packet for a connection without compression: length, id, payload.
pub fn write_packet(id: i32, payload: &Vec<u8>) -> (r: Vec<u8>)
    requires
        payload@.len() + 5 <= u64::MAX,
    ensures
        r@ == frame_encoding(body_encoding(id, payload@)),
{
    let mut body: Vec<u8> = Vec::new();
    write_var_int(&mut body, id);
    append(&mut body, payload);
    let mut out: Vec<u8> = Vec::new();
    write_var(&mut out, body.len() as u64);
    append(&mut out, &body);
    assert(body@ =~= body_encoding(id, payload@));
    assert(out@ =~= frame_encoding(body_encoding(id, payload@)));
    out
}

/// Frames a packet for a connection with compression: bodies of at least `threshold` bytes
/// are compressed behind their uncompressed length, smaller ones are stored behind a zero.
pub fn write_compressed_packet(id: i32, payload: &Vec<u8>, threshold: usize) -> (r: Result<
    Vec<u8>,
    PacketError,
>)
    ensures
        body_encoding(id, payload@).len() < threshold ==> (r matches Ok(v) && v@ == frame_encoding(
            var_encoding(0) + body_encoding(id, payload@),
        )),
        body_encoding(id, payload@).len() >= threshold ==> (r is Ok <==> zlib_encodes(
            body_encoding(id, payload@),
        )),
        body_encoding(id, payload@).len() >= threshold ==> match r {
            Ok(v) => v@ == frame_encoding(
                var_encoding(body_encoding(id, payload@).len() as u64) + zlib_encoded(
                    body_encoding(id, payload@),
                ),
            ),
            Err(e) => e == PacketError::CompressionFailed,
        },
{
    let mut body: Vec<u8> = Vec::new();
    write_var_int(&mut body, id);
    append(&mut body, payload);
    assert(body@ =~= body_encoding(id, payload@));
    let mut inner: Vec<u8> = Vec::new();
    if body.len() < threshold {
        write_var(&mut inner, 0);
        append(&mut inner, &body);
    } else {
        let packed = match zlib_compress(&body) {
            Some(v) => v,
            None => {
                return Err(PacketError::CompressionFailed);
            },
        };
        write_var(&mut inner, body.len() as u64);
        append(&mut inner, &packed);
    }
    let mut out: Vec<u8> = Vec::new();
    write_var(&mut out, inner.len() as u64);
    append(&mut out, &inner);
    Ok(out)
}


/// Reading back a written frame gives the packet's body, whatever bytes follow the frame, and
/// reading the body gives back the packet's id and payload.
pub proof fn lemma_frame_round_trip(id: i32, payload: Seq<u8>, rest: Seq<u8>)
    requires
        body_encoding(id, payload).len() < 0x8000_0000,
    ensures
        parse_frame(frame_encoding(body_encoding(id, payload)) + rest) == Ok::<
            Option<(Seq<u8>, nat)>,
            PacketError,
        >(
            Some(
                (
                    body_encoding(id, payload),
                    frame_encoding(body_encoding(id, payload)).len(),
                ),
            ),
        ),
        parse_body(body_encoding(id, payload)) == Ok::<(i32, Seq<u8>), PacketError>((id, payload)),
{
    let body = body_encoding(id, payload);
    let x = body.len() as u64;
    assert(x < 0x8000_0000 ==> ((x as i32) as u32) as u64 == x && (x as i32) >= 0 && (x
        as i32) as u64 == x) by (bit_vector);
    let v = x as i32;
    assert(v as int == body.len());
    let e = var_encoding(x);
    lemma_var_int_round_trip(v, body + rest);
    let all = frame_encoding(body) + rest;
    assert(all =~= e + (body + rest));
    assert(all.subrange(e.len() as int, (e.len() + body.len()) as int) =~= body);
    let id_bytes = var_encoding(id as u32 as u64);
    lemma_var_int_round_trip(id, payload);
    assert((id_bytes + payload).skip(id_bytes.len() as int) =~= payload);
}


/// The frames of several packets written one after another, the first packet first.
pub open spec fn frames_of(packets: Seq<(i32, Seq<u8>)>) -> Seq<u8>
    decreases packets.len(),
{
    if packets.len() == 0 {
        Seq::empty()
    } else {
        frame_encoding(body_encoding(packets[0].0, packets[0].1)) + frames_of(packets.drop_first())
    }
}

/// Frames written one after another are read back in the order they were written: the first
/// frame gives the first packet, and what follows it is the frames of the others.
pub proof fn lemma_frames_read_in_order(packets: Seq<(i32, Seq<u8>)>)
    requires
        packets.len() > 0,
        forall|i: int|
            0 <= i < packets.len() ==> body_encoding(#[trigger] packets[i].0, packets[i].1).len()
                < 0x8000_0000,
    ensures
        ({
            let body = body_encoding(packets[0].0, packets[0].1);
            let used = frame_encoding(body).len();
            &&& parse_frame(frames_of(packets)) == Ok::<Option<(Seq<u8>, nat)>, PacketError>(
                Some((body, used)),
            )
            &&& parse_body(body) == Ok::<(i32, Seq<u8>), PacketError>((packets[0].0, packets[0].1))
            &&& frames_of(packets).skip(used as int) == frames_of(packets.drop_first())
        }),
{
    let body = body_encoding(packets[0].0, packets[0].1);
    let rest = frames_of(packets.drop_first());
    lemma_frame_round_trip(packets[0].0, packets[0].1, rest);
    assert((frame_encoding(body) + rest).skip(frame_encoding(body).len() as int) =~= rest);
}

} // verus!
