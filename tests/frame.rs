use std::io::Write;

use pumpkin::transport::{Inbound, Outbound};

use pumpkin::codec::DeserializerError;
use pumpkin::frame::{
    read_body, read_compressed_body, split_frame, write_compressed_packet, write_packet,
    PacketError,
};

#[test]
fn uncompressed_frame_round_trips() {
    let framed = write_packet(0x26, &vec![1, 2, 3]);
    assert_eq!(framed, vec![4, 0x26, 1, 2, 3]);
    let (body, used) = split_frame(&framed).unwrap().unwrap();
    assert_eq!(used, 5);
    let p = read_body(&body).unwrap_or_else(|e| panic!("{:?}", e));
    assert_eq!(p.id, 0x26);
    assert_eq!(p.payload, vec![1, 2, 3]);
}

#[test]
fn partial_frames_wait_for_more_bytes() {
    let framed = write_packet(1, &vec![9; 300]);
    assert_eq!(split_frame(&framed[..1].to_vec()), Ok(None));
    assert_eq!(split_frame(&framed[..100].to_vec()), Ok(None));
    let mut two = framed.clone();
    two.extend(write_packet(2, &vec![]));
    let (body, used) = split_frame(&two).unwrap().unwrap();
    assert_eq!(used, framed.len());
    assert_eq!(body.len(), 301);
}

#[test]
fn malformed_frame_lengths_are_refused() {
    assert_eq!(split_frame(&vec![0x80, 0x80, 0x80, 0x80, 0x80, 0x01]), Err(PacketError::Decode(DeserializerError::VarIntTooBig)));
    assert_eq!(split_frame(&vec![0xff, 0xff, 0xff, 0xff, 0x0f]), Err(PacketError::NegativeLength));
}

#[test]
fn small_bodies_are_stored_behind_a_zero() {
    let framed = write_compressed_packet(3, &vec![7, 7], 256).unwrap();
    assert_eq!(framed, vec![4, 0, 3, 7, 7]);
    let (body, _) = split_frame(&framed).unwrap().unwrap();
    let p = read_compressed_body(&body).unwrap_or_else(|e| panic!("{:?}", e));
    assert_eq!((p.id, p.payload), (3, vec![7, 7]));
}

#[test]
fn large_bodies_are_compressed_and_read_back() {
    let payload: Vec<u8> = (0..1000u32).map(|i| (i % 7) as u8).collect();
    let framed = write_compressed_packet(0x27, &payload, 256).unwrap();
    assert!(framed.len() < payload.len());
    let (body, used) = split_frame(&framed).unwrap().unwrap();
    assert_eq!(used, framed.len());
    let p = read_compressed_body(&body).unwrap_or_else(|e| panic!("{:?}", e));
    assert_eq!(p.id, 0x27);
    assert_eq!(p.payload, payload);
}

#[test]
fn announced_length_must_match() {
    let mut enc = flate2::write::ZlibEncoder::new(Vec::new(), flate2::Compression::default());
    enc.write_all(&[5, 1, 2, 3]).unwrap();
    let packed = enc.finish().unwrap();
    let mut body = vec![9];
    body.extend(&packed);
    assert_eq!(read_compressed_body(&body).err(), Some(PacketError::LengthMismatch));
    let mut body = vec![4];
    body.extend(&packed);
    let p = read_compressed_body(&body).unwrap_or_else(|e| panic!("{:?}", e));
    assert_eq!((p.id, p.payload), (5, vec![1, 2, 3]));
    assert_eq!(read_compressed_body(&vec![4, 1, 2, 3]).err(), Some(PacketError::DecompressionFailed));
}

#[test]
fn outbound_flushes_before_compression_starts() {
    let mut out = Outbound::new();
    out.enqueue_packet(1, &vec![10]).unwrap();
    out.enqueue_packet(2, &vec![20, 21]).unwrap();
    let flushed = out.enable_compression(0);
    assert_eq!(flushed, vec![2, 1, 10, 3, 2, 20, 21]);
    assert!(out.take_pending().is_empty());
    out.enqueue_packet(3, &vec![30; 50]).unwrap();
    let compressed = out.take_pending();

    let mut inbound = Inbound::new();
    inbound.push_bytes(&flushed[..4].to_vec());
    let p = inbound.next_packet().unwrap().unwrap();
    assert_eq!((p.id, p.payload), (1, vec![10]));
    assert!(inbound.next_packet().unwrap().is_none());
    inbound.push_bytes(&flushed[4..].to_vec());
    let p = inbound.next_packet().unwrap().unwrap();
    assert_eq!((p.id, p.payload), (2, vec![20, 21]));
    inbound.enable_compression();
    inbound.push_bytes(&compressed);
    let p = inbound.next_packet().unwrap().unwrap();
    assert_eq!((p.id, p.payload), (3, vec![30; 50]));
    assert!(inbound.buffer.is_empty());
}
