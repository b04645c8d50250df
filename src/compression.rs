use vstd::prelude::*;

use crate::world_format::{kind_not_found, kind_unsupported, WorldHandlingError};

verus! {

/// Compression scheme of a chunk payload in a region file.
#[derive(Debug, Clone, Copy, PartialEq, Eq, Structural)]
pub enum Compression {
    /// GZip Compression
    GZip,
    /// ZLib Compression
    ZLib,
    /// Uncompressed (since a version before 1.15.1)
    Uncompressed,
    /// LZ4 Compression (since 24w04a)
    LZ4,
    /// Custom compression algorithm (since 24w05a)
    Custom,
}

/// The scheme a region file's compression byte stands for.
pub open spec fn scheme_of(value: u8) -> Option<Compression> {
    if value == 1 {
        Some(Compression::GZip)
    } else if value == 2 {
        Some(Compression::ZLib)
    } else if value == 3 {
        Some(Compression::Uncompressed)
    } else if value == 4 {
        Some(Compression::LZ4)
    } else if value == 127 {
        Some(Compression::Custom)
    } else {
        None
    }
}

/// Whether `data` decodes as one gzip member.
pub uninterp spec fn gzip_decodes(data: Seq<u8>) -> bool;

/// Whether `data` decodes as a zlib stream.
pub uninterp spec fn zlib_decodes(data: Seq<u8>) -> bool;

/// Whether `data` decodes as an LZ4 frame.
pub uninterp spec fn lz4_decodes(data: Seq<u8>) -> bool;

/// What decoding `data` as one gzip member gives.
pub uninterp spec fn gzip_decoded(data: Seq<u8>) -> Seq<u8>;

/// What decoding `data` as a zlib stream gives.
pub uninterp spec fn zlib_decoded(data: Seq<u8>) -> Seq<u8>;

/// What decoding `data` as an LZ4 frame gives.
pub uninterp spec fn lz4_decoded(data: Seq<u8>) -> Seq<u8>;

/// Relies on `flate2::bufread::GzDecoder`: reading it to the end succeeds or fails, and yields
/// the decoded member, depending on the input bytes alone.
#[verifier::external_body]
fn gunzip(data: &Vec<u8>) -> (r: Result<Vec<u8>, std::io::ErrorKind>)
    ensures
        r is Ok <==> gzip_decodes(data@),
        r matches Ok(v) ==> v@ == gzip_decoded(data@),
{
    let mut decoder = flate2::bufread::GzDecoder::new(&data[..]);
    let mut out = Vec::new();
    match std::io::Read::read_to_end(&mut decoder, &mut out) {
        Ok(_) => Ok(out),
        Err(e) => Err(e.kind()),
    }
}

/// Relies on `flate2::bufread::ZlibDecoder`: reading it to the end succeeds or fails, and yields
/// the decoded stream, depending on the input bytes alone.
#[verifier::external_body]
pub(crate) fn zlib_inflate(data: &Vec<u8>) -> (r: Result<Vec<u8>, std::io::ErrorKind>)
    ensures
        r is Ok <==> zlib_decodes(data@),
        r matches Ok(v) ==> v@ == zlib_decoded(data@),
{
    let mut decoder = flate2::bufread::ZlibDecoder::new(&data[..]);
    let mut out = Vec::new();
    match std::io::Read::read_to_end(&mut decoder, &mut out) {
        Ok(_) => Ok(out),
        Err(e) => Err(e.kind()),
    }
}

/// Relies on `lz4::Decoder`: creating it only allocates a context, and reading it to the end
/// succeeds or fails, and yields the decoded frame, depending on the input bytes alone.
#[verifier::external_body]
fn lz4_decompress(data: &Vec<u8>) -> (r: Result<Vec<u8>, std::io::ErrorKind>)
    ensures
        r is Ok <==> lz4_decodes(data@),
        r matches Ok(v) ==> v@ == lz4_decoded(data@),
{
    let mut decoder = match lz4::Decoder::new(data.as_slice()) {
        Ok(d) => d,
        Err(e) => return Err(e.kind()),
    };
    let mut out = Vec::new();
    match std::io::Read::read_to_end(&mut decoder, &mut out) {
        Ok(_) => Ok(out),
        Err(e) => Err(e.kind()),
    }
}

/// Whether `r` is the outcome of decompressing `data` with scheme `c`: the data itself when
/// uncompressed; for the three codecs the decoded bytes where the data decodes, else an error
/// naming the scheme; always an error for the custom scheme.
pub open spec fn decompressed_as(
    c: Compression,
    data: Seq<u8>,
    r: Result<Vec<u8>, WorldHandlingError>,
) -> bool {
    match c {
        Compression::Uncompressed => r matches Ok(v) && v@ == data,
        Compression::GZip => (r is Ok <==> gzip_decodes(data)) && match r {
            Ok(v) => v@ == gzip_decoded(data),
            Err(e) => e matches WorldHandlingError::CompressionError(name, _) && name@ == "Gzip"@,
        },
        Compression::ZLib => (r is Ok <==> zlib_decodes(data)) && match r {
            Ok(v) => v@ == zlib_decoded(data),
            Err(e) => e matches WorldHandlingError::CompressionError(name, _) && name@ == "Zlib"@,
        },
        Compression::LZ4 => (r is Ok <==> lz4_decodes(data)) && match r {
            Ok(v) => v@ == lz4_decoded(data),
            Err(e) => e matches WorldHandlingError::CompressionError(name, _) && name@ == "LZ4"@,
        },
        Compression::Custom => r matches Err(WorldHandlingError::CompressionError(name, _))
            && name@ == "Custom"@,
    }
}

impl Compression {
    /// Decompresses a chunk payload with this scheme.
    pub fn decompress_data(&self, compressed_data: Vec<u8>) -> (r: Result<Vec<u8>, WorldHandlingError>)
        ensures
            decompressed_as(*self, compressed_data@, r),
    {
        match self {
            Compression::GZip => match gunzip(&compressed_data) {
                Ok(v) => Ok(v),
                Err(kind) => Err(WorldHandlingError::CompressionError("Gzip".to_string(), kind)),
            },
            Compression::ZLib => match zlib_inflate(&compressed_data) {
                Ok(v) => Ok(v),
                Err(kind) => Err(WorldHandlingError::CompressionError("Zlib".to_string(), kind)),
            },
            Compression::Uncompressed => Ok(compressed_data),
            Compression::LZ4 => match lz4_decompress(&compressed_data) {
                Ok(v) => Ok(v),
                Err(kind) => Err(WorldHandlingError::CompressionError("LZ4".to_string(), kind)),
            },
            Compression::Custom => Err(
                WorldHandlingError::CompressionError("Custom".to_string(), kind_unsupported()),
            ),
        }
    }

    /// The scheme of a region file's compression byte; unknown bytes are refused.
    pub fn try_from(value: u8) -> (r: Result<Compression, WorldHandlingError>)
        ensures
            scheme_of(value) matches Some(c) ==> r == Ok::<Compression, WorldHandlingError>(c),
            scheme_of(value) is None ==> (r matches Err(
                WorldHandlingError::CompressionError(name, _),
            ) && name@ == "Unknown"@),
    {
        match value {
            1 => Ok(Self::GZip),
            2 => Ok(Self::ZLib),
            3 => Ok(Self::Uncompressed),
            4 => Ok(Self::LZ4),
            127 => Ok(Self::Custom),
            _ => Err(WorldHandlingError::CompressionError("Unknown".to_string(), kind_not_found())),
        }
    }
}

} // verus!
