//! Server packet headers of the realm connection.
//!
//! A server header is a big-endian size followed by a little-endian 16-bit
//! opcode. The size counts the opcode and the body. Its first byte carries,
//! in bit 7, a marker: when set, the size takes three bytes (and the header
//! five), and the marker bit is not part of the size; otherwise the size takes
//! two bytes (and the header four).
use vstd::prelude::*;

verus! {

/// Number of bytes of the opcode, counted in the declared size.
pub const OPCODE_SIZE: usize = 2;
/// Length of a header whose size takes two bytes.
pub const SHORT_SERVER_HEADER_SIZE: usize = 4;
/// Length of a header whose size takes three bytes.
pub const LONG_SERVER_HEADER_SIZE: usize = 5;
/// Bit 7 of the first header byte: "the size takes three bytes".
pub const LONG_PACKET_FLAG: u8 = 0x80;

/// Whether a first header byte carries the long-size marker.
pub open spec fn is_long_marker(first_byte: u8) -> bool {
    first_byte >= 0x80
}

/// Length of the header that starts with `first_byte`.
pub open spec fn spec_server_header_len(first_byte: u8) -> nat {
    if is_long_marker(first_byte) {
        5
    } else {
        4
    }
}

/// The size that a complete header declares (opcode and body), the marker bit
/// left out.
pub open spec fn spec_declared_size(header: Seq<u8>) -> nat {
    if is_long_marker(header[0]) {
        ((header[0] - 0x80) * 0x10000 + header[1] * 0x100 + header[2]) as nat
    } else {
        (header[0] * 0x100 + header[1]) as nat
    }
}

/// The opcode of a complete header: two little-endian bytes after the size.
pub open spec fn spec_header_opcode(header: Seq<u8>) -> u16 {
    let at: int = if is_long_marker(header[0]) { 3 } else { 2 };
    (header[at] + header[at + 1] * 0x100) as u16
}

/// Why a server header could not be decoded.
#[derive(Debug, Clone, Copy, PartialEq, Eq, Structural)]
pub enum HeaderError {
    /// Fewer than four bytes: not even a short header is there.
    Incomplete,
    /// The marker announces a long header and its fifth byte is not there.
    IncompleteLong,
    /// The declared size is too small to hold the opcode.
    InvalidSize(usize),
}

/// What decoding a header gives: the body size and the opcode, or the error.
pub open spec fn spec_decode_server_header(header: Seq<u8>) -> Result<(nat, u16), HeaderError> {
    if header.len() < 4 {
        Err(HeaderError::Incomplete)
    } else if header.len() < spec_server_header_len(header[0]) {
        Err(HeaderError::IncompleteLong)
    } else if spec_declared_size(header) < 2 {
        Err(HeaderError::InvalidSize(spec_declared_size(header) as usize))
    } else {
        Ok(((spec_declared_size(header) - 2) as nat, spec_header_opcode(header)))
    }
}

/// Length of the server header whose first byte is `first_byte`.
pub fn server_header_len(first_byte: u8) -> (len: usize)
    ensures
        len == spec_server_header_len(first_byte),
        len == 4 || len == 5,
{
    let marked = first_byte & LONG_PACKET_FLAG != 0;
    assert(marked == (first_byte >= 0x80)) by (bit_vector)
        requires
            marked == (first_byte & 0x80u8 != 0),
    ;
    if marked {
        LONG_SERVER_HEADER_SIZE
    } else {
        SHORT_SERVER_HEADER_SIZE
    }
}

/// Decodes a server header: the body size (the declared size less the
/// opcode) and the opcode.
pub fn decode_server_header(header: &[u8]) -> (res: Result<(usize, u16), HeaderError>)
    ensures
        match (res, spec_decode_server_header(header@)) {
            (Ok((body, opcode)), Ok((sbody, sopcode))) => body == sbody && opcode == sopcode,
            (Err(e), Err(se)) => e == se,
            _ => false,
        },
{
    if header.len() < SHORT_SERVER_HEADER_SIZE {
        return Err(HeaderError::Incomplete);
    }
    let first = header[0];
    let header_len = server_header_len(first);
    let is_long = header_len == LONG_SERVER_HEADER_SIZE;
    if header.len() < header_len {
        return Err(HeaderError::IncompleteLong);
    }
    let declared_size: usize = if is_long {
        let high = first & !LONG_PACKET_FLAG;
        assert(high == first - 0x80) by (bit_vector)
            requires
                high == first & !0x80u8,
                first >= 0x80,
        ;
        (high as usize) * 0x10000 + (header[1] as usize) * 0x100 + (header[2] as usize)
    } else {
        (first as usize) * 0x100 + (header[1] as usize)
    };
    if declared_size < OPCODE_SIZE {
        return Err(HeaderError::InvalidSize(declared_size));
    }
    let opcode_offset: usize = if is_long { 3 } else { 2 };
    let opcode: u16 = (header[opcode_offset] as u16) + (header[opcode_offset + 1] as u16) * 0x100;
    Ok((declared_size - OPCODE_SIZE, opcode))
}

} // verus!

verus! {

/// A short header (first byte below 0x80) declares its size in its first two
/// bytes, big-endian, and its opcode in the next two, little-endian: decoding
/// gives that size less the two opcode bytes, or the size error when it is
/// below two.
pub proof fn law_short_header_layout(header: Seq<u8>)
    requires
        header.len() >= 4,
        header[0] < 0x80,
    ensures
        header[0] * 256 + header[1] >= 2 ==> spec_decode_server_header(header) == Ok::<(nat, u16), HeaderError>(
            ((header[0] * 256 + header[1] - 2) as nat, (header[2] + header[3] * 256) as u16),
        ),
        header[0] * 256 + header[1] < 2 ==> spec_decode_server_header(header) == Err::<(nat, u16), HeaderError>(
            HeaderError::InvalidSize((header[0] * 256 + header[1]) as usize),
        ),
        spec_server_header_len(header[0]) == 4,
{
}

/// A long header (first byte 0x80 or above) declares its size in its first
/// three bytes, big-endian, the 0x80 bit of the first left out, and its opcode
/// in the next two, little-endian.
pub proof fn law_long_header_layout(header: Seq<u8>)
    requires
        header.len() >= 5,
        header[0] >= 0x80,
    ensures
        (header[0] - 128) * 65536 + header[1] * 256 + header[2] >= 2 ==> spec_decode_server_header(header)
            == Ok::<(nat, u16), HeaderError>(
            (((header[0] - 128) * 65536 + header[1] * 256 + header[2] - 2) as nat, (header[3] + header[4] * 256) as u16),
        ),
        (header[0] - 128) * 65536 + header[1] * 256 + header[2] < 2 ==> spec_decode_server_header(header) == Err::<
            (nat, u16),
            HeaderError,
        >(HeaderError::InvalidSize(((header[0] - 128) * 65536 + header[1] * 256 + header[2]) as usize)),
        spec_server_header_len(header[0]) == 5,
{
}

} // verus!
