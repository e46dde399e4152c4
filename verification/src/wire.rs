//! Reading the little-endian fields of a packet body.
use vstd::prelude::*;

verus! {

/// Why a packet body could not be read.
#[derive(Debug, Clone, Copy, PartialEq, Eq, Structural)]
pub enum ParseError {
    /// The body ends before a field that it must hold.
    UnexpectedEnd,
    /// A miss entry holds a miss condition that no variant stands for.
    InvalidMissInfo(u8),
}

/// A spec parse result: the value and the position after it, or the error.
pub type SpecParsed<T> = Result<(T, int), ParseError>;

/// Whether `res` is the value and position that `spec` gives.
pub open spec fn parsed_as<T>(res: Result<(T, usize), ParseError>, spec: SpecParsed<T>) -> bool {
    match (res, spec) {
        (Ok((v, p)), Ok((sv, sp))) => v == sv && p == sp,
        (Err(e), Err(se)) => e == se,
        _ => false,
    }
}

/// Whether `res` is a value whose view, and a position, are those that
/// `spec` gives.
pub open spec fn parsed_view<T: View>(res: Result<(T, usize), ParseError>, spec: SpecParsed<T::V>) -> bool {
    match (res, spec) {
        (Ok((v, p)), Ok((sv, sp))) => v@ == sv && p == sp,
        (Err(e), Err(se)) => e == se,
        _ => false,
    }
}

/// A value where `present`, read at `pos` as `parsed` says; nothing, and no
/// byte read, otherwise.
pub open spec fn spec_optional<T>(present: bool, pos: int, parsed: SpecParsed<T>) -> SpecParsed<Option<T>> {
    if !present {
        Ok((None, pos))
    } else {
        match parsed {
            Err(e) => Err(e),
            Ok((v, p)) => Ok((Some(v), p)),
        }
    }
}

/// The little-endian `u32` at `pos`.
pub open spec fn le_u32(s: Seq<u8>, pos: int) -> u32 {
    (s[pos] + s[pos + 1] * 0x100 + s[pos + 2] * 0x10000 + s[pos + 3] * 0x1000000) as u32
}

/// The little-endian `u64` at `pos`.
pub open spec fn le_u64(s: Seq<u8>, pos: int) -> u64 {
    (le_u32(s, pos) + le_u32(s, pos + 4) * 0x1_0000_0000) as u64
}

/// A byte.
pub open spec fn spec_u8(s: Seq<u8>, pos: int) -> SpecParsed<u8> {
    if 0 <= pos < s.len() {
        Ok((s[pos], pos + 1))
    } else {
        Err(ParseError::UnexpectedEnd)
    }
}

/// A little-endian `u32`.
pub open spec fn spec_u32(s: Seq<u8>, pos: int) -> SpecParsed<u32> {
    if 0 <= pos && pos + 4 <= s.len() {
        Ok((le_u32(s, pos), pos + 4))
    } else {
        Err(ParseError::UnexpectedEnd)
    }
}

/// A little-endian `u64`.
pub open spec fn spec_u64(s: Seq<u8>, pos: int) -> SpecParsed<u64> {
    if 0 <= pos && pos + 8 <= s.len() {
        Ok((le_u64(s, pos), pos + 8))
    } else {
        Err(ParseError::UnexpectedEnd)
    }
}

pub fn read_u8(data: &[u8], pos: usize) -> (res: Result<(u8, usize), ParseError>)
    ensures
        parsed_as(res, spec_u8(data@, pos as int)),
{
    if pos < data.len() {
        Ok((data[pos], pos + 1))
    } else {
        Err(ParseError::UnexpectedEnd)
    }
}

pub fn read_u32(data: &[u8], pos: usize) -> (res: Result<(u32, usize), ParseError>)
    ensures
        parsed_as(res, spec_u32(data@, pos as int)),
{
    if pos <= data.len() && 4 <= data.len() - pos {
        let v: u32 = (data[pos] as u32) + (data[pos + 1] as u32) * 0x100 + (data[pos + 2] as u32) * 0x10000
            + (data[pos + 3] as u32) * 0x1000000;
        Ok((v, pos + 4))
    } else {
        Err(ParseError::UnexpectedEnd)
    }
}

pub fn read_u64(data: &[u8], pos: usize) -> (res: Result<(u64, usize), ParseError>)
    ensures
        parsed_as(res, spec_u64(data@, pos as int)),
{
    if pos <= data.len() && 8 <= data.len() - pos {
        let (low, _) = read_u32(data, pos)?;
        let (high, _) = read_u32(data, pos + 4)?;
        Ok(((low as u64) + (high as u64) * 0x1_0000_0000, pos + 8))
    } else {
        Err(ParseError::UnexpectedEnd)
    }
}

/// A GUID as the packed form carries it.
#[derive(Debug, Clone, Copy, PartialEq, Eq, Structural)]
pub struct PackedGuid(pub u64);

/// The packed GUID bytes from bit `bit` of `mask` on: each set bit brings the
/// next byte, which is byte number `bit` of the GUID; `acc` holds the bytes
/// gathered so far.
pub open spec fn spec_packed_guid_bytes(s: Seq<u8>, pos: int, mask: u8, bit: u8, acc: u64) -> SpecParsed<u64>
    decreases 8 - bit,
{
    if bit >= 8 {
        Ok((acc, pos))
    } else if (mask >> bit) & 1 == 1 {
        if 0 <= pos < s.len() {
            spec_packed_guid_bytes(s, pos + 1, mask, (bit + 1) as u8, acc | ((s[pos] as u64) << ((8 * bit) as u64)))
        } else {
            Err(ParseError::UnexpectedEnd)
        }
    } else {
        spec_packed_guid_bytes(s, pos, mask, (bit + 1) as u8, acc)
    }
}

/// A packed GUID: a mask byte, then one byte of the GUID for each bit set in
/// the mask, lowest first; the bytes whose bit is clear are zero.
pub open spec fn spec_packed_guid(s: Seq<u8>, pos: int) -> SpecParsed<PackedGuid> {
    match spec_u8(s, pos) {
        Err(e) => Err(e),
        Ok((mask, p)) => match spec_packed_guid_bytes(s, p, mask, 0, 0) {
            Err(e) => Err(e),
            Ok((guid, q)) => Ok((PackedGuid(guid), q)),
        },
    }
}

pub fn read_packed_guid(data: &[u8], pos: usize) -> (res: Result<(PackedGuid, usize), ParseError>)
    ensures
        parsed_as(res, spec_packed_guid(data@, pos as int)),
{
    let (mask, start) = read_u8(data, pos)?;
    let mut p: usize = start;
    let mut bit: u8 = 0;
    let mut acc: u64 = 0;
    while bit < 8
        invariant
            bit <= 8,
            p <= data@.len(),
            spec_u8(data@, pos as int) == Ok::<(u8, int), ParseError>((mask, start as int)),
            spec_packed_guid_bytes(data@, start as int, mask, 0, 0) == spec_packed_guid_bytes(
                data@,
                p as int,
                mask,
                bit,
                acc,
            ),
        decreases 8 - bit,
    {
        if (mask >> bit) & 1 == 1 {
            if p < data.len() {
                acc = acc | ((data[p] as u64) << ((8 * bit) as u64));
                p = p + 1;
            } else {
                assert(spec_packed_guid_bytes(data@, p as int, mask, bit, acc) == Err::<(u64, int), ParseError>(
                    ParseError::UnexpectedEnd,
                ));
                return Err(ParseError::UnexpectedEnd);
            }
        }
        bit = bit + 1;
    }
    Ok((PackedGuid(acc), p))
}

/// A position, each coordinate an IEEE-754 single as its bit pattern.
#[derive(Debug, Clone, Copy, PartialEq, Eq, Structural)]
pub struct Position {
    pub x_bits: u32,
    pub y_bits: u32,
    pub z_bits: u32,
}

/// Three little-endian coordinates.
pub open spec fn spec_position(s: Seq<u8>, pos: int) -> SpecParsed<Position> {
    if 0 <= pos && pos + 12 <= s.len() {
        Ok((Position { x_bits: le_u32(s, pos), y_bits: le_u32(s, pos + 4), z_bits: le_u32(s, pos + 8) }, pos + 12))
    } else {
        Err(ParseError::UnexpectedEnd)
    }
}

pub fn read_position(data: &[u8], pos: usize) -> (res: Result<(Position, usize), ParseError>)
    ensures
        parsed_as(res, spec_position(data@, pos as int)),
{
    if pos <= data.len() && 12 <= data.len() - pos {
        let (x_bits, _) = read_u32(data, pos)?;
        let (y_bits, _) = read_u32(data, pos + 4)?;
        let (z_bits, _) = read_u32(data, pos + 8)?;
        Ok((Position { x_bits, y_bits, z_bits }, pos + 12))
    } else {
        Err(ParseError::UnexpectedEnd)
    }
}

/// The bytes of a zero-terminated string from `pos` on, after those already
/// in `acc`; the position given is past the terminator.
pub open spec fn spec_cstring_from(s: Seq<u8>, pos: int, acc: Seq<u8>) -> SpecParsed<Seq<u8>>
    decreases s.len() - pos,
{
    if pos < 0 || pos >= s.len() {
        Err(ParseError::UnexpectedEnd)
    } else if s[pos] == 0 {
        Ok((acc, pos + 1))
    } else {
        spec_cstring_from(s, pos + 1, acc.push(s[pos]))
    }
}

/// A zero-terminated string, the terminator left out.
pub open spec fn spec_cstring(s: Seq<u8>, pos: int) -> SpecParsed<Seq<u8>> {
    spec_cstring_from(s, pos, Seq::empty())
}

pub fn read_cstring(data: &[u8], pos: usize) -> (res: Result<(Vec<u8>, usize), ParseError>)
    ensures
        match (res, spec_cstring(data@, pos as int)) {
            (Ok((v, p)), Ok((sv, sp))) => v@ == sv && p == sp,
            (Err(e), Err(se)) => e == se,
            _ => false,
        },
{
    let mut out: Vec<u8> = Vec::new();
    let mut p: usize = pos;
    while p < data.len()
        invariant
            spec_cstring(data@, pos as int) == spec_cstring_from(data@, p as int, out@),
        decreases data.len() - p,
    {
        if data[p] == 0 {
            return Ok((out, p + 1));
        }
        out.push(data[p]);
        p = p + 1;
    }
    Err(ParseError::UnexpectedEnd)
}

/// The packed GUID bytes lie within the buffer, from `pos` on.
pub proof fn lemma_packed_guid_bytes_bounds(s: Seq<u8>, pos: int, mask: u8, bit: u8, acc: u64)
    requires
        0 <= pos <= s.len(),
    ensures
        spec_packed_guid_bytes(s, pos, mask, bit, acc) is Ok ==> {
            let p = spec_packed_guid_bytes(s, pos, mask, bit, acc)->Ok_0.1;
            pos <= p <= s.len()
        },
        spec_packed_guid_bytes(s, pos, mask, bit, acc) is Err ==> spec_packed_guid_bytes(s, pos, mask, bit, acc)
            == Err::<(u64, int), ParseError>(ParseError::UnexpectedEnd),
    decreases 8 - bit,
{
    if bit < 8 {
        if (mask >> bit) & 1 == 1 {
            if 0 <= pos < s.len() {
                lemma_packed_guid_bytes_bounds(
                    s,
                    pos + 1,
                    mask,
                    (bit + 1) as u8,
                    acc | ((s[pos] as u64) << ((8 * bit) as u64)),
                );
            }
        } else {
            lemma_packed_guid_bytes_bounds(s, pos, mask, (bit + 1) as u8, acc);
        }
    }
}

/// A packed GUID takes at least its mask byte, and lies within the buffer;
/// the only way it fails is by running out of bytes.
pub proof fn lemma_packed_guid_bounds(s: Seq<u8>, pos: int)
    ensures
        spec_packed_guid(s, pos) is Ok ==> 0 <= pos < spec_packed_guid(s, pos)->Ok_0.1 <= s.len(),
        spec_packed_guid(s, pos) is Err ==> spec_packed_guid(s, pos) == Err::<(PackedGuid, int), ParseError>(
            ParseError::UnexpectedEnd,
        ),
{
    if 0 <= pos < s.len() {
        lemma_packed_guid_bytes_bounds(s, pos + 1, s[pos], 0, 0);
    }
}

/// A zero-terminated string lies within the buffer and takes at least its
/// terminator; the only way it fails is by running out of bytes.
pub proof fn lemma_cstring_bounds(s: Seq<u8>, pos: int, acc: Seq<u8>)
    ensures
        spec_cstring_from(s, pos, acc) is Ok ==> 0 <= pos < spec_cstring_from(s, pos, acc)->Ok_0.1 <= s.len(),
        spec_cstring_from(s, pos, acc) is Err ==> spec_cstring_from(s, pos, acc) == Err::<(Seq<u8>, int), ParseError>(
            ParseError::UnexpectedEnd,
        ),
    decreases s.len() - pos,
{
    if 0 <= pos < s.len() && s[pos] != 0 {
        lemma_cstring_bounds(s, pos + 1, acc.push(s[pos]));
    }
}

/// Multi-byte fields are little-endian: the first byte is the least
/// significant.
pub proof fn law_little_endian(s: Seq<u8>, pos: int)
    requires
        0 <= pos,
        pos + 8 <= s.len(),
    ensures
        le_u32(s, pos) == s[pos] + s[pos + 1] * 256 + s[pos + 2] * 65536 + s[pos + 3] * 16777216,
        le_u64(s, pos) == s[pos] + s[pos + 1] * 256 + s[pos + 2] * 65536 + s[pos + 3] * 16777216 + s[pos + 4]
            * 4294967296 + s[pos + 5] * 1099511627776 + s[pos + 6] * 281474976710656 + s[pos + 7]
            * 72057594037927936,
        spec_u32(s, pos) == Ok::<(u32, int), ParseError>((le_u32(s, pos), pos + 4)),
        spec_u64(s, pos) == Ok::<(u64, int), ParseError>((le_u64(s, pos), pos + 8)),
        spec_u8(s, pos) == Ok::<(u8, int), ParseError>((s[pos], pos + 1)),
{
}

/// Byte `k` of a GUID, the least significant being byte 0.
pub open spec fn guid_byte(g: u64, k: nat) -> u64 {
    (g >> ((8 * k) as u64)) & 0xff
}

/// Whether bit `k` of `mask` is set.
pub open spec fn mask_bit(mask: u8, k: nat) -> bool {
    (mask >> (k as u8)) & 1 == 1
}

/// How many bits of `mask` below bit `k` are set.
pub open spec fn bits_below(mask: u8, k: nat) -> nat
    decreases k,
{
    if k == 0 {
        0
    } else {
        bits_below(mask, (k - 1) as nat) + if mask_bit(mask, (k - 1) as nat) { 1nat } else { 0nat }
    }
}

proof fn lemma_bits_below_grows(mask: u8, a: nat, b: nat)
    requires
        a <= b,
    ensures
        bits_below(mask, a) <= bits_below(mask, b),
        a < b && mask_bit(mask, a) ==> bits_below(mask, a) < bits_below(mask, b),
    decreases b - a,
{
    if a < b {
        lemma_bits_below_grows(mask, a, (b - 1) as nat);
    }
}

proof fn lemma_or_byte(acc: u64, b: u8, sh: u64, sj: u64)
    requires
        sh < 64,
        sj < 64,
        sh % 8 == 0,
        sj % 8 == 0,
        (acc >> sh) & 0xff == 0,
    ensures
        ((acc | ((b as u64) << sh)) >> sj) & 0xff == (if sj == sh { b as u64 } else { (acc >> sj) & 0xff }),
{
    assert(((acc | ((b as u64) << sh)) >> sj) & 0xff == (if sj == sh { b as u64 } else { (acc >> sj) & 0xff }))
        by (bit_vector)
        requires
            sh < 64,
            sj < 64,
            sh % 8 == 0,
            sj % 8 == 0,
            (acc >> sh) & 0xff == 0,
    ;
}

proof fn lemma_packed_guid_bytes_layout(s: Seq<u8>, pos: int, mask: u8, bit: u8, acc: u64)
    requires
        0 <= pos,
        bit <= 8,
        pos + 1 + bits_below(mask, bit as nat) <= s.len(),
        forall|j: nat|
            j < 8 ==> #[trigger] guid_byte(acc, j) == if j < bit && mask_bit(mask, j) {
                s[pos + 1 + bits_below(mask, j)] as u64
            } else {
                0u64
            },
    ensures
        ({
            let r = spec_packed_guid_bytes(s, pos + 1 + bits_below(mask, bit as nat), mask, bit, acc);
            &&& r is Ok <==> pos + 1 + bits_below(mask, 8) <= s.len()
            &&& r is Ok ==> {
                &&& r->Ok_0.1 == pos + 1 + bits_below(mask, 8)
                &&& forall|j: nat|
                    j < 8 ==> #[trigger] guid_byte(r->Ok_0.0, j) == if mask_bit(mask, j) {
                        s[pos + 1 + bits_below(mask, j)] as u64
                    } else {
                        0u64
                    }
            }
        }),
    decreases 8 - bit,
{
    let p = pos + 1 + bits_below(mask, bit as nat);
    lemma_bits_below_grows(mask, bit as nat, 8);
    if bit < 8 {
        assert(mask_bit(mask, bit as nat) == ((mask >> bit) & 1 == 1));
        assert(bits_below(mask, (bit + 1) as nat) == bits_below(mask, bit as nat) + if mask_bit(mask, bit as nat) {
            1nat
        } else {
            0nat
        });
        if (mask >> bit) & 1 == 1 {
            if p < s.len() {
                let next = acc | ((s[p] as u64) << ((8 * bit) as u64));
                assert forall|j: nat| j < 8 implies #[trigger] guid_byte(next, j) == if j < bit + 1 && mask_bit(mask, j) {
                    s[pos + 1 + bits_below(mask, j)] as u64
                } else {
                    0u64
                } by {
                    assert(guid_byte(acc, bit as nat) == 0u64);
                    let old_byte = guid_byte(acc, j);
                    lemma_or_byte(acc, s[p], (8 * bit) as u64, (8 * j) as u64);
                    assert(guid_byte(next, j) == if j == bit { s[p] as u64 } else { old_byte });
                }
                lemma_packed_guid_bytes_layout(s, pos, mask, (bit + 1) as u8, next);
            } else {
                lemma_bits_below_grows(mask, bit as nat, 8);
            }
        } else {
            assert forall|j: nat| j < 8 implies #[trigger] guid_byte(acc, j) == if j < bit + 1 && mask_bit(mask, j) {
                s[pos + 1 + bits_below(mask, j)] as u64
            } else {
                0u64
            } by {
                assert(guid_byte(acc, j) == if j < bit && mask_bit(mask, j) {
                    s[pos + 1 + bits_below(mask, j)] as u64
                } else {
                    0u64
                });
            }
            lemma_packed_guid_bytes_layout(s, pos, mask, (bit + 1) as u8, acc);
        }
    }
}

/// A packed GUID: byte `k` of the GUID is the byte after the mask's that
/// comes after as many present bytes as the mask has bits set below `k`, when
/// bit `k` of the mask is set, and zero otherwise; it takes the mask byte and
/// one byte per bit set, and is read exactly when those are there.
pub proof fn law_packed_guid_layout(s: Seq<u8>, pos: int)
    requires
        0 <= pos < s.len(),
    ensures
        ({
            let mask = s[pos];
            let r = spec_packed_guid(s, pos);
            &&& r is Ok <==> pos + 1 + bits_below(mask, 8) <= s.len()
            &&& r is Ok ==> {
                &&& r->Ok_0.1 == pos + 1 + bits_below(mask, 8)
                &&& forall|k: nat|
                    k < 8 ==> #[trigger] guid_byte(r->Ok_0.0.0, k) == if mask_bit(mask, k) {
                        s[pos + 1 + bits_below(mask, k)] as u64
                    } else {
                        0u64
                    }
            }
        }),
{
    assert forall|j: nat| j < 8 implies #[trigger] guid_byte(0u64, j) == 0u64 by {
        let sj = (8 * j) as u64;
        assert((0u64 >> sj) & 0xff == 0) by (bit_vector);
    }
    lemma_packed_guid_bytes_layout(s, pos, s[pos], 0, 0);
}

} // verus!
