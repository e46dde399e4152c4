//! Framing of the realm connection: reading server packets out of the bytes
//! received so far, and writing client packets.
use vstd::prelude::*;
use crate::crypt::{Decryptor, Encryptor, header_cipher_state, server_decryption_seed, server_encryption_seed};
use crate::header::{HeaderError, law_long_header_layout, law_short_header_layout, decode_server_header, server_header_len, spec_decode_server_header, spec_server_header_len};
use crate::opcodes::{OpcodeNames, spec_opcode_name_or_default};
use crate::packet::{Packet, PacketOpcode, PacketType};
use crate::rc4::{Rc4State, advance, keystream, xor_from, law_keystream_roundtrip, lemma_advance_add, lemma_keystream_add, lemma_keystream_len};

verus! {

/// Why no packet could be read from the buffer. All but `InvalidSize` and
/// `SizeOverflow` mean that more bytes are needed.
#[derive(Debug, Clone, Copy, PartialEq, Eq, Structural)]
pub enum ReadError {
    /// Fewer than four bytes.
    IncompleteHeader,
    /// A long header whose fifth byte has not arrived.
    IncompleteLongHeader,
    /// The header declares a size too small to hold the opcode.
    InvalidSize(usize),
    /// Header and body together do not fit in a `usize`.
    SizeOverflow,
    /// The body has not arrived in full.
    IncompleteBody,
}

/// The state of a reader: the decryption cipher, once there is one, and how
/// many bytes at the start of the buffer are already decrypted.
pub struct ReaderModel {
    pub cipher: Option<Rc4State>,
    pub decrypted: nat,
}

/// A packet as read: its opcode, its size on the wire and its body.
pub struct PacketModel {
    pub opcode: u16,
    pub size: nat,
    pub body: Seq<u8>,
}

/// What one call of `read` leaves: the reader state, the buffer (whose header
/// bytes may have been decrypted in place) and the result.
pub struct ReadOutcome {
    pub model: ReaderModel,
    pub buffer: Seq<u8>,
    pub result: Result<PacketModel, ReadError>,
}

/// The view of an optional byte slice.
pub open spec fn opt_bytes(secret: Option<&[u8]>) -> Option<Seq<u8>> {
    match secret {
        Some(s) => Some(s@),
        None => None,
    }
}

/// Header decryption: with a cipher, the first byte is decrypted unless it
/// already is; then, if the whole header has arrived, the rest of it. Gives
/// the new state, the buffer, and whether the whole header is there.
pub open spec fn decrypt_header_phase(m: ReaderModel, buf: Seq<u8>) -> (ReaderModel, Seq<u8>, bool) {
    match m.cipher {
        None => (m, buf, true),
        Some(c) => {
            let c1 = if m.decrypted == 0 { advance(c, 1) } else { c };
            let d1: nat = if m.decrypted == 0 { 1 } else { m.decrypted };
            let b1 = if m.decrypted == 0 { xor_from(buf, 0, keystream(c, 1)) } else { buf };
            let hl = spec_server_header_len(b1[0]);
            if b1.len() < hl {
                (ReaderModel { cipher: Some(c1), decrypted: d1 }, b1, false)
            } else if d1 < hl {
                (
                    ReaderModel { cipher: Some(advance(c1, (hl - d1) as nat)), decrypted: hl },
                    xor_from(b1, d1 as int, keystream(c1, (hl - d1) as nat)),
                    true,
                )
            } else {
                (ReaderModel { cipher: Some(c1), decrypted: d1 }, b1, true)
            }
        },
    }
}

/// What `read` does once the header phase has left the state `m1` and the
/// buffer `b1`, `whole` telling whether the whole header is there.
pub open spec fn finish_read(m1: ReaderModel, b1: Seq<u8>, whole: bool, secret: Option<Seq<u8>>) -> ReadOutcome {
    let hl = spec_server_header_len(b1[0]);
    if !whole || b1.len() < hl {
        ReadOutcome { model: m1, buffer: b1, result: Err(ReadError::IncompleteLongHeader) }
    } else {
        match spec_decode_server_header(b1.take(hl as int)) {
            Err(HeaderError::InvalidSize(n)) => ReadOutcome {
                model: m1,
                buffer: b1,
                result: Err(ReadError::InvalidSize(n)),
            },
            Err(_) => ReadOutcome { model: m1, buffer: b1, result: Err(ReadError::IncompleteLongHeader) },
            Ok((body_size, opcode)) => {
                let size = hl + body_size;
                if size > usize::MAX {
                    ReadOutcome { model: m1, buffer: b1, result: Err(ReadError::SizeOverflow) }
                } else if b1.len() < size {
                    ReadOutcome { model: m1, buffer: b1, result: Err(ReadError::IncompleteBody) }
                } else {
                    let cipher = match (m1.cipher, secret) {
                        (None, Some(s)) => Some(header_cipher_state(server_encryption_seed(), s)),
                        _ => m1.cipher,
                    };
                    ReadOutcome {
                        model: ReaderModel { cipher, decrypted: 0 },
                        buffer: b1,
                        result: Ok(PacketModel {
                            opcode,
                            size: size as nat,
                            body: b1.subrange(hl as int, size as int),
                        }),
                    }
                }
            },
        }
    }
}

/// One call of `read` on a reader in state `m`, with the bytes received so
/// far in `buf` and the session secret, if the session has one yet.
pub open spec fn spec_read(m: ReaderModel, buf: Seq<u8>, secret: Option<Seq<u8>>) -> ReadOutcome {
    if buf.len() < 4 {
        ReadOutcome { model: m, buffer: buf, result: Err(ReadError::IncompleteHeader) }
    } else {
        let (m1, b1, whole) = decrypt_header_phase(m, buf);
        finish_read(m1, b1, whole, secret)
    }
}

/// Whether `res` is the packet or the error that `spec` describes, the
/// packet named as the table `names` names its opcode (the empty name where
/// the table has none).
pub open spec fn read_result_is(
    res: Result<Packet, ReadError>,
    spec: Result<PacketModel, ReadError>,
    names: Seq<(u32, Seq<char>)>,
) -> bool {
    match (res, spec) {
        (Ok(p), Ok(sp)) => {
            &&& p.packet_type == PacketType::Incoming
            &&& p.opcode == PacketOpcode::U16(sp.opcode)
            &&& p.packet_name@ == spec_opcode_name_or_default(names, sp.opcode as u32)
            &&& p.packet_size == sp.size
            &&& p.body@ == sp.body
        },
        (Err(e), Err(se)) => e == se,
        _ => false,
    }
}

/// Combining bytes up to `k` and then appending the rest is combining the
/// whole, when the combined bytes all lie before `k`.
proof fn lemma_xor_prefix(raw: Seq<u8>, k: int, start: int, ks: Seq<u8>)
    requires
        0 <= start,
        start + ks.len() <= k <= raw.len(),
    ensures
        xor_from(raw.take(k), start, ks) + raw.skip(k) == xor_from(raw, start, ks),
{
    assert(xor_from(raw.take(k), start, ks) + raw.skip(k) =~= xor_from(raw, start, ks));
}

/// The header phase on a prefix, followed by the header phase on what it
/// left grown by the rest of the bytes, is the header phase on all bytes.
proof fn lemma_phase_resumes(m: ReaderModel, raw: Seq<u8>, k: int)
    requires
        4 <= k <= raw.len(),
    ensures
        ({
            let (m1, b1, w) = decrypt_header_phase(m, raw.take(k));
            let (m2, b2, w2) = decrypt_header_phase(m1, b1 + raw.skip(k));
            let (m3, b3, w3) = decrypt_header_phase(m, raw);
            m2 == m3 && b2 == b3 && w2 == w3 && b1.len() == k
        }),
{
    let part = raw.take(k);
    match m.cipher {
        None => {
            assert(part + raw.skip(k) =~= raw);
        },
        Some(c) => {
            lemma_keystream_len(c, 1);
            let c1 = if m.decrypted == 0 { advance(c, 1) } else { c };
            let d1: nat = if m.decrypted == 0 { 1 } else { m.decrypted };
            let b0 = if m.decrypted == 0 { xor_from(part, 0, keystream(c, 1)) } else { part };
            let w0 = if m.decrypted == 0 { xor_from(raw, 0, keystream(c, 1)) } else { raw };
            if m.decrypted == 0 {
                lemma_xor_prefix(raw, k, 0, keystream(c, 1));
            } else {
                assert(part + raw.skip(k) =~= raw);
            }
            assert(b0 + raw.skip(k) == w0);
            assert(w0[0] == b0[0]);
            let hl = spec_server_header_len(b0[0]);
            if b0.len() < hl {
            } else if d1 < hl {
                let ks = keystream(c1, (hl - d1) as nat);
                lemma_keystream_len(c1, (hl - d1) as nat);
                lemma_xor_prefix(raw, k, 0, Seq::empty());
                let b1 = xor_from(b0, d1 as int, ks);
                let w1 = xor_from(w0, d1 as int, ks);
                assert(b0.take(k) =~= b0);
                assert(w0.take(k) =~= b0);
                assert(w0.skip(k) =~= raw.skip(k));
                lemma_xor_prefix(w0, k, d1 as int, ks);
                assert(b1 + raw.skip(k) == w1);
                assert(w1[0] == b1[0]);
            } else {
            }
        },
    }
}

/// A read that fails leaves the state and buffer that the header phase left.
proof fn lemma_failed_read_keeps_phase(m: ReaderModel, buf: Seq<u8>, secret: Option<Seq<u8>>)
    requires
        buf.len() >= 4,
        spec_read(m, buf, secret).result is Err,
    ensures
        ({
            let (m1, b1, w) = decrypt_header_phase(m, buf);
            spec_read(m, buf, secret).model == m1 && spec_read(m, buf, secret).buffer == b1
        }),
{
}

/// Reading a packet in pieces is reading it whole. When a read of the first
/// `k` bytes received fails, a read by the reader it leaves, of the buffer it
/// leaves grown by the bytes received after, gives what one read of all the
/// bytes would have given: the same packet or error, the same buffer and the
/// same state. So header bytes are decrypted once, however many reads it
/// takes for the packet to arrive.
pub proof fn law_read_resumes(m: ReaderModel, raw: Seq<u8>, k: nat, secret: Option<Seq<u8>>)
    requires
        k <= raw.len(),
        spec_read(m, raw.take(k as int), secret).result is Err,
    ensures
        ({
            let first = spec_read(m, raw.take(k as int), secret);
            spec_read(first.model, first.buffer + raw.skip(k as int), secret) == spec_read(m, raw, secret)
        }),
{
    let part = raw.take(k as int);
    if k < 4 {
        assert(part + raw.skip(k as int) =~= raw);
    } else {
        lemma_phase_resumes(m, raw, k as int);
        lemma_failed_read_keeps_phase(m, part, secret);
    }
}

/// A packet read from its start consumes exactly its header's worth of
/// keystream: the header, and nothing else, is decrypted, and the cipher
/// ends as many steps on as the header has bytes.
pub proof fn law_read_consumes_header(m: ReaderModel, buf: Seq<u8>, secret: Option<Seq<u8>>)
    requires
        m.cipher is Some,
        m.decrypted == 0,
        spec_read(m, buf, secret).result is Ok,
    ensures
        ({
            let out = spec_read(m, buf, secret);
            let c = m.cipher->Some_0;
            let hl = spec_server_header_len(out.buffer[0]);
            &&& out.model.cipher == Some(advance(c, hl))
            &&& out.model.decrypted == 0
            &&& out.buffer == xor_from(buf, 0, keystream(c, hl))
        }),
{
    let c = m.cipher->Some_0;
    let b0 = xor_from(buf, 0, keystream(c, 1));
    lemma_keystream_len(c, 1);
    let hl = spec_server_header_len(b0[0]);
    let c1 = advance(c, 1);
    lemma_advance_add(c, 1, (hl - 1) as nat);
    lemma_keystream_add(c, 1, (hl - 1) as nat);
    lemma_keystream_len(c, hl);
    lemma_keystream_len(c1, (hl - 1) as nat);
    let b1 = xor_from(b0, 1, keystream(c1, (hl - 1) as nat));
    assert(b1 =~= xor_from(buf, 0, keystream(c, hl)));
    assert(b1[0] == b0[0]);
}

/// A reader without a cipher reads a packet with a short header (first byte
/// below 0x80) once the buffer holds it whole: the size is the first two
/// bytes big-endian, the opcode the next two little-endian, the packet takes
/// two bytes more than that size, its body is what follows the four header
/// bytes, and the buffer is left as it was.
pub proof fn law_clear_short_packet(m: ReaderModel, buf: Seq<u8>, secret: Option<Seq<u8>>)
    requires
        m.cipher is None,
        buf.len() >= 4,
        buf[0] < 0x80,
        buf[0] * 256 + buf[1] >= 2,
        buf.len() >= buf[0] * 256 + buf[1] + 2,
    ensures
        ({
            let out = spec_read(m, buf, secret);
            let size: int = buf[0] * 256 + buf[1];
            &&& out.buffer == buf
            &&& out.result is Ok
            &&& out.result->Ok_0.opcode == (buf[2] + buf[3] * 256) as u16
            &&& out.result->Ok_0.size == size + 2
            &&& out.result->Ok_0.body == buf.subrange(4, size + 2)
        }),
{
    law_short_header_layout(buf.take(4));
}

/// The same for a long header (first byte 0x80 or above): the size is the
/// first three bytes big-endian, the 0x80 bit left out, the opcode the next
/// two little-endian, and the body follows the five header bytes.
pub proof fn law_clear_long_packet(m: ReaderModel, buf: Seq<u8>, secret: Option<Seq<u8>>)
    requires
        m.cipher is None,
        buf.len() >= 5,
        buf[0] >= 0x80,
        (buf[0] - 128) * 65536 + buf[1] * 256 + buf[2] >= 2,
        buf.len() >= (buf[0] - 128) * 65536 + buf[1] * 256 + buf[2] + 3,
    ensures
        ({
            let out = spec_read(m, buf, secret);
            let size: int = (buf[0] - 128) * 65536 + buf[1] * 256 + buf[2];
            &&& out.buffer == buf
            &&& out.result is Ok
            &&& out.result->Ok_0.opcode == (buf[3] + buf[4] * 256) as u16
            &&& out.result->Ok_0.size == size + 3
            &&& out.result->Ok_0.body == buf.subrange(5, size + 3)
        }),
{
    law_long_header_layout(buf.take(5));
}

/// The states a reader can reach: the count of decrypted header bytes is 0,
/// 1 (the marker byte alone), 4 or 5 (a whole header), and it is 0 while there
/// is no cipher.
pub open spec fn reader_state_ok(m: ReaderModel) -> bool {
    &&& m.decrypted == 0 || m.decrypted == 1 || m.decrypted == 4 || m.decrypted == 5
    &&& m.cipher is None ==> m.decrypted == 0
}

/// Every call of `read` keeps a reader in the states it can reach, and a call
/// that gives a packet leaves no header byte counted as decrypted. With
/// `PacketReader::new`, which starts in such a state, this holds of every
/// reader after any sequence of reads, whatever the buffers and secrets.
pub proof fn law_reader_state_kept(m: ReaderModel, buf: Seq<u8>, secret: Option<Seq<u8>>)
    requires
        reader_state_ok(m),
    ensures
        reader_state_ok(spec_read(m, buf, secret).model),
        spec_read(m, buf, secret).result is Ok ==> spec_read(m, buf, secret).model.decrypted == 0,
{
}

/// Reads server packets. Until the session has a secret the headers arrive
/// in clear; from the packet after the one read while the secret is known,
/// they are decrypted.
pub struct PacketReader {
    decryptor: Option<Decryptor>,
    // How many bytes at the start of the buffer are already decrypted for the
    // current header. The buffer is handed in again while the body arrives,
    // so this must survive those calls: the keystream is consumed once per
    // header byte.
    decrypted_header_bytes: usize,
}

impl View for PacketReader {
    type V = ReaderModel;

    closed spec fn view(&self) -> ReaderModel {
        ReaderModel {
            cipher: match self.decryptor {
                Some(d) => Some(d@),
                None => None,
            },
            decrypted: self.decrypted_header_bytes as nat,
        }
    }
}

fn copy_range(buffer: &[u8], start: usize, end: usize) -> (out: Vec<u8>)
    requires
        start <= end <= buffer@.len(),
    ensures
        out@ == buffer@.subrange(start as int, end as int),
{
    let mut out: Vec<u8> = Vec::new();
    let mut k: usize = start;
    while k < end
        invariant
            start <= k <= end <= buffer@.len(),
            out@ == buffer@.subrange(start as int, k as int),
        decreases end - k,
    {
        out.push(buffer[k]);
        k = k + 1;
        assert(out@ =~= buffer@.subrange(start as int, k as int));
    }
    out
}

impl Default for PacketReader {
    /// A reader for a session without a secret yet.
    fn default() -> (r: Self)
        ensures
            r@.cipher is None,
            r@.decrypted == 0,
    {
        PacketReader::new()
    }
}

impl PacketReader {
    /// A reader for a session without a secret yet.
    pub fn new() -> (r: Self)
        ensures
            r@.cipher is None,
            r@.decrypted == 0,
            reader_state_ok(r@),
    {
        PacketReader { decryptor: None, decrypted_header_bytes: 0 }
    }

    /// Reads the packet at the start of `buffer`, the bytes received so far.
    /// Header bytes are decrypted in place, so that a later call with the
    /// same buffer, grown, goes on where this one stopped. `secret` is the
    /// session secret, once there is one: after the first packet read while
    /// it is known, headers are decrypted. The packet is named from `names`.
    pub fn read(&mut self, buffer: &mut [u8], secret: Option<&[u8]>, names: &OpcodeNames) -> (res: Result<
        Packet,
        ReadError,
    >)
        ensures
            final(self)@ == spec_read(old(self)@, old(buffer)@, opt_bytes(secret)).model,
            final(buffer)@ == spec_read(old(self)@, old(buffer)@, opt_bytes(secret)).buffer,
            read_result_is(res, spec_read(old(self)@, old(buffer)@, opt_bytes(secret)).result, names@),
    {
        let ghost m0 = self@;
        let ghost buf0 = buffer@;
        if buffer.len() < 4 {
            return Err(ReadError::IncompleteHeader);
        }
        match self.decryptor.as_mut() {
            Some(decryptor) => {
                if self.decrypted_header_bytes == 0 {
                    // Decrypt the marker byte alone first: if the header is
                    // long and its fifth byte has not arrived, this byte stays
                    // decrypted and the count remembers it.
                    decryptor.decrypt(buffer, 0, 1);
                    self.decrypted_header_bytes = 1;
                }
                let header_len = server_header_len(buffer[0]);
                if buffer.len() < header_len {
                    return Err(ReadError::IncompleteLongHeader);
                }
                if self.decrypted_header_bytes < header_len {
                    decryptor.decrypt(buffer, self.decrypted_header_bytes, header_len);
                    self.decrypted_header_bytes = header_len;
                }
            },
            None => {},
        }
        let header_len = server_header_len(buffer[0]);
        if buffer.len() < header_len {
            return Err(ReadError::IncompleteLongHeader);
        }
        let header = copy_range(buffer, 0, header_len);
        let (body_size, opcode) = match decode_server_header(header.as_slice()) {
            Ok(decoded) => decoded,
            Err(HeaderError::InvalidSize(n)) => {
                return Err(ReadError::InvalidSize(n));
            },
            Err(_) => {
                return Err(ReadError::IncompleteLongHeader);
            },
        };
        let packet_size = match header_len.checked_add(body_size) {
            Some(n) => n,
            None => {
                return Err(ReadError::SizeOverflow);
            },
        };
        if buffer.len() < packet_size {
            return Err(ReadError::IncompleteBody);
        }
        let body = copy_range(buffer, header_len, packet_size);
        if self.decryptor.is_none() {
            if let Some(s) = secret {
                self.decryptor = Some(Decryptor::new(s));
            }
        }
        self.decrypted_header_bytes = 0;
        let packet_name = match names.get_opcode_name(opcode as u32) {
            Some(name) => name,
            None => String::new(),
        };
        Ok(
            Packet {
                packet_type: PacketType::Incoming,
                opcode: PacketOpcode::U16(opcode),
                packet_name,
                packet_size,
                body,
            },
        )
    }
}

} // verus!

verus! {

/// Why a packet could not be written.
#[derive(Debug, Clone, Copy, PartialEq, Eq, Structural)]
pub enum SerializeError {
    /// Client packets carry 32-bit opcodes; this one has another kind.
    WrongOpcodeType,
}

/// Length of a client header: a two-byte size and a four-byte opcode.
pub const CLIENT_HEADER_SIZE: usize = 6;

/// The size that a client header declares for a body of `body_len` bytes:
/// the four opcode bytes and the body, truncated to 16 bits.
pub open spec fn client_packet_size(body_len: nat) -> u16 {
    ((4 + body_len) % 0x10000) as u16
}

/// A client header in clear: the size big-endian, the opcode little-endian.
pub open spec fn client_header(size: u16, opcode: u32) -> Seq<u8> {
    seq![
        (size / 0x100) as u8,
        (size % 0x100) as u8,
        (opcode % 0x100) as u8,
        ((opcode / 0x100) % 0x100) as u8,
        ((opcode / 0x10000) % 0x100) as u8,
        (opcode / 0x1000000) as u8,
    ]
}

/// What one call of `serialize` leaves: the encryption cipher and the bytes
/// to send, or the error.
pub struct SerializeOutcome {
    pub cipher: Option<Rc4State>,
    pub result: Result<Seq<u8>, SerializeError>,
}

/// One call of `serialize` with encryption cipher `cipher`, on a packet with
/// `opcode` and `body`, and the session secret if the session has one.
pub open spec fn spec_serialize(
    cipher: Option<Rc4State>,
    opcode: PacketOpcode,
    body: Seq<u8>,
    secret: Option<Seq<u8>>,
) -> SerializeOutcome {
    match opcode {
        PacketOpcode::U32(op) => {
            let header = client_header(client_packet_size(body.len()), op);
            let sent_header = match cipher {
                Some(c) => xor_from(header, 0, keystream(c, 6)),
                None => header,
            };
            let next = match (cipher, secret) {
                (Some(c), _) => Some(advance(c, 6)),
                (None, Some(s)) => Some(header_cipher_state(server_decryption_seed(), s)),
                (None, None) => None,
            };
            SerializeOutcome { cipher: next, result: Ok(sent_header + body) }
        },
        PacketOpcode::U16(_) => SerializeOutcome { cipher, result: Err(SerializeError::WrongOpcodeType) },
    }
}

/// Writes client packets. Until the session has a secret the headers go out
/// in clear; from the packet after the one written while the secret is
/// known, they are encrypted.
pub struct PacketSerializer {
    encryptor: Option<Encryptor>,
}

impl View for PacketSerializer {
    type V = Option<Rc4State>;

    closed spec fn view(&self) -> Option<Rc4State> {
        match self.encryptor {
            Some(e) => Some(e@),
            None => None,
        }
    }
}

impl Default for PacketSerializer {
    /// A writer for a session without a secret yet.
    fn default() -> (w: Self)
        ensures
            w@ is None,
    {
        PacketSerializer::new()
    }
}

impl PacketSerializer {
    /// A writer for a session without a secret yet.
    pub fn new() -> (w: Self)
        ensures
            w@ is None,
    {
        PacketSerializer { encryptor: None }
    }

    /// The bytes to send for `packet`: its header, encrypted once the
    /// session cipher exists, and its body.
    pub fn serialize(&mut self, packet: &Packet, secret: Option<&[u8]>) -> (res: Result<Vec<u8>, SerializeError>)
        ensures
            final(self)@ == spec_serialize(old(self)@, packet.opcode, packet.body@, opt_bytes(secret)).cipher,
            match (res, spec_serialize(old(self)@, packet.opcode, packet.body@, opt_bytes(secret)).result) {
                (Ok(bytes), Ok(expected)) => bytes@ == expected,
                (Err(e), Err(expected)) => e == expected,
                _ => false,
            },
    {
        let opcode = match packet.opcode {
            PacketOpcode::U32(opcode) => opcode,
            PacketOpcode::U16(_) => {
                return Err(SerializeError::WrongOpcodeType);
            },
        };
        let body_len = packet.body.len();
        let low: u32 = (body_len % 0x10000) as u32;
        let size: u16 = ((low + 4) % 0x10000) as u16;
        assert(size == client_packet_size(body_len as nat)) by (nonlinear_arith)
            requires
                low == body_len % 0x10000,
                size == (low + 4) % 0x10000,
        ;
        let mut buffer: Vec<u8> = Vec::new();
        buffer.push((size / 0x100) as u8);
        buffer.push((size % 0x100) as u8);
        buffer.push((opcode % 0x100) as u8);
        buffer.push(((opcode / 0x100) % 0x100) as u8);
        buffer.push(((opcode / 0x10000) % 0x100) as u8);
        buffer.push((opcode / 0x1000000) as u8);
        assert(buffer@ =~= client_header(size, opcode));
        match self.encryptor.as_mut() {
            Some(encryptor) => {
                encryptor.encrypt(buffer.as_mut_slice(), 0, CLIENT_HEADER_SIZE);
            },
            None => {},
        }
        let ghost header = buffer@;
        let mut k: usize = 0;
        while k < body_len
            invariant
                k <= body_len == packet.body@.len(),
                buffer@ == header + packet.body@.take(k as int),
            decreases body_len - k,
        {
            buffer.push(packet.body[k]);
            k = k + 1;
            assert(buffer@ =~= header + packet.body@.take(k as int));
        }
        assert(packet.body@.take(body_len as int) =~= packet.body@);
        if self.encryptor.is_none() {
            if let Some(s) = secret {
                self.encryptor = Some(Encryptor::new(s));
            }
        }
        Ok(buffer)
    }
}

} // verus!

verus! {

/// A client packet goes out as six header bytes and the body. In clear, the
/// first two bytes are (4 + body length) modulo 65536, big-endian, and the
/// next four the opcode, little-endian. Once there is a cipher the header is
/// those six bytes combined with the next six keystream bytes, and the
/// cipher ends six steps on; the body is never touched.
pub proof fn law_client_packet_layout(
    cipher: Option<Rc4State>,
    opcode: u32,
    body: Seq<u8>,
    secret: Option<Seq<u8>>,
)
    ensures
        ({
            let out = spec_serialize(cipher, PacketOpcode::U32(opcode), body, secret);
            &&& out.result is Ok
            &&& out.result->Ok_0.len() == 6 + body.len()
            &&& out.result->Ok_0.subrange(6, 6 + body.len() as int) == body
            &&& cipher is None ==> {
                let b = out.result->Ok_0;
                &&& b[0] * 256 + b[1] == (4 + body.len()) % 65536
                &&& b[2] + b[3] * 256 + b[4] * 65536 + b[5] * 16777216 == opcode
            }
            &&& cipher matches Some(c) ==> out.cipher == Some(advance(c, 6))
            &&& cipher matches Some(c) ==> {
                let clear = xor_from(out.result->Ok_0.take(6), 0, keystream(c, 6));
                &&& clear[0] * 256 + clear[1] == (4 + body.len()) % 65536
                &&& clear[2] + clear[3] * 256 + clear[4] * 65536 + clear[5] * 16777216 == opcode
            }
        }),
        spec_serialize(cipher, PacketOpcode::U16(0), body, secret).result == Err::<Seq<u8>, SerializeError>(
            SerializeError::WrongOpcodeType,
        ),
{
    let size = client_packet_size(body.len());
    let header = client_header(size, opcode);
    assert(size / 0x100 * 256 + size % 0x100 == size);
    let b2 = opcode % 0x100;
    let b3 = (opcode / 0x100) % 0x100;
    let b4 = (opcode / 0x10000) % 0x100;
    let b5 = opcode / 0x1000000;
    assert(b2 + b3 * 256 + b4 * 65536 + b5 * 16777216 == opcode) by (nonlinear_arith)
        requires
            b2 == opcode % 0x100,
            b3 == (opcode / 0x100) % 0x100,
            b4 == (opcode / 0x10000) % 0x100,
            b5 == opcode / 0x1000000,
    ;
    assert(b5 < 256);
    match cipher {
        Some(c) => {
            lemma_keystream_len(c, 6);
            let sent = xor_from(header, 0, keystream(c, 6));
            assert((sent + body).subrange(6, 6 + body.len() as int) =~= body);
            assert((sent + body).take(6) =~= sent);
            law_keystream_roundtrip(header, 0, keystream(c, 6));
        },
        None => {
            assert((header + body).subrange(6, 6 + body.len() as int) =~= body);
        },
    }
}

} // verus!
