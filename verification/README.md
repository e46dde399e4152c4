# wotlk_realm

The client side of the WotLK (3.3.5) realm connection, verified with Verus.

- `header`: server headers (short and long size), decoding with an exact contract.
- `rc4`, `crypt`: the RC4 header cipher and its HMAC-SHA1 keying, with a model of the keystream.
- `opcodes`: a table of opcode names that the client fills; packets are named from it.
- `network`: `PacketReader` (framing and in-place header decryption that resumes across
  partial reads) and `PacketSerializer` (client headers, encrypted once the session has a secret);
  the laws on resuming a read and on the keystream a packet consumes.
- `wire`, `spell_types`, `spell_go`, `spell_start`: the SMSG_SPELL_GO and SMSG_SPELL_START
  bodies as functions on bytes, each proved equal to a grammar written as spec functions.
- `app/`: `anyhow` errors with the client's messages, and serializable copies of the spell-go target types.
