//! Verified framing, header cipher and spell-packet parsing for the
//! World of Warcraft 3.3.5 (WotLK) realm protocol, client side.

pub mod header;
pub mod rc4;
pub mod crypt;
pub mod packet;
pub mod opcodes;
pub mod network;
pub mod wire;
pub mod spell_types;
pub mod spell_go;
pub mod spell_start;
