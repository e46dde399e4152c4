use wotlk_realm::packet::{Packet, PacketOpcode, PacketType};
use wotlk_realm::spell_go::{self, MissEntry, SpellGOTargets, SpellMissInfo};
use wotlk_realm::spell_start;
use wotlk_realm::spell_types::{
    CastFlags, PredictedRunes, SpellTargets, CAST_FLAG_AMMO, CAST_FLAG_IMMUNITY, CAST_FLAG_PREDICTED_RUNES,
    CAST_FLAG_VISUAL_CHAIN, TARGET_FLAG_STRING, TARGET_FLAG_UNIT, TARGET_FLAG_VISUAL_CHAIN,
};
use wotlk_realm::wire::{read_packed_guid, PackedGuid, ParseError};

fn push_u32(bytes: &mut Vec<u8>, value: u32) {
    bytes.extend_from_slice(&value.to_le_bytes());
}

fn push_f32(bytes: &mut Vec<u8>, value: f32) {
    bytes.extend_from_slice(&value.to_le_bytes());
}

fn base_spell_go(cast_flags: u32) -> Vec<u8> {
    let mut bytes = Vec::new();
    bytes.push(0); // packed source guid = 0
    bytes.push(0); // packed caster guid = 0
    bytes.push(0); // cast count
    push_u32(&mut bytes, 1234); // spell id
    push_u32(&mut bytes, cast_flags);
    push_u32(&mut bytes, 5678); // timestamp
    bytes.push(0); // hit count
    bytes.push(0); // miss count
    bytes
}

fn push_destination(bytes: &mut Vec<u8>) {
    push_u32(bytes, 0x0000_0040); // TARGET_FLAG_DEST_LOCATION
    bytes.push(0); // packed destination transport guid = 0
    push_f32(bytes, 1.0);
    push_f32(bytes, 2.0);
    push_f32(bytes, 3.0);
}

#[test]
fn cmangos_destination_spell_go_keeps_dest_counter_aligned() {
    // Target mask, packed transport guid, xyz, counter.
    let mut bytes = base_spell_go(0);
    push_destination(&mut bytes);
    bytes.push(7); // dest loc counter

    let (incoming, consumed) = spell_go::Incoming::parse(bytes.as_slice()).unwrap();

    assert!(incoming.targets.has_dest_location);
    assert_eq!(incoming.targets.dest_transport, Some(PackedGuid(0)));
    assert_eq!(incoming.dest_loc_counter, Some(7));
    assert_eq!(consumed, bytes.len());
}

#[test]
fn ammo_is_fixed_width_and_does_not_consume_dest_counter() {
    let mut bytes = base_spell_go(CastFlags::from_bits(CAST_FLAG_AMMO).bits());
    push_destination(&mut bytes);
    push_u32(&mut bytes, 5996); // ammo display id
    push_u32(&mut bytes, 24); // ammo inventory type
    bytes.push(9); // dest loc counter

    let (incoming, consumed) = spell_go::Incoming::parse(bytes.as_slice()).unwrap();

    let ammo = incoming.ammo.unwrap();
    assert_eq!(ammo.display_id, 5996);
    assert_eq!(ammo.inventory_type, 24);
    assert_eq!(incoming.dest_loc_counter, Some(9));
    assert_eq!(consumed, bytes.len());
}

#[test]
fn predicted_runes_reads_only_spent_rune_cooldowns() {
    let mut bytes = base_spell_go(CastFlags::from_bits(CAST_FLAG_PREDICTED_RUNES).bits());
    push_destination(&mut bytes);
    bytes.push(0b0000_0011); // rune 0 + 1 ready before
    bytes.push(0b0000_0010); // rune 0 spent
    bytes.push(0x80); // exactly one cooldown byte
    bytes.push(11); // dest loc counter must remain unread until now

    let (incoming, consumed) = spell_go::Incoming::parse(bytes.as_slice()).unwrap();

    assert_eq!(incoming.runes.unwrap().cooldowns, vec![0x80]);
    assert_eq!(incoming.dest_loc_counter, Some(11));
    assert_eq!(consumed, bytes.len());
}

#[test]
fn ammo_does_not_consume_following_immunity_fields() {
    let flags = CastFlags::from_bits(CAST_FLAG_AMMO).union(CastFlags::from_bits(CAST_FLAG_IMMUNITY));
    let mut bytes = Vec::new();
    bytes.push(0); // packed cast item guid
    bytes.push(0); // packed caster guid
    bytes.push(0); // cast count
    push_u32(&mut bytes, 1234); // spell id
    push_u32(&mut bytes, flags.bits());
    push_u32(&mut bytes, 2500); // cast timer
    push_u32(&mut bytes, 0); // TARGET_FLAG_SELF
    push_u32(&mut bytes, 5996); // ammo display id
    push_u32(&mut bytes, 24); // ammo inventory type
    push_u32(&mut bytes, 0x11); // school immunity
    push_u32(&mut bytes, 0x22); // mechanic immunity

    let (incoming, consumed) = spell_start::Incoming::parse(bytes.as_slice()).unwrap();

    assert_eq!(incoming.ammo.display_id, 5996);
    assert_eq!(incoming.ammo.inventory_type, 24);
    assert_eq!(incoming.immunity.school_immunity_mask, 0x11);
    assert_eq!(incoming.immunity.mechanic_immunity_mask, 0x22);
    assert_eq!(consumed, bytes.len());
}

#[test]
fn spell_start_without_flags_defaults_blocks() {
    let mut bytes = vec![0, 0, 3];
    push_u32(&mut bytes, 99);
    push_u32(&mut bytes, 0);
    push_u32(&mut bytes, 2500);
    push_u32(&mut bytes, 0);
    let (incoming, consumed) = spell_start::Incoming::parse(bytes.as_slice()).unwrap();
    assert_eq!(incoming.cast_count, 3);
    assert_eq!(incoming.spell_id, 99);
    assert_eq!(incoming.timestamp, 2500);
    assert_eq!(incoming.ammo.display_id, 0);
    assert_eq!(incoming.immunity.mechanic_immunity_mask, 0);
    assert_eq!(consumed, bytes.len());
}

#[test]
fn packed_guid_places_bytes_by_mask() {
    let data = [0b0000_0101, 0xAA, 0xBB, 0xFF];
    let (guid, next) = read_packed_guid(&data, 0).unwrap();
    assert_eq!(guid, PackedGuid(0x00BB_00AA));
    assert_eq!(next, 3);
    assert_eq!(read_packed_guid(&[0b1000_0000], 0).unwrap_err(), ParseError::UnexpectedEnd);
    let (guid, _) = read_packed_guid(&[0b1000_0000, 0x12], 0).unwrap();
    assert_eq!(guid, PackedGuid(0x1200_0000_0000_0000));
}

#[test]
fn hit_and_missed_targets() {
    let mut bytes = vec![2];
    bytes.extend_from_slice(&1u64.to_le_bytes());
    bytes.extend_from_slice(&0x0102_0304_0506_0708u64.to_le_bytes());
    bytes.push(2);
    bytes.extend_from_slice(&5u64.to_le_bytes());
    bytes.push(1); // miss
    bytes.extend_from_slice(&6u64.to_le_bytes());
    bytes.push(11); // reflect
    bytes.push(4); // reflect result
    let (targets, next): (SpellGOTargets, usize) = SpellGOTargets::parse(&bytes, 0).unwrap();
    assert_eq!(targets.hit_count, 2);
    assert_eq!(targets.hit_guids, vec![1, 0x0102_0304_0506_0708]);
    assert_eq!(targets.miss_count, 2);
    assert_eq!(
        targets.misses[0],
        MissEntry { target_guid: 5, miss_condition: SpellMissInfo::Miss, reflect_result: None }
    );
    assert_eq!(
        targets.misses[1],
        MissEntry { target_guid: 6, miss_condition: SpellMissInfo::Reflect, reflect_result: Some(4) }
    );
    assert_eq!(next, bytes.len());
}

#[test]
fn invalid_miss_condition_is_refused() {
    let mut bytes = vec![0, 1];
    bytes.extend_from_slice(&5u64.to_le_bytes());
    bytes.push(12);
    assert_eq!(SpellGOTargets::parse(&bytes, 0).unwrap_err(), ParseError::InvalidMissInfo(12));
}

#[test]
fn targets_with_unit_and_name() {
    let mut bytes = Vec::new();
    push_u32(&mut bytes, TARGET_FLAG_UNIT | TARGET_FLAG_STRING);
    bytes.extend_from_slice(&[0b0000_0001, 0x2A]);
    bytes.extend_from_slice(b"Bob\0");
    let (targets, next) = SpellTargets::parse(&bytes, 0).unwrap();
    assert_eq!(targets.unit_target, Some(PackedGuid(0x2A)));
    assert_eq!(targets.target_string, Some(b"Bob".to_vec()));
    assert!(!targets.has_dest_location);
    assert_eq!(next, bytes.len());
    let truncated = &bytes[..bytes.len() - 1];
    assert_eq!(SpellTargets::parse(truncated, 0).unwrap_err(), ParseError::UnexpectedEnd);
}

#[test]
fn runes_block_counts_spent_runes() {
    let data = [0b0011_1111, 0b0000_0000, 1, 2, 3, 4, 5, 6, 7];
    let (runes, next) = PredictedRunes::parse(&data, 0).unwrap();
    assert_eq!(runes.cooldowns, vec![1, 2, 3, 4, 5, 6]);
    assert_eq!(next, 8);
    assert_eq!(PredictedRunes::parse(&data[..5], 0).unwrap_err(), ParseError::UnexpectedEnd);
}

#[test]
fn spell_go_with_visual_chain_and_extra_targets() {
    let mut bytes = base_spell_go(CAST_FLAG_VISUAL_CHAIN);
    push_u32(&mut bytes, TARGET_FLAG_VISUAL_CHAIN);
    push_u32(&mut bytes, 1);
    push_u32(&mut bytes, 2);
    push_u32(&mut bytes, 1); // one extra target
    push_f32(&mut bytes, 1.5);
    push_f32(&mut bytes, 2.5);
    push_f32(&mut bytes, 3.5);
    bytes.extend_from_slice(&77u64.to_le_bytes());
    let (incoming, consumed) = spell_go::Incoming::parse(bytes.as_slice()).unwrap();
    let chain = incoming.visual_chain.unwrap();
    assert_eq!((chain.first, chain.second), (1, 2));
    let extra = incoming.visual_chain_targets.unwrap();
    assert_eq!(extra.targets.len(), 1);
    assert_eq!(f32::from_bits(extra.targets[0].position.y_bits), 2.5);
    assert_eq!(extra.targets[0].guid, 77);
    assert_eq!(incoming.dest_loc_counter, None);
    assert_eq!(consumed, bytes.len());
}

#[test]
fn handlers_accept_well_formed_bodies_only() {
    let mut body = base_spell_go(0);
    push_u32(&mut body, 0);
    let packet = Packet { packet_type: PacketType::Incoming, opcode: PacketOpcode::U16(0x132), packet_name: String::new(), packet_size: 0, body };
    assert_eq!(spell_go::Handler.handle(&packet), Ok(()));
    let short = Packet { packet_type: PacketType::Incoming, opcode: PacketOpcode::U16(0x132), packet_name: String::new(), packet_size: 0, body: vec![0, 0] };
    assert_eq!(spell_go::Handler.handle(&short), Err(ParseError::UnexpectedEnd));
    assert_eq!(spell_start::Handler.handle(&short), Err(ParseError::UnexpectedEnd));
}
