//! SMSG_SPELL_START: a spell cast that began.
use vstd::prelude::*;
use crate::packet::Packet;
use crate::spell_types::{
    AmmoInfo, CAST_FLAG_AMMO, CAST_FLAG_IMMUNITY, CastFlags, SpellImmunity, SpellTargets, SpellTargetsModel,
    spec_ammo_info, spec_spell_immunity, spec_spell_targets, lemma_spell_targets_bounds,
};
use crate::wire::{
    ParseError, PackedGuid, SpecParsed, parsed_view, read_packed_guid, read_u32, read_u8, spec_packed_guid,
    spec_u32, spec_u8, le_u32, lemma_packed_guid_bounds,
};

verus! {

/// The body of SMSG_SPELL_START.
#[derive(Debug)]
pub struct Incoming {
    pub cast_item_guid: PackedGuid,
    pub caster_guid: PackedGuid,
    pub cast_count: u8,
    pub spell_id: u32,
    pub cast_flags: CastFlags,
    pub timestamp: u32,
    pub targets: SpellTargets,
    /// The ammunition; both fields zero unless the cast flags announce it.
    pub ammo: AmmoInfo,
    /// The immunities; both masks zero unless the cast flags announce them.
    pub immunity: SpellImmunity,
}

/// The body of SMSG_SPELL_START, the targets by their view.
pub struct IncomingModel {
    pub cast_item_guid: PackedGuid,
    pub caster_guid: PackedGuid,
    pub cast_count: u8,
    pub spell_id: u32,
    pub cast_flags: CastFlags,
    pub timestamp: u32,
    pub targets: SpellTargetsModel,
    pub ammo: AmmoInfo,
    pub immunity: SpellImmunity,
}

impl View for Incoming {
    type V = IncomingModel;

    open spec fn view(&self) -> IncomingModel {
        IncomingModel {
            cast_item_guid: self.cast_item_guid,
            caster_guid: self.caster_guid,
            cast_count: self.cast_count,
            spell_id: self.spell_id,
            cast_flags: self.cast_flags,
            timestamp: self.timestamp,
            targets: self.targets@,
            ammo: self.ammo,
            immunity: self.immunity,
        }
    }
}

/// A block where `present`, read at `pos` as `parsed` says; `default`, and no
/// byte read, otherwise.
pub open spec fn spec_or_default<T>(present: bool, pos: int, parsed: SpecParsed<T>, default: T) -> SpecParsed<T> {
    if !present {
        Ok((default, pos))
    } else {
        parsed
    }
}

/// SMSG_SPELL_START: two packed GUIDs, the cast count, the spell id, the cast
/// flags, the cast time and the spell targets; then the ammunition and the
/// immunities, each only where the cast flags announce it.
pub open spec fn spec_spell_start(s: Seq<u8>, pos: int) -> SpecParsed<IncomingModel> {
    match spec_packed_guid(s, pos) {
        Err(e) => Err(e),
        Ok((cast_item_guid, p0)) => match spec_packed_guid(s, p0) {
            Err(e) => Err(e),
            Ok((caster_guid, p1)) => match spec_u8(s, p1) {
                Err(e) => Err(e),
                Ok((cast_count, p2)) => match spec_u32(s, p2) {
                    Err(e) => Err(e),
                    Ok((spell_id, p3)) => match spec_u32(s, p3) {
                        Err(e) => Err(e),
                        Ok((flags, p4)) => match spec_u32(s, p4) {
                            Err(e) => Err(e),
                            Ok((timestamp, p5)) => match spec_spell_targets(s, p5) {
                                Err(e) => Err(e),
                                Ok((targets, p6)) => match spec_or_default(
                                    CastFlags { bits: flags }.spec_contains(CAST_FLAG_AMMO),
                                    p6,
                                    spec_ammo_info(s, p6),
                                    AmmoInfo { display_id: 0, inventory_type: 0 },
                                ) {
                                    Err(e) => Err(e),
                                    Ok((ammo, p7)) => match spec_or_default(
                                        CastFlags { bits: flags }.spec_contains(CAST_FLAG_IMMUNITY),
                                        p7,
                                        spec_spell_immunity(s, p7),
                                        SpellImmunity { school_immunity_mask: 0, mechanic_immunity_mask: 0 },
                                    ) {
                                        Err(e) => Err(e),
                                        Ok((immunity, p8)) => Ok(
                                            (
                                                IncomingModel {
                                                    cast_item_guid,
                                                    caster_guid,
                                                    cast_count,
                                                    spell_id,
                                                    cast_flags: CastFlags { bits: flags },
                                                    timestamp,
                                                    targets,
                                                    ammo,
                                                    immunity,
                                                },
                                                p8,
                                            ),
                                        ),
                                    },
                                },
                            },
                        },
                    },
                },
            },
        },
    }
}

impl Incoming {
    /// Reads an SMSG_SPELL_START body from `data`; gives it with the number of
    /// bytes it takes.
    pub fn parse(data: &[u8]) -> (res: Result<(Incoming, usize), ParseError>)
        ensures
            parsed_view(res, spec_spell_start(data@, 0)),
    {
        let (cast_item_guid, p0) = read_packed_guid(data, 0)?;
        let (caster_guid, p1) = read_packed_guid(data, p0)?;
        let (cast_count, p2) = read_u8(data, p1)?;
        let (spell_id, p3) = read_u32(data, p2)?;
        let (flags, p4) = read_u32(data, p3)?;
        let cast_flags = CastFlags::from_bits(flags);
        let (timestamp, p5) = read_u32(data, p4)?;
        let (targets, p6) = SpellTargets::parse(data, p5)?;
        let (ammo, p7) = if cast_flags.contains(CAST_FLAG_AMMO) {
            AmmoInfo::parse(data, p6)?
        } else {
            (AmmoInfo::empty(), p6)
        };
        let (immunity, p8) = if cast_flags.contains(CAST_FLAG_IMMUNITY) {
            SpellImmunity::parse(data, p7)?
        } else {
            (SpellImmunity::empty(), p7)
        };
        let incoming = Incoming {
            cast_item_guid,
            caster_guid,
            cast_count,
            spell_id,
            cast_flags,
            timestamp,
            targets,
            ammo,
            immunity,
        };
        Ok((incoming, p8))
    }

    /// Reads the SMSG_SPELL_START body of `packet`.
    pub fn unpack(packet: &Packet) -> (res: Result<Incoming, ParseError>)
        ensures
            match (res, spec_spell_start(packet.body@, 0)) {
                (Ok(v), Ok((sv, _))) => v@ == sv,
                (Err(e), Err(se)) => e == se,
                _ => false,
            },
    {
        let (incoming, _) = Incoming::parse(packet.body.as_slice())?;
        Ok(incoming)
    }
}

/// Handles SMSG_SPELL_START: reads the body and hands nothing on.
pub struct Handler;

impl Handler {
    /// Reads the body of `packet`; succeeds, with no output, exactly when the
    /// body is a well-formed SMSG_SPELL_START.
    pub fn handle(&mut self, packet: &Packet) -> (res: Result<(), ParseError>)
        ensures
            match (res, spec_spell_start(packet.body@, 0)) {
                (Ok(_), Ok(_)) => true,
                (Err(e), Err(se)) => e == se,
                _ => false,
            },
    {
        let _ = Incoming::unpack(packet)?;
        Ok(())
    }
}

} // verus!

verus! {

/// Where the fields of SMSG_SPELL_START lie: after the two packed GUIDs come
/// the cast count (one byte), the spell id, the cast flags and the cast time
/// (four bytes each) and the spell targets; then the ammunition (eight bytes)
/// exactly when the flags hold 0x20, and the immunities (eight bytes) exactly
/// when they hold 0x400_0000. A block that is not announced takes no byte and
/// reads as zeros.
pub open spec fn spell_start_layout(s: Seq<u8>) -> SpecParsed<IncomingModel> {
    match spec_packed_guid(s, 0) {
        Err(e) => Err(e),
        Ok((cast_item_guid, p0)) => match spec_packed_guid(s, p0) {
            Err(e) => Err(e),
            Ok((caster_guid, p1)) => if p1 + 13 > s.len() {
                Err(ParseError::UnexpectedEnd)
            } else {
                let flags = le_u32(s, p1 + 5);
                match spec_spell_targets(s, p1 + 13) {
                    Err(e) => Err(e),
                    Ok((targets, q)) => {
                        let ammo = flags & 0x20 == 0x20;
                        let immunity = flags & 0x400_0000 == 0x400_0000;
                        let q_ammo = q + if ammo { 8int } else { 0int };
                        let end = q_ammo + if immunity { 8int } else { 0int };
                        if end > s.len() {
                            Err(ParseError::UnexpectedEnd)
                        } else {
                            Ok(
                                (
                                    IncomingModel {
                                        cast_item_guid,
                                        caster_guid,
                                        cast_count: s[p1],
                                        spell_id: le_u32(s, p1 + 1),
                                        cast_flags: CastFlags { bits: flags },
                                        timestamp: le_u32(s, p1 + 9),
                                        targets,
                                        ammo: if ammo {
                                            AmmoInfo { display_id: le_u32(s, q), inventory_type: le_u32(s, q + 4) }
                                        } else {
                                            AmmoInfo { display_id: 0, inventory_type: 0 }
                                        },
                                        immunity: if immunity {
                                            SpellImmunity {
                                                school_immunity_mask: le_u32(s, q_ammo),
                                                mechanic_immunity_mask: le_u32(s, q_ammo + 4),
                                            }
                                        } else {
                                            SpellImmunity { school_immunity_mask: 0, mechanic_immunity_mask: 0 }
                                        },
                                    },
                                    end,
                                ),
                            )
                        }
                    },
                }
            },
        },
    }
}

/// SMSG_SPELL_START is read as its layout says: the same fields at the same
/// positions, the same number of bytes taken, and an error exactly where the
/// layout does not fit.
#[verifier::rlimit(60)]
pub proof fn law_spell_start_layout(s: Seq<u8>)
    ensures
        spec_spell_start(s, 0) == spell_start_layout(s),
{
    lemma_packed_guid_bounds(s, 0);
    if let Ok((_, p0)) = spec_packed_guid(s, 0) {
        lemma_packed_guid_bounds(s, p0);
        if let Ok((_, p1)) = spec_packed_guid(s, p0) {
            if p1 + 13 <= s.len() {
                lemma_spell_targets_bounds(s, p1 + 13);
                let flags = le_u32(s, p1 + 5);
                let cf = CastFlags { bits: flags };
                assert(cf.spec_contains(CAST_FLAG_AMMO) == (flags & 0x20 == 0x20));
                assert(cf.spec_contains(CAST_FLAG_IMMUNITY) == (flags & 0x400_0000 == 0x400_0000));
            }
        }
    }
}

} // verus!
