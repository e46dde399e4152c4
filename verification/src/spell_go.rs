//! SMSG_SPELL_GO: a spell cast that went off, with the targets it hit and
//! missed.
use vstd::prelude::*;
use crate::packet::Packet;
use crate::spell_types::{
    AdjustMissile, AmmoInfo, CAST_FLAG_ADJUST_MISSILE, CAST_FLAG_AMMO, CAST_FLAG_PREDICTED_POWER,
    CAST_FLAG_PREDICTED_RUNES, CAST_FLAG_VISUAL_CHAIN, CastFlags, PredictedRunes, PredictedRunesModel,
    SpellTargets, SpellTargetsModel, VisualChain, VisualChainTargets, ExtraTarget, spec_adjust_missile,
    spec_ammo_info, spec_predicted_runes, spec_spell_targets, spec_visual_chain, spec_visual_chain_targets,
    lemma_runes_bounds, lemma_spell_targets_bounds, lemma_visual_chain_targets_bounds,
};
use crate::wire::{
    ParseError, PackedGuid, SpecParsed, le_u32, le_u64, parsed_as, parsed_view, read_packed_guid, read_u32, read_u64, read_u8,
    spec_optional, spec_packed_guid, spec_u32, spec_u64, spec_u8, lemma_packed_guid_bounds,
};

verus! {

/// How a spell missed a target.
#[derive(Debug, Clone, Copy, PartialEq, Eq, Structural)]
pub enum SpellMissInfo {
    /// Value 0: the target was not missed.
    NoMiss,
    Miss,
    Resist,
    Dodge,
    Parry,
    Block,
    Evade,
    Immune,
    Immune2,
    Deflect,
    Absorb,
    Reflect,
}

/// The miss condition that the byte `v` stands for, if any.
pub open spec fn spec_miss_info(v: u8) -> Option<SpellMissInfo> {
    if v == 0 {
        Some(SpellMissInfo::NoMiss)
    } else if v == 1 {
        Some(SpellMissInfo::Miss)
    } else if v == 2 {
        Some(SpellMissInfo::Resist)
    } else if v == 3 {
        Some(SpellMissInfo::Dodge)
    } else if v == 4 {
        Some(SpellMissInfo::Parry)
    } else if v == 5 {
        Some(SpellMissInfo::Block)
    } else if v == 6 {
        Some(SpellMissInfo::Evade)
    } else if v == 7 {
        Some(SpellMissInfo::Immune)
    } else if v == 8 {
        Some(SpellMissInfo::Immune2)
    } else if v == 9 {
        Some(SpellMissInfo::Deflect)
    } else if v == 10 {
        Some(SpellMissInfo::Absorb)
    } else if v == 11 {
        Some(SpellMissInfo::Reflect)
    } else {
        None
    }
}

impl SpellMissInfo {
    /// The miss condition that the byte `v` stands for, if any.
    pub fn from_u8(v: u8) -> (m: Option<SpellMissInfo>)
        ensures
            m == spec_miss_info(v),
    {
        match v {
            0 => Some(SpellMissInfo::NoMiss),
            1 => Some(SpellMissInfo::Miss),
            2 => Some(SpellMissInfo::Resist),
            3 => Some(SpellMissInfo::Dodge),
            4 => Some(SpellMissInfo::Parry),
            5 => Some(SpellMissInfo::Block),
            6 => Some(SpellMissInfo::Evade),
            7 => Some(SpellMissInfo::Immune),
            8 => Some(SpellMissInfo::Immune2),
            9 => Some(SpellMissInfo::Deflect),
            10 => Some(SpellMissInfo::Absorb),
            11 => Some(SpellMissInfo::Reflect),
            _ => None,
        }
    }
}

/// A target that the spell missed.
#[derive(Debug, Clone, Copy, PartialEq, Eq, Structural)]
pub struct MissEntry {
    pub target_guid: u64,
    pub miss_condition: SpellMissInfo,
    pub reflect_result: Option<u8>,
}

/// The GUID (eight bytes), the miss condition (a byte), and, for a reflected
/// spell only, the result of the reflection (a byte).
pub open spec fn spec_miss_entry(s: Seq<u8>, pos: int) -> SpecParsed<MissEntry> {
    match spec_u64(s, pos) {
        Err(e) => Err(e),
        Ok((target_guid, p0)) => match spec_u8(s, p0) {
            Err(e) => Err(e),
            Ok((condition, p1)) => match spec_miss_info(condition) {
                None => Err(ParseError::InvalidMissInfo(condition)),
                Some(miss_condition) => if miss_condition == SpellMissInfo::Reflect {
                    match spec_u8(s, p1) {
                        Err(e) => Err(e),
                        Ok((r, p2)) => Ok((MissEntry { target_guid, miss_condition, reflect_result: Some(r) }, p2)),
                    }
                } else {
                    Ok((MissEntry { target_guid, miss_condition, reflect_result: None }, p1))
                },
            },
        },
    }
}

impl MissEntry {
    /// Reads a miss entry at `pos`.
    pub fn parse(data: &[u8], pos: usize) -> (res: Result<(MissEntry, usize), ParseError>)
        ensures
            parsed_as(res, spec_miss_entry(data@, pos as int)),
    {
        let (target_guid, p0) = read_u64(data, pos)?;
        let (condition, p1) = read_u8(data, p0)?;
        match SpellMissInfo::from_u8(condition) {
            None => Err(ParseError::InvalidMissInfo(condition)),
            Some(miss_condition) => {
                if miss_condition == SpellMissInfo::Reflect {
                    let (r, p2) = read_u8(data, p1)?;
                    Ok((MissEntry { target_guid, miss_condition, reflect_result: Some(r) }, p2))
                } else {
                    Ok((MissEntry { target_guid, miss_condition, reflect_result: None }, p1))
                }
            },
        }
    }
}

/// `remaining` more GUIDs of eight bytes after those in `acc`.
pub open spec fn spec_guid_list(s: Seq<u8>, pos: int, remaining: nat, acc: Seq<u64>) -> SpecParsed<Seq<u64>>
    decreases remaining,
{
    if remaining == 0 {
        Ok((acc, pos))
    } else {
        match spec_u64(s, pos) {
            Err(e) => Err(e),
            Ok((g, p)) => spec_guid_list(s, p, (remaining - 1) as nat, acc.push(g)),
        }
    }
}

/// `remaining` more miss entries after those in `acc`.
pub open spec fn spec_miss_list(s: Seq<u8>, pos: int, remaining: nat, acc: Seq<MissEntry>) -> SpecParsed<
    Seq<MissEntry>,
>
    decreases remaining,
{
    if remaining == 0 {
        Ok((acc, pos))
    } else {
        match spec_miss_entry(s, pos) {
            Err(e) => Err(e),
            Ok((m, p)) => spec_miss_list(s, p, (remaining - 1) as nat, acc.push(m)),
        }
    }
}

/// The targets that a spell hit and missed.
#[derive(Debug)]
pub struct SpellGOTargets {
    pub hit_count: u8,
    pub hit_guids: Vec<u64>,
    pub miss_count: u8,
    pub misses: Vec<MissEntry>,
}

/// The targets that a spell hit and missed, the lists as sequences.
pub struct SpellGOTargetsModel {
    pub hit_count: u8,
    pub hit_guids: Seq<u64>,
    pub miss_count: u8,
    pub misses: Seq<MissEntry>,
}

impl View for SpellGOTargets {
    type V = SpellGOTargetsModel;

    open spec fn view(&self) -> SpellGOTargetsModel {
        SpellGOTargetsModel {
            hit_count: self.hit_count,
            hit_guids: self.hit_guids@,
            miss_count: self.miss_count,
            misses: self.misses@,
        }
    }
}

/// The hit count (a byte), that many GUIDs, the miss count (a byte), and that
/// many miss entries.
pub open spec fn spec_spell_go_targets(s: Seq<u8>, pos: int) -> SpecParsed<SpellGOTargetsModel> {
    match spec_u8(s, pos) {
        Err(e) => Err(e),
        Ok((hit_count, p0)) => match spec_guid_list(s, p0, hit_count as nat, Seq::empty()) {
            Err(e) => Err(e),
            Ok((hit_guids, p1)) => match spec_u8(s, p1) {
                Err(e) => Err(e),
                Ok((miss_count, p2)) => match spec_miss_list(s, p2, miss_count as nat, Seq::empty()) {
                    Err(e) => Err(e),
                    Ok((misses, p3)) => Ok((SpellGOTargetsModel { hit_count, hit_guids, miss_count, misses }, p3)),
                },
            },
        },
    }
}

fn read_guid_list(data: &[u8], pos: usize, count: u8) -> (res: Result<(Vec<u64>, usize), ParseError>)
    ensures
        match (res, spec_guid_list(data@, pos as int, count as nat, Seq::empty())) {
            (Ok((v, p)), Ok((sv, sp))) => v@ == sv && p == sp,
            (Err(e), Err(se)) => e == se,
            _ => false,
        },
{
    let mut out: Vec<u64> = Vec::new();
    let mut p: usize = pos;
    let mut k: u8 = 0;
    while k < count
        invariant
            k <= count,
            spec_guid_list(data@, pos as int, count as nat, Seq::empty()) == spec_guid_list(
                data@,
                p as int,
                (count - k) as nat,
                out@,
            ),
        decreases count - k,
    {
        let (g, next) = read_u64(data, p)?;
        out.push(g);
        p = next;
        k = k + 1;
    }
    Ok((out, p))
}

fn read_miss_list(data: &[u8], pos: usize, count: u8) -> (res: Result<(Vec<MissEntry>, usize), ParseError>)
    ensures
        match (res, spec_miss_list(data@, pos as int, count as nat, Seq::empty())) {
            (Ok((v, p)), Ok((sv, sp))) => v@ == sv && p == sp,
            (Err(e), Err(se)) => e == se,
            _ => false,
        },
{
    let mut out: Vec<MissEntry> = Vec::new();
    let mut p: usize = pos;
    let mut k: u8 = 0;
    while k < count
        invariant
            k <= count,
            spec_miss_list(data@, pos as int, count as nat, Seq::empty()) == spec_miss_list(
                data@,
                p as int,
                (count - k) as nat,
                out@,
            ),
        decreases count - k,
    {
        let (m, next) = MissEntry::parse(data, p)?;
        out.push(m);
        p = next;
        k = k + 1;
    }
    Ok((out, p))
}

impl SpellGOTargets {
    /// Reads the hit and missed targets at `pos`.
    pub fn parse(data: &[u8], pos: usize) -> (res: Result<(SpellGOTargets, usize), ParseError>)
        ensures
            parsed_view(res, spec_spell_go_targets(data@, pos as int)),
    {
        let (hit_count, p0) = read_u8(data, pos)?;
        let (hit_guids, p1) = read_guid_list(data, p0, hit_count)?;
        let (miss_count, p2) = read_u8(data, p1)?;
        let (misses, p3) = read_miss_list(data, p2, miss_count)?;
        Ok((SpellGOTargets { hit_count, hit_guids, miss_count, misses }, p3))
    }
}

/// The view of optional runes.
pub open spec fn runes_view(r: Option<PredictedRunes>) -> Option<PredictedRunesModel> {
    match r {
        Some(v) => Some(v@),
        None => None,
    }
}

/// The view of optional extra targets.
pub open spec fn chain_targets_view(t: Option<VisualChainTargets>) -> Option<Seq<ExtraTarget>> {
    match t {
        Some(v) => Some(v@),
        None => None,
    }
}

/// The body of SMSG_SPELL_GO.
#[derive(Debug)]
pub struct Incoming {
    /// Who initiated the spell.
    pub source_guid: PackedGuid,
    /// Who is animated by the cast.
    pub caster_guid: PackedGuid,
    pub cast_count: u8,
    pub spell_id: u32,
    pub cast_flags: CastFlags,
    pub timestamp: u32,
    pub spell_go_targets: SpellGOTargets,
    pub targets: SpellTargets,
    pub predicted_power: Option<u32>,
    pub runes: Option<PredictedRunes>,
    pub missile: Option<AdjustMissile>,
    pub ammo: Option<AmmoInfo>,
    pub visual_chain: Option<VisualChain>,
    pub dest_loc_counter: Option<u8>,
    pub visual_chain_targets: Option<VisualChainTargets>,
}

/// The body of SMSG_SPELL_GO, its lists as sequences.
pub struct IncomingModel {
    pub source_guid: PackedGuid,
    pub caster_guid: PackedGuid,
    pub cast_count: u8,
    pub spell_id: u32,
    pub cast_flags: CastFlags,
    pub timestamp: u32,
    pub spell_go_targets: SpellGOTargetsModel,
    pub targets: SpellTargetsModel,
    pub predicted_power: Option<u32>,
    pub runes: Option<PredictedRunesModel>,
    pub missile: Option<AdjustMissile>,
    pub ammo: Option<AmmoInfo>,
    pub visual_chain: Option<VisualChain>,
    pub dest_loc_counter: Option<u8>,
    pub visual_chain_targets: Option<Seq<ExtraTarget>>,
}

impl View for Incoming {
    type V = IncomingModel;

    open spec fn view(&self) -> IncomingModel {
        IncomingModel {
            source_guid: self.source_guid,
            caster_guid: self.caster_guid,
            cast_count: self.cast_count,
            spell_id: self.spell_id,
            cast_flags: self.cast_flags,
            timestamp: self.timestamp,
            spell_go_targets: self.spell_go_targets@,
            targets: self.targets@,
            predicted_power: self.predicted_power,
            runes: runes_view(self.runes),
            missile: self.missile,
            ammo: self.ammo,
            visual_chain: self.visual_chain,
            dest_loc_counter: self.dest_loc_counter,
            visual_chain_targets: chain_targets_view(self.visual_chain_targets),
        }
    }
}

/// The fields of SMSG_SPELL_GO before the targets: two packed GUIDs, the
/// cast count, the spell id, the cast flags and the timestamp.
pub open spec fn spec_spell_go_head(s: Seq<u8>, pos: int) -> SpecParsed<
    (PackedGuid, PackedGuid, u8, u32, CastFlags, u32),
> {
    match spec_packed_guid(s, pos) {
        Err(e) => Err(e),
        Ok((source_guid, p0)) => match spec_packed_guid(s, p0) {
            Err(e) => Err(e),
            Ok((caster_guid, p1)) => match spec_u8(s, p1) {
                Err(e) => Err(e),
                Ok((cast_count, p2)) => match spec_u32(s, p2) {
                    Err(e) => Err(e),
                    Ok((spell_id, p3)) => match spec_u32(s, p3) {
                        Err(e) => Err(e),
                        Ok((flags, p4)) => match spec_u32(s, p4) {
                            Err(e) => Err(e),
                            Ok((timestamp, p5)) => Ok(
                                (
                                    (source_guid, caster_guid, cast_count, spell_id, CastFlags { bits: flags }, timestamp),
                                    p5,
                                ),
                            ),
                        },
                    },
                },
            },
        },
    }
}

/// SMSG_SPELL_GO: the head, the hit and missed targets, the spell targets,
/// then, in this order and each only where announced, the predicted power,
/// the runes, the missile adjustment, the ammunition and the visual chain
/// (by the cast flags), the destination counter and the extra targets (by
/// the target mask).
pub open spec fn spec_spell_go(s: Seq<u8>, pos: int) -> SpecParsed<IncomingModel> {
    match spec_spell_go_head(s, pos) {
        Err(e) => Err(e),
        Ok(((source_guid, caster_guid, cast_count, spell_id, cast_flags, timestamp), p0)) =>
        match spec_spell_go_targets(s, p0) {
            Err(e) => Err(e),
            Ok((spell_go_targets, p1)) => match spec_spell_targets(s, p1) {
                Err(e) => Err(e),
                Ok((targets, p2)) => match spec_optional(
                    cast_flags.spec_contains(CAST_FLAG_PREDICTED_POWER),
                    p2,
                    spec_u32(s, p2),
                ) {
                    Err(e) => Err(e),
                    Ok((predicted_power, p3)) => match spec_optional(
                        cast_flags.spec_contains(CAST_FLAG_PREDICTED_RUNES),
                        p3,
                        spec_predicted_runes(s, p3),
                    ) {
                        Err(e) => Err(e),
                        Ok((runes, p4)) => match spec_optional(
                            cast_flags.spec_contains(CAST_FLAG_ADJUST_MISSILE),
                            p4,
                            spec_adjust_missile(s, p4),
                        ) {
                            Err(e) => Err(e),
                            Ok((missile, p5)) => match spec_optional(
                                cast_flags.spec_contains(CAST_FLAG_AMMO),
                                p5,
                                spec_ammo_info(s, p5),
                            ) {
                                Err(e) => Err(e),
                                Ok((ammo, p6)) => match spec_optional(
                                    cast_flags.spec_contains(CAST_FLAG_VISUAL_CHAIN),
                                    p6,
                                    spec_visual_chain(s, p6),
                                ) {
                                    Err(e) => Err(e),
                                    Ok((visual_chain, p7)) => match spec_optional(
                                        targets.has_dest_location,
                                        p7,
                                        spec_u8(s, p7),
                                    ) {
                                        Err(e) => Err(e),
                                        Ok((dest_loc_counter, p8)) => match spec_optional(
                                            targets.has_visual_chain_targets,
                                            p8,
                                            spec_visual_chain_targets(s, p8),
                                        ) {
                                            Err(e) => Err(e),
                                            Ok((visual_chain_targets, p9)) => Ok(
                                                (
                                                    IncomingModel {
                                                        source_guid,
                                                        caster_guid,
                                                        cast_count,
                                                        spell_id,
                                                        cast_flags,
                                                        timestamp,
                                                        spell_go_targets,
                                                        targets,
                                                        predicted_power,
                                                        runes,
                                                        missile,
                                                        ammo,
                                                        visual_chain,
                                                        dest_loc_counter,
                                                        visual_chain_targets,
                                                    },
                                                    p9,
                                                ),
                                            ),
                                        },
                                    },
                                },
                            },
                        },
                    },
                },
            },
        },
    }
}

fn read_spell_go_head(data: &[u8], pos: usize) -> (res: Result<
    ((PackedGuid, PackedGuid, u8, u32, CastFlags, u32), usize),
    ParseError,
>)
    ensures
        parsed_as(res, spec_spell_go_head(data@, pos as int)),
{
    let (source_guid, p0) = read_packed_guid(data, pos)?;
    let (caster_guid, p1) = read_packed_guid(data, p0)?;
    let (cast_count, p2) = read_u8(data, p1)?;
    let (spell_id, p3) = read_u32(data, p2)?;
    let (flags, p4) = read_u32(data, p3)?;
    let (timestamp, p5) = read_u32(data, p4)?;
    Ok(((source_guid, caster_guid, cast_count, spell_id, CastFlags::from_bits(flags), timestamp), p5))
}

impl Incoming {
    /// Reads an SMSG_SPELL_GO body from `data`; gives it with the number of
    /// bytes it takes.
    pub fn parse(data: &[u8]) -> (res: Result<(Incoming, usize), ParseError>)
        ensures
            parsed_view(res, spec_spell_go(data@, 0)),
    {
        let ((source_guid, caster_guid, cast_count, spell_id, cast_flags, timestamp), p0) = read_spell_go_head(
            data,
            0,
        )?;
        let (spell_go_targets, p1) = SpellGOTargets::parse(data, p0)?;
        let (targets, p2) = SpellTargets::parse(data, p1)?;
        let (predicted_power, p3) = if cast_flags.contains(CAST_FLAG_PREDICTED_POWER) {
            let (v, q) = read_u32(data, p2)?;
            (Some(v), q)
        } else {
            (None, p2)
        };
        let (runes, p4) = if cast_flags.contains(CAST_FLAG_PREDICTED_RUNES) {
            let (v, q) = PredictedRunes::parse(data, p3)?;
            (Some(v), q)
        } else {
            (None, p3)
        };
        let (missile, p5) = if cast_flags.contains(CAST_FLAG_ADJUST_MISSILE) {
            let (v, q) = AdjustMissile::parse(data, p4)?;
            (Some(v), q)
        } else {
            (None, p4)
        };
        let (ammo, p6) = if cast_flags.contains(CAST_FLAG_AMMO) {
            let (v, q) = AmmoInfo::parse(data, p5)?;
            (Some(v), q)
        } else {
            (None, p5)
        };
        let (visual_chain, p7) = if cast_flags.contains(CAST_FLAG_VISUAL_CHAIN) {
            let (v, q) = VisualChain::parse(data, p6)?;
            (Some(v), q)
        } else {
            (None, p6)
        };
        let (dest_loc_counter, p8) = if targets.has_dest_location {
            let (v, q) = read_u8(data, p7)?;
            (Some(v), q)
        } else {
            (None, p7)
        };
        let (visual_chain_targets, p9) = if targets.has_visual_chain_targets {
            let (v, q) = VisualChainTargets::parse(data, p8)?;
            (Some(v), q)
        } else {
            (None, p8)
        };
        let incoming = Incoming {
            source_guid,
            caster_guid,
            cast_count,
            spell_id,
            cast_flags,
            timestamp,
            spell_go_targets,
            targets,
            predicted_power,
            runes,
            missile,
            ammo,
            visual_chain,
            dest_loc_counter,
            visual_chain_targets,
        };
        Ok((incoming, p9))
    }

    /// Reads the SMSG_SPELL_GO body of `packet`.
    pub fn unpack(packet: &Packet) -> (res: Result<Incoming, ParseError>)
        ensures
            match (res, spec_spell_go(packet.body@, 0)) {
                (Ok(v), Ok((sv, _))) => v@ == sv,
                (Err(e), Err(se)) => e == se,
                _ => false,
            },
    {
        let (incoming, _) = Incoming::parse(packet.body.as_slice())?;
        Ok(incoming)
    }
}

/// Handles SMSG_SPELL_GO: reads the body and hands nothing on.
pub struct Handler;

impl Handler {
    /// Reads the body of `packet`; succeeds, with no output, exactly when the
    /// body is a well-formed SMSG_SPELL_GO.
    pub fn handle(&mut self, packet: &Packet) -> (res: Result<(), ParseError>)
        ensures
            match (res, spec_spell_go(packet.body@, 0)) {
                (Ok(_), Ok(_)) => true,
                (Err(e), Err(se)) => e == se,
                _ => false,
            },
    {
        let _ = Incoming::unpack(packet)?;
        Ok(())
    }
}

} // verus!

verus! {

/// The byte value of each miss condition on the wire, and no condition for
/// any other byte.
pub proof fn law_miss_info_values(v: u8)
    ensures
        spec_miss_info(0) == Some(SpellMissInfo::NoMiss),
        spec_miss_info(1) == Some(SpellMissInfo::Miss),
        spec_miss_info(2) == Some(SpellMissInfo::Resist),
        spec_miss_info(3) == Some(SpellMissInfo::Dodge),
        spec_miss_info(4) == Some(SpellMissInfo::Parry),
        spec_miss_info(5) == Some(SpellMissInfo::Block),
        spec_miss_info(6) == Some(SpellMissInfo::Evade),
        spec_miss_info(7) == Some(SpellMissInfo::Immune),
        spec_miss_info(8) == Some(SpellMissInfo::Immune2),
        spec_miss_info(9) == Some(SpellMissInfo::Deflect),
        spec_miss_info(10) == Some(SpellMissInfo::Absorb),
        spec_miss_info(11) == Some(SpellMissInfo::Reflect),
        v > 11 ==> spec_miss_info(v) is None,
{
}

/// A miss entry is the eight-byte GUID, the condition byte after it, and,
/// only for a reflected spell, one more byte.
pub proof fn law_miss_entry_layout(s: Seq<u8>, pos: int)
    requires
        0 <= pos,
        pos + 9 <= s.len(),
        spec_miss_info(s[pos + 8]) is Some,
    ensures
        ({
            let cond = spec_miss_info(s[pos + 8])->Some_0;
            let width: int = if s[pos + 8] == 11 { 10 } else { 9 };
            &&& spec_miss_entry(s, pos) is Ok <==> pos + width <= s.len()
            &&& pos + width <= s.len() ==> spec_miss_entry(s, pos) == Ok::<(MissEntry, int), ParseError>(
                (
                    MissEntry {
                        target_guid: le_u64(s, pos),
                        miss_condition: cond,
                        reflect_result: if s[pos + 8] == 11 { Some(s[pos + 9]) } else { None },
                    },
                    pos + width,
                ),
            )
        }),
{
}

/// Where the fields of SMSG_SPELL_GO lie: each block starts where the one
/// before it ends. After the two packed GUIDs come the cast count (one byte),
/// the spell id, the cast flags and the timestamp (four bytes each), the hit
/// and missed targets and the spell targets; then, each only where
/// announced, the predicted power (four bytes), the runes, the missile
/// adjustment, the ammunition and the visual chain (eight bytes each), the
/// destination counter (one byte) and the extra targets.
pub open spec fn spell_go_layout(s: Seq<u8>) -> SpecParsed<IncomingModel> {
    match spec_packed_guid(s, 0) {
        Err(e) => Err(e),
        Ok((source_guid, p0)) => match spec_packed_guid(s, p0) {
            Err(e) => Err(e),
            Ok((caster_guid, p1)) => if p1 + 13 > s.len() {
                Err(ParseError::UnexpectedEnd)
            } else {
                let flags = le_u32(s, p1 + 5);
                match spec_spell_go_targets(s, p1 + 13) {
                    Err(e) => Err(e),
                    Ok((spell_go_targets, q1)) => match spec_spell_targets(s, q1) {
                        Err(e) => Err(e),
                        Ok((targets, q2)) => {
                            let power = flags & 0x800 == 0x800;
                            let runes = flags & 0x20_0000 == 0x20_0000;
                            let missile = flags & 0x2_0000 == 0x2_0000;
                            let ammo = flags & 0x20 == 0x20;
                            let chain = flags & 0x8_0000 == 0x8_0000;
                            let dest = le_u32(s, q1) & 0x40 != 0;
                            let extra = le_u32(s, q1) & 0x8_0000 != 0;
                            let q3 = q2 + if power { 4int } else { 0int };
                            let runes_read = spec_predicted_runes(s, q3);
                            let q4 = if runes { runes_read->Ok_0.1 } else { q3 };
                            let q5 = q4 + if missile { 8int } else { 0int };
                            let q6 = q5 + if ammo { 8int } else { 0int };
                            let q7 = q6 + if chain { 8int } else { 0int };
                            let q8 = q7 + if dest { 1int } else { 0int };
                            let extra_read = spec_visual_chain_targets(s, q8);
                            let q9 = if extra { extra_read->Ok_0.1 } else { q8 };
                            if (runes && runes_read is Err) || (extra && extra_read is Err) || q9 > s.len() {
                                Err(ParseError::UnexpectedEnd)
                            } else {
                                Ok(
                                    (
                                        IncomingModel {
                                            source_guid,
                                            caster_guid,
                                            cast_count: s[p1],
                                            spell_id: le_u32(s, p1 + 1),
                                            cast_flags: CastFlags { bits: flags },
                                            timestamp: le_u32(s, p1 + 9),
                                            spell_go_targets,
                                            targets,
                                            predicted_power: if power { Some(le_u32(s, q2)) } else { None },
                                            runes: if runes { Some(runes_read->Ok_0.0) } else { None },
                                            missile: if missile {
                                                Some(AdjustMissile { elevation_bits: le_u32(s, q4), delay: le_u32(s, q4 + 4) })
                                            } else {
                                                None
                                            },
                                            ammo: if ammo {
                                                Some(AmmoInfo { display_id: le_u32(s, q5), inventory_type: le_u32(s, q5 + 4) })
                                            } else {
                                                None
                                            },
                                            visual_chain: if chain {
                                                Some(VisualChain { first: le_u32(s, q6), second: le_u32(s, q6 + 4) })
                                            } else {
                                                None
                                            },
                                            dest_loc_counter: if dest { Some(s[q7]) } else { None },
                                            visual_chain_targets: if extra { Some(extra_read->Ok_0.0) } else { None },
                                        },
                                        q9,
                                    ),
                                )
                            }
                        },
                    },
                }
            },
        },
    }
}

proof fn lemma_guid_list_bounds(s: Seq<u8>, pos: int, remaining: nat, acc: Seq<u64>)
    requires
        0 <= pos <= s.len(),
    ensures
        spec_guid_list(s, pos, remaining, acc) is Ok ==> pos <= spec_guid_list(s, pos, remaining, acc)->Ok_0.1 <= s.len(),
    decreases remaining,
{
    if remaining > 0 && pos + 8 <= s.len() {
        lemma_guid_list_bounds(s, pos + 8, (remaining - 1) as nat, acc.push(le_u64(s, pos)));
    }
}

proof fn lemma_miss_list_bounds(s: Seq<u8>, pos: int, remaining: nat, acc: Seq<MissEntry>)
    requires
        0 <= pos <= s.len(),
    ensures
        spec_miss_list(s, pos, remaining, acc) is Ok ==> pos <= spec_miss_list(s, pos, remaining, acc)->Ok_0.1 <= s.len(),
    decreases remaining,
{
    if remaining > 0 {
        if let Ok((m, p)) = spec_miss_entry(s, pos) {
            lemma_miss_list_bounds(s, p, (remaining - 1) as nat, acc.push(m));
        }
    }
}

/// The hit and missed targets take at least their two counts and lie within
/// the buffer.
pub proof fn lemma_spell_go_targets_bounds(s: Seq<u8>, pos: int)
    ensures
        spec_spell_go_targets(s, pos) is Ok ==> 0 <= pos && pos + 2 <= spec_spell_go_targets(s, pos)->Ok_0.1 <= s.len(),
{
    if 0 <= pos < s.len() {
        lemma_guid_list_bounds(s, pos + 1, s[pos] as nat, Seq::empty());
        if let Ok((_, p1)) = spec_guid_list(s, pos + 1, s[pos] as nat, Seq::empty()) {
            if 0 <= p1 < s.len() {
                lemma_miss_list_bounds(s, p1 + 1, s[p1] as nat, Seq::empty());
            }
        }
    }
}

/// SMSG_SPELL_GO is read as its layout says: the same fields at the same
/// positions, the same number of bytes taken, and an error exactly where the
/// layout does not fit.
#[verifier::rlimit(60)]
pub proof fn law_spell_go_layout(s: Seq<u8>)
    ensures
        spec_spell_go(s, 0) == spell_go_layout(s),
{
    lemma_packed_guid_bounds(s, 0);
    if let Ok((_, p0)) = spec_packed_guid(s, 0) {
        lemma_packed_guid_bounds(s, p0);
        if let Ok((_, p1)) = spec_packed_guid(s, p0) {
            if p1 + 13 <= s.len() {
                lemma_spell_go_targets_bounds(s, p1 + 13);
                if let Ok((_, q1)) = spec_spell_go_targets(s, p1 + 13) {
                    lemma_spell_targets_bounds(s, q1);
                    if let Ok((targets, q2)) = spec_spell_targets(s, q1) {
                        let flags = le_u32(s, p1 + 5);
                        let power = flags & 0x800 == 0x800;
                        let runes = flags & 0x20_0000 == 0x20_0000;
                        let missile = flags & 0x2_0000 == 0x2_0000;
                        let ammo = flags & 0x20 == 0x20;
                        let chain = flags & 0x8_0000 == 0x8_0000;
                        let dest = le_u32(s, q1) & 0x40 != 0;
                        let q3 = q2 + if power { 4int } else { 0int };
                        lemma_runes_bounds(s, q3);
                        let q4 = if runes { spec_predicted_runes(s, q3)->Ok_0.1 } else { q3 };
                        let q5 = q4 + if missile { 8int } else { 0int };
                        let q6 = q5 + if ammo { 8int } else { 0int };
                        let q7 = q6 + if chain { 8int } else { 0int };
                        let q8 = q7 + if dest { 1int } else { 0int };
                        lemma_visual_chain_targets_bounds(s, q8);
                        assert(targets.target_mask == le_u32(s, q1));
                        assert(targets.has_dest_location == dest);
                        let cf = CastFlags { bits: flags };
                        assert(cf.spec_contains(CAST_FLAG_PREDICTED_POWER) == power);
                        assert(cf.spec_contains(CAST_FLAG_PREDICTED_RUNES) == runes);
                        assert(cf.spec_contains(CAST_FLAG_ADJUST_MISSILE) == missile);
                        assert(cf.spec_contains(CAST_FLAG_AMMO) == ammo);
                        assert(cf.spec_contains(CAST_FLAG_VISUAL_CHAIN) == chain);
                        assert(spec_spell_go_head(s, 0) == Ok::<((PackedGuid, PackedGuid, u8, u32, CastFlags, u32), int), ParseError>(
                            ((spec_packed_guid(s, 0)->Ok_0.0, spec_packed_guid(s, p0)->Ok_0.0, s[p1], le_u32(s, p1 + 1), cf, le_u32(s, p1 + 9)), p1 + 13),
                        ));
                    }
                }
            }
        }
    }
}

proof fn lemma_guid_list_layout(s: Seq<u8>, start: int, remaining: nat, acc: Seq<u64>)
    requires
        0 <= start,
        start + 8 * acc.len() <= s.len(),
        forall|k: int| 0 <= k < acc.len() ==> acc[k] == le_u64(s, start + 8 * k),
    ensures
        ({
            let q = start + 8 * acc.len();
            let r = spec_guid_list(s, q, remaining, acc);
            &&& r is Ok <==> q + 8 * remaining <= s.len()
            &&& r is Ok ==> {
                &&& r->Ok_0.1 == q + 8 * remaining
                &&& r->Ok_0.0.len() == acc.len() + remaining
                &&& forall|k: int| 0 <= k < r->Ok_0.0.len() ==> r->Ok_0.0[k] == le_u64(s, start + 8 * k)
            }
        }),
    decreases remaining,
{
    let q = start + 8 * acc.len();
    if remaining > 0 && q + 8 <= s.len() {
        let next = acc.push(le_u64(s, q));
        assert forall|k: int| 0 <= k < next.len() implies next[k] == le_u64(s, start + 8 * k) by {
            if k == acc.len() {
            }
        }
        lemma_guid_list_layout(s, start, (remaining - 1) as nat, next);
        assert(start + 8 * next.len() == q + 8);
    }
}

/// The hit and missed targets: the hit count byte, then that many eight-byte
/// GUIDs (hit `k` starting `8 * k` bytes after the count), then the miss
/// count byte and that many miss entries.
pub proof fn law_spell_go_targets_layout(s: Seq<u8>, pos: int)
    requires
        0 <= pos < s.len(),
    ensures
        ({
            let hits = s[pos] as int;
            let r = spec_spell_go_targets(s, pos);
            let at_misses = pos + 1 + 8 * hits;
            &&& pos + 2 + 8 * hits > s.len() ==> r is Err
            &&& pos + 2 + 8 * hits <= s.len() ==> {
                let misses = spec_miss_list(s, at_misses + 1, s[at_misses] as nat, Seq::empty());
                &&& r is Ok <==> misses is Ok
                &&& r is Ok ==> {
                    &&& r->Ok_0.0.hit_count == s[pos]
                    &&& r->Ok_0.0.hit_guids.len() == hits
                    &&& forall|k: int| 0 <= k < hits ==> r->Ok_0.0.hit_guids[k] == le_u64(s, pos + 1 + 8 * k)
                    &&& r->Ok_0.0.miss_count == s[at_misses]
                    &&& r->Ok_0.0.misses == misses->Ok_0.0
                    &&& r->Ok_0.1 == misses->Ok_0.1
                }
            }
        }),
{
    lemma_guid_list_layout(s, pos + 1, s[pos] as nat, Seq::empty());
}

} // verus!
