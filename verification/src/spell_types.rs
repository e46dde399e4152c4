//! Fields shared by the spell packets: cast flags, spell targets and the
//! optional blocks that cast flags announce.
use vstd::prelude::*;
use crate::wire::{
    ParseError, PackedGuid, Position, SpecParsed, le_u32, le_u64, parsed_as, parsed_view, read_cstring, read_packed_guid,
    read_position, read_u32, read_u64, read_u8, spec_cstring, spec_cstring_from, lemma_cstring_bounds, lemma_packed_guid_bounds, spec_packed_guid, spec_position, spec_u32, spec_u64, spec_u8,
};

verus! {

/// The flags of a spell cast.
#[derive(Debug, Clone, Copy, PartialEq, Eq, Structural)]
pub struct CastFlags {
    pub bits: u32,
}

/// Flag: the packet carries the ammunition used.
pub const CAST_FLAG_AMMO: u32 = 0x20;
/// Flag: the packet carries the caster's power after the cast.
pub const CAST_FLAG_PREDICTED_POWER: u32 = 0x800;
/// Flag: the packet carries a missile adjustment.
pub const CAST_FLAG_ADJUST_MISSILE: u32 = 0x2_0000;
/// Flag: the packet carries a visual chain.
pub const CAST_FLAG_VISUAL_CHAIN: u32 = 0x8_0000;
/// Flag: the packet carries the runes spent.
pub const CAST_FLAG_PREDICTED_RUNES: u32 = 0x20_0000;
/// Flag: the packet carries immunities.
pub const CAST_FLAG_IMMUNITY: u32 = 0x400_0000;

impl CastFlags {
    /// The flags as the packet holds them.
    pub open spec fn spec_bits(self) -> u32 {
        self.bits
    }

    /// The flags that `bits` holds.
    pub fn from_bits(bits: u32) -> (f: CastFlags)
        ensures
            f.spec_bits() == bits,
    {
        CastFlags { bits }
    }

    /// The flags as the packet holds them.
    pub fn bits(&self) -> (b: u32)
        ensures
            b == self.spec_bits(),
    {
        self.bits
    }

    /// The flags of both.
    pub fn union(&self, other: CastFlags) -> (f: CastFlags)
        ensures
            f.spec_bits() == self.spec_bits() | other.spec_bits(),
    {
        CastFlags { bits: self.bits | other.bits }
    }

    /// Whether every bit of `flag` is set.
    pub open spec fn spec_contains(self, flag: u32) -> bool {
        self.bits & flag == flag
    }

    /// Whether every bit of `flag` is set.
    pub fn contains(&self, flag: u32) -> (b: bool)
        ensures
            b == self.spec_contains(flag),
    {
        self.bits & flag == flag
    }
}

/// Target flag: a unit.
pub const TARGET_FLAG_UNIT: u32 = 0x2;
/// Target flag: an item.
pub const TARGET_FLAG_ITEM: u32 = 0x10;
/// Target flag: a source location.
pub const TARGET_FLAG_SOURCE_LOCATION: u32 = 0x20;
/// Target flag: a destination location.
pub const TARGET_FLAG_DEST_LOCATION: u32 = 0x40;
/// Target flag: an enemy corpse.
pub const TARGET_FLAG_CORPSE_ENEMY: u32 = 0x200;
/// Target flag: a game object.
pub const TARGET_FLAG_GAMEOBJECT: u32 = 0x800;
/// Target flag: an item in a trade window.
pub const TARGET_FLAG_TRADE_ITEM: u32 = 0x1000;
/// Target flag: a name.
pub const TARGET_FLAG_STRING: u32 = 0x2000;
/// Target flag: an allied corpse.
pub const TARGET_FLAG_CORPSE_ALLY: u32 = 0x8000;
/// Target flag: a minipet.
pub const TARGET_FLAG_UNIT_MINIPET: u32 = 0x1_0000;
/// Target flag: extra targets of a visual chain follow the spell-go packet.
pub const TARGET_FLAG_VISUAL_CHAIN: u32 = 0x8_0000;
/// The target flags that bring an object GUID.
pub const OBJECT_TARGET_FLAGS: u32 = 0x1_8A02;
/// The target flags that bring an item GUID.
pub const ITEM_TARGET_FLAGS: u32 = 0x1010;

/// The targets of a spell.
#[derive(Debug)]
pub struct SpellTargets {
    pub target_mask: u32,
    pub unit_target: Option<PackedGuid>,
    pub item_target: Option<PackedGuid>,
    pub source_transport: Option<PackedGuid>,
    pub source_location: Option<Position>,
    pub dest_transport: Option<PackedGuid>,
    pub dest_location: Option<Position>,
    pub target_string: Option<Vec<u8>>,
    pub has_dest_location: bool,
    pub has_visual_chain_targets: bool,
}

/// The targets of a spell, the name as a sequence.
pub struct SpellTargetsModel {
    pub target_mask: u32,
    pub unit_target: Option<PackedGuid>,
    pub item_target: Option<PackedGuid>,
    pub source_transport: Option<PackedGuid>,
    pub source_location: Option<Position>,
    pub dest_transport: Option<PackedGuid>,
    pub dest_location: Option<Position>,
    pub target_string: Option<Seq<u8>>,
    pub has_dest_location: bool,
    pub has_visual_chain_targets: bool,
}

impl View for SpellTargets {
    type V = SpellTargetsModel;

    open spec fn view(&self) -> SpellTargetsModel {
        SpellTargetsModel {
            target_mask: self.target_mask,
            unit_target: self.unit_target,
            item_target: self.item_target,
            source_transport: self.source_transport,
            source_location: self.source_location,
            dest_transport: self.dest_transport,
            dest_location: self.dest_location,
            target_string: match self.target_string {
                Some(v) => Some(v@),
                None => None,
            },
            has_dest_location: self.has_dest_location,
            has_visual_chain_targets: self.has_visual_chain_targets,
        }
    }
}

/// A packed GUID where `present`, nothing otherwise.
pub open spec fn spec_opt_guid(s: Seq<u8>, pos: int, present: bool) -> SpecParsed<Option<PackedGuid>> {
    if !present {
        Ok((None, pos))
    } else {
        match spec_packed_guid(s, pos) {
            Err(e) => Err(e),
            Ok((g, p)) => Ok((Some(g), p)),
        }
    }
}

/// A transport GUID and a position where `present`, nothing otherwise.
pub open spec fn spec_opt_location(s: Seq<u8>, pos: int, present: bool) -> SpecParsed<
    (Option<PackedGuid>, Option<Position>),
> {
    if !present {
        Ok(((None, None), pos))
    } else {
        match spec_packed_guid(s, pos) {
            Err(e) => Err(e),
            Ok((g, p)) => match spec_position(s, p) {
                Err(e) => Err(e),
                Ok((l, q)) => Ok(((Some(g), Some(l)), q)),
            },
        }
    }
}

/// A zero-terminated name where `present`, nothing otherwise.
pub open spec fn spec_opt_cstring(s: Seq<u8>, pos: int, present: bool) -> SpecParsed<Option<Seq<u8>>> {
    if !present {
        Ok((None, pos))
    } else {
        match spec_cstring(s, pos) {
            Err(e) => Err(e),
            Ok((v, p)) => Ok((Some(v), p)),
        }
    }
}

/// The targets of a spell: the target mask, then an object GUID, an item
/// GUID, a source location, a destination location and a name, each where the
/// mask announces it.
pub open spec fn spec_spell_targets(s: Seq<u8>, pos: int) -> SpecParsed<SpellTargetsModel> {
    match spec_u32(s, pos) {
        Err(e) => Err(e),
        Ok((mask, p0)) => match spec_opt_guid(s, p0, mask & OBJECT_TARGET_FLAGS != 0) {
            Err(e) => Err(e),
            Ok((unit_target, p1)) => match spec_opt_guid(s, p1, mask & ITEM_TARGET_FLAGS != 0) {
                Err(e) => Err(e),
                Ok((item_target, p2)) => match spec_opt_location(
                    s,
                    p2,
                    mask & TARGET_FLAG_SOURCE_LOCATION != 0,
                ) {
                    Err(e) => Err(e),
                    Ok(((source_transport, source_location), p3)) => match spec_opt_location(
                        s,
                        p3,
                        mask & TARGET_FLAG_DEST_LOCATION != 0,
                    ) {
                        Err(e) => Err(e),
                        Ok(((dest_transport, dest_location), p4)) => match spec_opt_cstring(
                            s,
                            p4,
                            mask & TARGET_FLAG_STRING != 0,
                        ) {
                            Err(e) => Err(e),
                            Ok((target_string, p5)) => Ok(
                                (
                                    SpellTargetsModel {
                                        target_mask: mask,
                                        unit_target,
                                        item_target,
                                        source_transport,
                                        source_location,
                                        dest_transport,
                                        dest_location,
                                        target_string,
                                        has_dest_location: mask & TARGET_FLAG_DEST_LOCATION != 0,
                                        has_visual_chain_targets: mask & TARGET_FLAG_VISUAL_CHAIN != 0,
                                    },
                                    p5,
                                ),
                            ),
                        },
                    },
                },
            },
        },
    }
}

fn read_opt_guid(data: &[u8], pos: usize, present: bool) -> (res: Result<(Option<PackedGuid>, usize), ParseError>)
    ensures
        parsed_as(res, spec_opt_guid(data@, pos as int, present)),
{
    if present {
        let (g, p) = read_packed_guid(data, pos)?;
        Ok((Some(g), p))
    } else {
        Ok((None, pos))
    }
}

fn read_opt_location(data: &[u8], pos: usize, present: bool) -> (res: Result<
    ((Option<PackedGuid>, Option<Position>), usize),
    ParseError,
>)
    ensures
        parsed_as(res, spec_opt_location(data@, pos as int, present)),
{
    if present {
        let (g, p) = read_packed_guid(data, pos)?;
        let (l, q) = read_position(data, p)?;
        Ok(((Some(g), Some(l)), q))
    } else {
        Ok(((None, None), pos))
    }
}

fn read_opt_cstring(data: &[u8], pos: usize, present: bool) -> (res: Result<(Option<Vec<u8>>, usize), ParseError>)
    ensures
        match (res, spec_opt_cstring(data@, pos as int, present)) {
            (Ok((v, p)), Ok((sv, sp))) => p == sp && match (v, sv) {
                (Some(a), Some(b)) => a@ == b,
                (None, None) => true,
                _ => false,
            },
            (Err(e), Err(se)) => e == se,
            _ => false,
        },
{
    if present {
        let (v, p) = read_cstring(data, pos)?;
        Ok((Some(v), p))
    } else {
        Ok((None, pos))
    }
}

impl SpellTargets {
    /// Reads the targets of a spell at `pos`.
    pub fn parse(data: &[u8], pos: usize) -> (res: Result<(SpellTargets, usize), ParseError>)
        ensures
            parsed_view(res, spec_spell_targets(data@, pos as int)),
    {
        let (mask, p0) = read_u32(data, pos)?;
        let (unit_target, p1) = read_opt_guid(data, p0, mask & OBJECT_TARGET_FLAGS != 0)?;
        let (item_target, p2) = read_opt_guid(data, p1, mask & ITEM_TARGET_FLAGS != 0)?;
        let ((source_transport, source_location), p3) = read_opt_location(
            data,
            p2,
            mask & TARGET_FLAG_SOURCE_LOCATION != 0,
        )?;
        let ((dest_transport, dest_location), p4) = read_opt_location(
            data,
            p3,
            mask & TARGET_FLAG_DEST_LOCATION != 0,
        )?;
        let (target_string, p5) = read_opt_cstring(data, p4, mask & TARGET_FLAG_STRING != 0)?;
        let targets = SpellTargets {
            target_mask: mask,
            unit_target,
            item_target,
            source_transport,
            source_location,
            dest_transport,
            dest_location,
            target_string,
            has_dest_location: mask & TARGET_FLAG_DEST_LOCATION != 0,
            has_visual_chain_targets: mask & TARGET_FLAG_VISUAL_CHAIN != 0,
        };
        Ok((targets, p5))
    }
}

/// Number of runes a caster has.
pub const MAX_RUNES: u8 = 6;

/// Whether rune `rune` is spent: ready before the cast and not after.
pub open spec fn rune_spent(before: u8, after: u8, rune: u8) -> bool {
    (before >> rune) & 1 == 1 && (after >> rune) & 1 == 0
}

/// The cooldown bytes from rune `rune` on, one for each spent rune, after
/// those already in `acc`.
pub open spec fn spec_rune_cooldowns(s: Seq<u8>, pos: int, before: u8, after: u8, rune: u8, acc: Seq<u8>) -> SpecParsed<
    Seq<u8>,
>
    decreases 6 - rune,
{
    if rune >= 6 {
        Ok((acc, pos))
    } else if rune_spent(before, after, rune) {
        match spec_u8(s, pos) {
            Err(e) => Err(e),
            Ok((b, p)) => spec_rune_cooldowns(s, p, before, after, (rune + 1) as u8, acc.push(b)),
        }
    } else {
        spec_rune_cooldowns(s, pos, before, after, (rune + 1) as u8, acc)
    }
}

/// How many of the runes from `rune` to the sixth are spent.
pub open spec fn spent_runes_from(before: u8, after: u8, rune: u8) -> nat
    decreases 6 - rune,
{
    if rune >= 6 {
        0
    } else {
        (if rune_spent(before, after, rune) { 1nat } else { 0nat }) + spent_runes_from(
            before,
            after,
            (rune + 1) as u8,
        )
    }
}

proof fn lemma_rune_cooldowns(s: Seq<u8>, pos: int, before: u8, after: u8, rune: u8, acc: Seq<u8>)
    requires
        rune <= 6,
        0 <= pos <= s.len(),
        spec_rune_cooldowns(s, pos, before, after, rune, acc) is Ok,
    ensures
        ({
            let (cooldowns, p) = spec_rune_cooldowns(s, pos, before, after, rune, acc)->Ok_0;
            &&& p == pos + spent_runes_from(before, after, rune)
            &&& p <= s.len()
            &&& cooldowns == acc + s.subrange(pos, p)
        }),
    decreases 6 - rune,
{
    if rune >= 6 {
        assert(acc + s.subrange(pos, pos) =~= acc);
    } else if rune_spent(before, after, rune) {
        lemma_rune_cooldowns(s, pos + 1, before, after, (rune + 1) as u8, acc.push(s[pos]));
        let (cooldowns, p) = spec_rune_cooldowns(s, pos, before, after, rune, acc)->Ok_0;
        assert(acc.push(s[pos]) + s.subrange(pos + 1, p) =~= acc + s.subrange(pos, p));
    } else {
        lemma_rune_cooldowns(s, pos, before, after, (rune + 1) as u8, acc);
    }
}

/// The runes block reads only the cooldowns of spent runes: after the two
/// masks come exactly as many cooldown bytes as the cast spent runes (ready
/// before, not after), and nothing more.
pub proof fn law_runes_read_spent_only(s: Seq<u8>, pos: int)
    requires
        0 <= pos,
        spec_predicted_runes(s, pos) is Ok,
    ensures
        ({
            let (runes, p) = spec_predicted_runes(s, pos)->Ok_0;
            &&& runes.rune_mask_before == s[pos]
            &&& runes.rune_mask_after == s[pos + 1]
            &&& p == pos + 2 + spent_runes_from(runes.rune_mask_before, runes.rune_mask_after, 0)
            &&& runes.cooldowns == s.subrange(pos + 2, p)
        }),
{
    let before = s[pos];
    let after = s[pos + 1];
    lemma_rune_cooldowns(s, pos + 2, before, after, 0, Seq::empty());
    let (cooldowns, p) = spec_rune_cooldowns(s, pos + 2, before, after, 0, Seq::empty())->Ok_0;
    assert(Seq::<u8>::empty() + s.subrange(pos + 2, p) =~= s.subrange(pos + 2, p));
}

/// The runes that a cast spends.
#[derive(Debug)]
pub struct PredictedRunes {
    pub rune_mask_before: u8,
    pub rune_mask_after: u8,
    pub cooldowns: Vec<u8>,
}

/// The runes that a cast spends, the cooldowns as a sequence.
pub struct PredictedRunesModel {
    pub rune_mask_before: u8,
    pub rune_mask_after: u8,
    pub cooldowns: Seq<u8>,
}

impl View for PredictedRunes {
    type V = PredictedRunesModel;

    open spec fn view(&self) -> PredictedRunesModel {
        PredictedRunesModel {
            rune_mask_before: self.rune_mask_before,
            rune_mask_after: self.rune_mask_after,
            cooldowns: self.cooldowns@,
        }
    }
}

/// The runes ready before the cast, those ready after, and a cooldown byte
/// for each of the six runes that is spent, in rune order.
pub open spec fn spec_predicted_runes(s: Seq<u8>, pos: int) -> SpecParsed<PredictedRunesModel> {
    match spec_u8(s, pos) {
        Err(e) => Err(e),
        Ok((before, p0)) => match spec_u8(s, p0) {
            Err(e) => Err(e),
            Ok((after, p1)) => match spec_rune_cooldowns(s, p1, before, after, 0, Seq::empty()) {
                Err(e) => Err(e),
                Ok((cooldowns, p2)) => Ok(
                    (PredictedRunesModel { rune_mask_before: before, rune_mask_after: after, cooldowns }, p2),
                ),
            },
        },
    }
}

impl PredictedRunes {
    /// Reads the runes block at `pos`.
    pub fn parse(data: &[u8], pos: usize) -> (res: Result<(PredictedRunes, usize), ParseError>)
        ensures
            parsed_view(res, spec_predicted_runes(data@, pos as int)),
    {
        let (before, p0) = read_u8(data, pos)?;
        let (after, p1) = read_u8(data, p0)?;
        let mut cooldowns: Vec<u8> = Vec::new();
        let mut p: usize = p1;
        let mut rune: u8 = 0;
        while rune < MAX_RUNES
            invariant
                rune <= 6,
                spec_u8(data@, pos as int) == Ok::<(u8, int), ParseError>((before, p0 as int)),
                spec_u8(data@, p0 as int) == Ok::<(u8, int), ParseError>((after, p1 as int)),
                spec_rune_cooldowns(data@, p1 as int, before, after, 0, Seq::empty()) == spec_rune_cooldowns(
                    data@,
                    p as int,
                    before,
                    after,
                    rune,
                    cooldowns@,
                ),
            decreases 6 - rune,
        {
            if (before >> rune) & 1 == 1 && (after >> rune) & 1 == 0 {
                let (b, next) = read_u8(data, p)?;
                cooldowns.push(b);
                p = next;
            }
            rune = rune + 1;
        }
        Ok((PredictedRunes { rune_mask_before: before, rune_mask_after: after, cooldowns }, p))
    }
}

/// A missile adjustment: the elevation (an IEEE-754 single, as its bit
/// pattern) and the delay.
#[derive(Debug, Clone, Copy, PartialEq, Eq, Structural)]
pub struct AdjustMissile {
    pub elevation_bits: u32,
    pub delay: u32,
}

/// The elevation and the delay, four bytes each.
pub open spec fn spec_adjust_missile(s: Seq<u8>, pos: int) -> SpecParsed<AdjustMissile> {
    match spec_u32(s, pos) {
        Err(e) => Err(e),
        Ok((elevation_bits, p)) => match spec_u32(s, p) {
            Err(e) => Err(e),
            Ok((delay, q)) => Ok((AdjustMissile { elevation_bits, delay }, q)),
        },
    }
}

impl AdjustMissile {
    /// Reads a missile adjustment at `pos`.
    pub fn parse(data: &[u8], pos: usize) -> (res: Result<(AdjustMissile, usize), ParseError>)
        ensures
            parsed_as(res, spec_adjust_missile(data@, pos as int)),
    {
        let (elevation_bits, p) = read_u32(data, pos)?;
        let (delay, q) = read_u32(data, p)?;
        Ok((AdjustMissile { elevation_bits, delay }, q))
    }
}

/// The ammunition of a ranged cast.
#[derive(Debug, Clone, Copy, PartialEq, Eq, Structural)]
pub struct AmmoInfo {
    pub display_id: u32,
    pub inventory_type: u32,
}

/// The display id and the inventory type, four bytes each.
pub open spec fn spec_ammo_info(s: Seq<u8>, pos: int) -> SpecParsed<AmmoInfo> {
    match spec_u32(s, pos) {
        Err(e) => Err(e),
        Ok((display_id, p)) => match spec_u32(s, p) {
            Err(e) => Err(e),
            Ok((inventory_type, q)) => Ok((AmmoInfo { display_id, inventory_type }, q)),
        },
    }
}

impl AmmoInfo {
    /// Reads ammunition at `pos`.
    pub fn parse(data: &[u8], pos: usize) -> (res: Result<(AmmoInfo, usize), ParseError>)
        ensures
            parsed_as(res, spec_ammo_info(data@, pos as int)),
    {
        let (display_id, p) = read_u32(data, pos)?;
        let (inventory_type, q) = read_u32(data, p)?;
        Ok((AmmoInfo { display_id, inventory_type }, q))
    }

    /// No ammunition: both fields zero.
    pub fn empty() -> (a: AmmoInfo)
        ensures
            a == (AmmoInfo { display_id: 0, inventory_type: 0 }),
    {
        AmmoInfo { display_id: 0, inventory_type: 0 }
    }
}

/// The ammunition and immunity blocks are fixed width: each is read exactly
/// when eight bytes are there, and takes those eight bytes.
pub proof fn law_fixed_width_blocks(s: Seq<u8>, pos: int)
    ensures
        spec_ammo_info(s, pos) is Ok <==> (0 <= pos && pos + 8 <= s.len()),
        spec_ammo_info(s, pos) is Ok ==> spec_ammo_info(s, pos)->Ok_0.1 == pos + 8,
        spec_spell_immunity(s, pos) is Ok <==> (0 <= pos && pos + 8 <= s.len()),
        spec_spell_immunity(s, pos) is Ok ==> spec_spell_immunity(s, pos)->Ok_0.1 == pos + 8,
{
}

/// The two values of a visual chain.
#[derive(Debug, Clone, Copy, PartialEq, Eq, Structural)]
pub struct VisualChain {
    pub first: u32,
    pub second: u32,
}

/// Two values, four bytes each.
pub open spec fn spec_visual_chain(s: Seq<u8>, pos: int) -> SpecParsed<VisualChain> {
    match spec_u32(s, pos) {
        Err(e) => Err(e),
        Ok((first, p)) => match spec_u32(s, p) {
            Err(e) => Err(e),
            Ok((second, q)) => Ok((VisualChain { first, second }, q)),
        },
    }
}

impl VisualChain {
    /// Reads a visual chain at `pos`.
    pub fn parse(data: &[u8], pos: usize) -> (res: Result<(VisualChain, usize), ParseError>)
        ensures
            parsed_as(res, spec_visual_chain(data@, pos as int)),
    {
        let (first, p) = read_u32(data, pos)?;
        let (second, q) = read_u32(data, p)?;
        Ok((VisualChain { first, second }, q))
    }
}

/// The immunities that a cast grants.
#[derive(Debug, Clone, Copy, PartialEq, Eq, Structural)]
pub struct SpellImmunity {
    pub school_immunity_mask: u32,
    pub mechanic_immunity_mask: u32,
}

/// The school mask and the mechanic mask, four bytes each.
pub open spec fn spec_spell_immunity(s: Seq<u8>, pos: int) -> SpecParsed<SpellImmunity> {
    match spec_u32(s, pos) {
        Err(e) => Err(e),
        Ok((school_immunity_mask, p)) => match spec_u32(s, p) {
            Err(e) => Err(e),
            Ok((mechanic_immunity_mask, q)) => Ok((SpellImmunity { school_immunity_mask, mechanic_immunity_mask }, q)),
        },
    }
}

impl SpellImmunity {
    /// Reads immunities at `pos`.
    pub fn parse(data: &[u8], pos: usize) -> (res: Result<(SpellImmunity, usize), ParseError>)
        ensures
            parsed_as(res, spec_spell_immunity(data@, pos as int)),
    {
        let (school_immunity_mask, p) = read_u32(data, pos)?;
        let (mechanic_immunity_mask, q) = read_u32(data, p)?;
        Ok((SpellImmunity { school_immunity_mask, mechanic_immunity_mask }, q))
    }

    /// No immunities: both masks zero.
    pub fn empty() -> (i: SpellImmunity)
        ensures
            i == (SpellImmunity { school_immunity_mask: 0, mechanic_immunity_mask: 0 }),
    {
        SpellImmunity { school_immunity_mask: 0, mechanic_immunity_mask: 0 }
    }
}

/// One extra target of a visual chain: a position and a GUID.
#[derive(Debug, Clone, Copy, PartialEq, Eq, Structural)]
pub struct ExtraTarget {
    pub position: Position,
    pub guid: u64,
}

/// `remaining` more extra targets after those in `acc`, twenty bytes each.
pub open spec fn spec_extra_targets(s: Seq<u8>, pos: int, remaining: nat, acc: Seq<ExtraTarget>) -> SpecParsed<
    Seq<ExtraTarget>,
>
    decreases remaining,
{
    if remaining == 0 {
        Ok((acc, pos))
    } else {
        match spec_position(s, pos) {
            Err(e) => Err(e),
            Ok((position, p)) => match spec_u64(s, p) {
                Err(e) => Err(e),
                Ok((guid, q)) => spec_extra_targets(
                    s,
                    q,
                    (remaining - 1) as nat,
                    acc.push(ExtraTarget { position, guid }),
                ),
            },
        }
    }
}

/// The extra targets of a visual chain.
#[derive(Debug)]
pub struct VisualChainTargets {
    pub targets: Vec<ExtraTarget>,
}

impl View for VisualChainTargets {
    type V = Seq<ExtraTarget>;

    open spec fn view(&self) -> Seq<ExtraTarget> {
        self.targets@
    }
}

/// A four-byte count, then that many extra targets.
pub open spec fn spec_visual_chain_targets(s: Seq<u8>, pos: int) -> SpecParsed<Seq<ExtraTarget>> {
    match spec_u32(s, pos) {
        Err(e) => Err(e),
        Ok((count, p)) => spec_extra_targets(s, p, count as nat, Seq::empty()),
    }
}

impl VisualChainTargets {
    /// Reads the extra targets at `pos`.
    pub fn parse(data: &[u8], pos: usize) -> (res: Result<(VisualChainTargets, usize), ParseError>)
        ensures
            parsed_view(res, spec_visual_chain_targets(data@, pos as int)),
    {
        let (count, p0) = read_u32(data, pos)?;
        let mut targets: Vec<ExtraTarget> = Vec::new();
        let mut p: usize = p0;
        let mut k: u32 = 0;
        while k < count
            invariant
                k <= count,
                spec_visual_chain_targets(data@, pos as int) == spec_extra_targets(
                    data@,
                    p as int,
                    (count - k) as nat,
                    targets@,
                ),
            decreases count - k,
        {
            let (position, p1) = read_position(data, p)?;
            let (guid, p2) = read_u64(data, p1)?;
            targets.push(ExtraTarget { position, guid });
            p = p2;
            k = k + 1;
        }
        Ok((VisualChainTargets { targets }, p))
    }
}

/// The spell targets take at least their mask and lie within the buffer.
pub proof fn lemma_spell_targets_bounds(s: Seq<u8>, pos: int)
    ensures
        spec_spell_targets(s, pos) is Ok ==> 0 <= pos && pos + 4 <= spec_spell_targets(s, pos)->Ok_0.1 <= s.len(),
{
    if 0 <= pos && pos + 4 <= s.len() {
        let mask = le_u32(s, pos);
        let p0 = pos + 4;
        lemma_packed_guid_bounds(s, p0);
        let p1 = match spec_opt_guid(s, p0, mask & OBJECT_TARGET_FLAGS != 0) {
            Ok((_, p)) => p,
            Err(_) => p0,
        };
        lemma_packed_guid_bounds(s, p1);
        let p2 = match spec_opt_guid(s, p1, mask & ITEM_TARGET_FLAGS != 0) {
            Ok((_, p)) => p,
            Err(_) => p1,
        };
        lemma_packed_guid_bounds(s, p2);
        let p3 = match spec_opt_location(s, p2, mask & TARGET_FLAG_SOURCE_LOCATION != 0) {
            Ok((_, p)) => p,
            Err(_) => p2,
        };
        lemma_packed_guid_bounds(s, p3);
        let p4 = match spec_opt_location(s, p3, mask & TARGET_FLAG_DEST_LOCATION != 0) {
            Ok((_, p)) => p,
            Err(_) => p3,
        };
        lemma_cstring_bounds(s, p4, Seq::empty());
    }
}

proof fn lemma_rune_cooldowns_err(s: Seq<u8>, pos: int, before: u8, after: u8, rune: u8, acc: Seq<u8>)
    ensures
        spec_rune_cooldowns(s, pos, before, after, rune, acc) is Err ==> spec_rune_cooldowns(
            s,
            pos,
            before,
            after,
            rune,
            acc,
        ) == Err::<(Seq<u8>, int), ParseError>(ParseError::UnexpectedEnd),
    decreases 6 - rune,
{
    if rune < 6 {
        if rune_spent(before, after, rune) {
            if 0 <= pos < s.len() {
                lemma_rune_cooldowns_err(s, pos + 1, before, after, (rune + 1) as u8, acc.push(s[pos]));
            }
        } else {
            lemma_rune_cooldowns_err(s, pos, before, after, (rune + 1) as u8, acc);
        }
    }
}

/// The runes block takes at least its two masks and lies within the buffer;
/// the only way it fails is by running out of bytes.
pub proof fn lemma_runes_bounds(s: Seq<u8>, pos: int)
    ensures
        spec_predicted_runes(s, pos) is Ok ==> 0 <= pos && pos + 2 <= spec_predicted_runes(s, pos)->Ok_0.1 <= s.len(),
        spec_predicted_runes(s, pos) is Err ==> spec_predicted_runes(s, pos) == Err::<
            (PredictedRunesModel, int),
            ParseError,
        >(ParseError::UnexpectedEnd),
{
    if 0 <= pos && pos + 2 <= s.len() {
        lemma_rune_cooldowns_err(s, pos + 2, s[pos], s[pos + 1], 0, Seq::empty());
        if spec_rune_cooldowns(s, pos + 2, s[pos], s[pos + 1], 0, Seq::empty()) is Ok {
            lemma_rune_cooldowns(s, pos + 2, s[pos], s[pos + 1], 0, Seq::empty());
        }
    }
}

proof fn lemma_extra_targets_bounds(s: Seq<u8>, pos: int, remaining: nat, acc: Seq<ExtraTarget>)
    requires
        0 <= pos <= s.len(),
    ensures
        spec_extra_targets(s, pos, remaining, acc) is Ok ==> pos <= spec_extra_targets(s, pos, remaining, acc)->Ok_0.1
            <= s.len(),
        spec_extra_targets(s, pos, remaining, acc) is Err ==> spec_extra_targets(s, pos, remaining, acc) == Err::<
            (Seq<ExtraTarget>, int),
            ParseError,
        >(ParseError::UnexpectedEnd),
    decreases remaining,
{
    if remaining > 0 && pos + 20 <= s.len() {
        let position = Position { x_bits: le_u32(s, pos), y_bits: le_u32(s, pos + 4), z_bits: le_u32(s, pos + 8) };
        lemma_extra_targets_bounds(
            s,
            pos + 20,
            (remaining - 1) as nat,
            acc.push(ExtraTarget { position, guid: le_u64(s, pos + 12) }),
        );
    }
}

/// The extra targets take at least their count and lie within the buffer;
/// the only way they fail is by running out of bytes.
pub proof fn lemma_visual_chain_targets_bounds(s: Seq<u8>, pos: int)
    ensures
        spec_visual_chain_targets(s, pos) is Ok ==> 0 <= pos && pos + 4 <= spec_visual_chain_targets(s, pos)->Ok_0.1
            <= s.len(),
        spec_visual_chain_targets(s, pos) is Err ==> spec_visual_chain_targets(s, pos) == Err::<
            (Seq<ExtraTarget>, int),
            ParseError,
        >(ParseError::UnexpectedEnd),
{
    if 0 <= pos && pos + 4 <= s.len() {
        lemma_extra_targets_bounds(s, pos + 4, le_u32(s, pos) as nat, Seq::empty());
    }
}

/// Rune `r` is spent when bit `r` is set in the mask before the cast and
/// clear in the mask after it.
pub proof fn law_rune_spent_bits(before: u8, after: u8)
    ensures
        rune_spent(before, after, 0) <==> ((before / 1) % 2 == 1 && (after / 1) % 2 == 0),
        rune_spent(before, after, 1) <==> ((before / 2) % 2 == 1 && (after / 2) % 2 == 0),
        rune_spent(before, after, 2) <==> ((before / 4) % 2 == 1 && (after / 4) % 2 == 0),
        rune_spent(before, after, 3) <==> ((before / 8) % 2 == 1 && (after / 8) % 2 == 0),
        rune_spent(before, after, 4) <==> ((before / 16) % 2 == 1 && (after / 16) % 2 == 0),
        rune_spent(before, after, 5) <==> ((before / 32) % 2 == 1 && (after / 32) % 2 == 0),
{
    assert(((before >> 0u8) & 1 == 1 && (after >> 0u8) & 1 == 0) <==> ((before / 1) % 2 == 1 && (after / 1) % 2 == 0)) by (bit_vector);
    assert(((before >> 1u8) & 1 == 1 && (after >> 1u8) & 1 == 0) <==> ((before / 2) % 2 == 1 && (after / 2) % 2 == 0)) by (bit_vector);
    assert(((before >> 2u8) & 1 == 1 && (after >> 2u8) & 1 == 0) <==> ((before / 4) % 2 == 1 && (after / 4) % 2 == 0)) by (bit_vector);
    assert(((before >> 3u8) & 1 == 1 && (after >> 3u8) & 1 == 0) <==> ((before / 8) % 2 == 1 && (after / 8) % 2 == 0)) by (bit_vector);
    assert(((before >> 4u8) & 1 == 1 && (after >> 4u8) & 1 == 0) <==> ((before / 16) % 2 == 1 && (after / 16) % 2 == 0)) by (bit_vector);
    assert(((before >> 5u8) & 1 == 1 && (after >> 5u8) & 1 == 0) <==> ((before / 32) % 2 == 1 && (after / 32) % 2 == 0)) by (bit_vector);
}

/// The extra target whose twenty bytes start at `at`: three coordinates,
/// then the eight-byte GUID.
pub open spec fn extra_target_at(s: Seq<u8>, at: int) -> ExtraTarget {
    ExtraTarget {
        position: Position { x_bits: le_u32(s, at), y_bits: le_u32(s, at + 4), z_bits: le_u32(s, at + 8) },
        guid: le_u64(s, at + 12),
    }
}

proof fn lemma_extra_targets_layout(s: Seq<u8>, start: int, remaining: nat, acc: Seq<ExtraTarget>)
    requires
        0 <= start,
        start + 20 * acc.len() <= s.len(),
        forall|k: int| 0 <= k < acc.len() ==> acc[k] == extra_target_at(s, start + 20 * k),
    ensures
        ({
            let q = start + 20 * acc.len();
            let r = spec_extra_targets(s, q, remaining, acc);
            &&& r is Ok <==> q + 20 * remaining <= s.len()
            &&& r is Ok ==> {
                &&& r->Ok_0.1 == q + 20 * remaining
                &&& r->Ok_0.0.len() == acc.len() + remaining
                &&& forall|k: int| 0 <= k < r->Ok_0.0.len() ==> r->Ok_0.0[k] == extra_target_at(s, start + 20 * k)
            }
        }),
    decreases remaining,
{
    let q = start + 20 * acc.len();
    if remaining > 0 && q + 20 <= s.len() {
        let next = acc.push(extra_target_at(s, q));
        assert forall|k: int| 0 <= k < next.len() implies next[k] == extra_target_at(s, start + 20 * k) by {
            if k < acc.len() {
            } else {
                assert(k == acc.len());
            }
        }
        lemma_extra_targets_layout(s, start, (remaining - 1) as nat, next);
        assert(start + 20 * next.len() == q + 20);
    }
}

/// The extra targets are a four-byte count and that many entries of twenty
/// bytes, entry `k` starting `20 * k` bytes after the count; they are read
/// exactly when all of them are there.
pub proof fn law_visual_chain_targets_layout(s: Seq<u8>, pos: int)
    requires
        0 <= pos,
        pos + 4 <= s.len(),
    ensures
        ({
            let count = le_u32(s, pos) as int;
            let r = spec_visual_chain_targets(s, pos);
            &&& r is Ok <==> pos + 4 + 20 * count <= s.len()
            &&& r is Ok ==> {
                &&& r->Ok_0.1 == pos + 4 + 20 * count
                &&& r->Ok_0.0.len() == count
                &&& forall|k: int| 0 <= k < count ==> r->Ok_0.0[k] == extra_target_at(s, pos + 4 + 20 * k)
            }
        }),
{
    lemma_extra_targets_layout(s, pos + 4, le_u32(s, pos) as nat, Seq::empty());
}

/// The spell targets, as their layout says: the four-byte mask, then, each
/// only where the mask announces it, an object GUID (flags 0x1_8A02), an item
/// GUID (0x1010), a source location (0x20) and a destination location (0x40),
/// each a packed transport GUID and twelve bytes of coordinates, and a
/// zero-terminated name (0x2000).
pub open spec fn spell_targets_layout(s: Seq<u8>, pos: int) -> SpecParsed<SpellTargetsModel> {
    if pos < 0 || pos + 4 > s.len() {
        Err(ParseError::UnexpectedEnd)
    } else {
        let mask = le_u32(s, pos);
        let unit_read = spec_packed_guid(s, pos + 4);
        let has_unit = mask & 0x1_8A02 != 0;
        let p1 = if has_unit { unit_read->Ok_0.1 } else { pos + 4 };
        let item_read = spec_packed_guid(s, p1);
        let has_item = mask & 0x1010 != 0;
        let p2 = if has_item { item_read->Ok_0.1 } else { p1 };
        let src_read = spec_packed_guid(s, p2);
        let has_src = mask & 0x20 != 0;
        let p3 = if has_src { src_read->Ok_0.1 + 12 } else { p2 };
        let dst_read = spec_packed_guid(s, p3);
        let has_dst = mask & 0x40 != 0;
        let p4 = if has_dst { dst_read->Ok_0.1 + 12 } else { p3 };
        let name_read = spec_cstring(s, p4);
        let has_name = mask & 0x2000 != 0;
        let p5 = if has_name { name_read->Ok_0.1 } else { p4 };
        if (has_unit && unit_read is Err) || (has_item && item_read is Err) || (has_src && (src_read is Err
            || src_read->Ok_0.1 + 12 > s.len())) || (has_dst && (dst_read is Err || dst_read->Ok_0.1 + 12 > s.len()))
            || (has_name && name_read is Err) {
            Err(ParseError::UnexpectedEnd)
        } else {
            Ok(
                (
                    SpellTargetsModel {
                        target_mask: mask,
                        unit_target: if has_unit { Some(unit_read->Ok_0.0) } else { None },
                        item_target: if has_item { Some(item_read->Ok_0.0) } else { None },
                        source_transport: if has_src { Some(src_read->Ok_0.0) } else { None },
                        source_location: if has_src {
                            Some(spec_position(s, src_read->Ok_0.1)->Ok_0.0)
                        } else {
                            None
                        },
                        dest_transport: if has_dst { Some(dst_read->Ok_0.0) } else { None },
                        dest_location: if has_dst {
                            Some(spec_position(s, dst_read->Ok_0.1)->Ok_0.0)
                        } else {
                            None
                        },
                        target_string: if has_name { Some(name_read->Ok_0.0) } else { None },
                        has_dest_location: has_dst,
                        has_visual_chain_targets: mask & 0x8_0000 != 0,
                    },
                    p5,
                ),
            )
        }
    }
}

/// The spell targets are read as their layout says.
#[verifier::rlimit(60)]
pub proof fn law_spell_targets_layout(s: Seq<u8>, pos: int)
    ensures
        spec_spell_targets(s, pos) == spell_targets_layout(s, pos),
{
    lemma_spell_targets_bounds(s, pos);
    if 0 <= pos && pos + 4 <= s.len() {
        let mask = le_u32(s, pos);
        lemma_packed_guid_bounds(s, pos + 4);
        let p1 = if mask & 0x1_8A02 != 0 { spec_packed_guid(s, pos + 4)->Ok_0.1 } else { pos + 4 };
        lemma_packed_guid_bounds(s, p1);
        let p2 = if mask & 0x1010 != 0 { spec_packed_guid(s, p1)->Ok_0.1 } else { p1 };
        lemma_packed_guid_bounds(s, p2);
        let p3 = if mask & 0x20 != 0 { spec_packed_guid(s, p2)->Ok_0.1 + 12 } else { p2 };
        lemma_packed_guid_bounds(s, p3);
        let p4 = if mask & 0x40 != 0 { spec_packed_guid(s, p3)->Ok_0.1 + 12 } else { p3 };
        lemma_cstring_bounds(s, p4, Seq::empty());
    }
}

} // verus!
