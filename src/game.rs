use vstd::prelude::*;
use vstd::string::StringSliceAdditionalSpecFns;
use crate::offsets::Offsets;
use crate::convar::{lookup, registry_convars, ConvarMap, CONVAR_VALUE_OFFSET};
use crate::pages::{i32_at, string_at, u32_at, u64_at, u8_at, Fault, PageCache, PageMap};

verus! {

/// Size of one entry of the entity table.
pub const ENTITY_ENTRY_SIZE: u64 = 120;
/// Highest entity index that can hold a player controller.
pub const MAX_PLAYERS: u64 = 64;
/// Highest money value taken as genuine.
pub const MAX_MONEY: i32 = 99999;
/// Highest health and armor value taken as genuine.
pub const MAX_VITAL: i32 = 100;

#[derive(Debug, Clone, Copy, PartialEq, Eq, Structural)]
pub enum Team {
    Spectator,
    Terrorist,
    CounterTerrorist,
}

#[derive(Debug, Clone, Copy, PartialEq, Eq, Structural)]
pub enum LifeState {
    Alive,
    Dying,
    Dead,
    Respawnable,
    DiscardBody,
}

/// A position as the raw IEEE-754 single-precision bit patterns of its
/// coordinates.
#[derive(Debug, Clone, Copy, PartialEq, Eq, Structural)]
pub struct Vec3 {
    pub x: u32,
    pub y: u32,
    pub z: u32,
}

/// One player's state in one tick. Strings are the raw bytes read from the
/// target; `rotation` is the raw bit pattern of a single-precision float.
#[derive(Debug, Clone)]
pub struct Player {
    pub name: Vec<u8>,
    pub health: i32,
    pub armor: i32,
    pub money: i32,
    pub team: Team,
    pub life_state: LifeState,
    pub weapon: Vec<u8>,
    pub weapons: Vec<Vec<u8>>,
    pub has_defuser: bool,
    pub has_helmet: bool,
    pub color: i32,
    pub position: Vec3,
    pub rotation: u32,
    pub ping: i32,
    pub steam_id: u64,
    pub active_player: bool,
    pub is_local_player: bool,
}

/// The mathematical content of a `Player`.
pub struct PlayerView {
    pub name: Seq<u8>,
    pub health: i32,
    pub armor: i32,
    pub money: i32,
    pub team: Team,
    pub life_state: LifeState,
    pub weapon: Seq<u8>,
    pub weapons: Seq<Seq<u8>>,
    pub has_defuser: bool,
    pub has_helmet: bool,
    pub color: i32,
    pub position: Vec3,
    pub rotation: u32,
    pub ping: i32,
    pub steam_id: u64,
    pub active_player: bool,
    pub is_local_player: bool,
}

impl View for Player {
    type V = PlayerView;

    open spec fn view(&self) -> PlayerView {
        PlayerView {
            name: self.name@,
            health: self.health,
            armor: self.armor,
            money: self.money,
            team: self.team,
            life_state: self.life_state,
            weapon: self.weapon@,
            weapons: self.weapons@.map_values(|w: Vec<u8>| w@),
            has_defuser: self.has_defuser,
            has_helmet: self.has_helmet,
            color: self.color,
            position: self.position,
            rotation: self.rotation,
            ping: self.ping,
            steam_id: self.steam_id,
            active_player: self.active_player,
            is_local_player: self.is_local_player,
        }
    }
}

/// Stand-in for a name or weapon that could not be read.
pub open spec fn unknown() -> Seq<u8> {
    "Unknown".spec_bytes()
}

/// `v` when it lies in `[0, hi]`, else zero.
pub open spec fn clamp_or_zero(v: i32, hi: i32) -> i32 {
    if 0 <= v <= hi {
        v
    } else {
        0
    }
}

pub open spec fn team_from_byte(b: u8) -> Option<Team> {
    if b == 1 {
        Some(Team::Spectator)
    } else if b == 2 {
        Some(Team::Terrorist)
    } else if b == 3 {
        Some(Team::CounterTerrorist)
    } else {
        None
    }
}

/// Unknown life-state values read as `Dead`.
pub open spec fn life_state_from_byte(b: u8) -> LifeState {
    if b == 0 {
        LifeState::Alive
    } else if b == 1 {
        LifeState::Dying
    } else if b == 3 {
        LifeState::Respawnable
    } else if b == 4 {
        LifeState::DiscardBody
    } else {
        LifeState::Dead
    }
}

/// Address of slot `index` of the table whose bucket list starts at
/// `list`: buckets of 512 entries of 120 bytes each.
pub open spec fn bucket_slot(list: u64, index: u64) -> u64 {
    list.wrapping_add(8u64.wrapping_mul(index >> 9))
}

pub open spec fn entry_slot(bucket: u64, index: u64) -> u64 {
    bucket.wrapping_add(ENTITY_ENTRY_SIZE.wrapping_mul(index & 0x1FF))
}

/// The entity at index `k` of the client entity table, if the slot is used.
pub open spec fn client_entity(m: PageMap, o: Offsets, k: u64) -> Result<Option<u64>, Fault> {
    match u64_at(m, bucket_slot(o.interface.entity.0, k).wrapping_add(0x10)) {
        Err(f) => Err(f),
        Ok(bucket) => if bucket == 0 {
            Ok(None)
        } else {
            match u64_at(m, entry_slot(bucket, k)) {
                Err(f) => Err(f),
                Ok(e) => if e == 0 {
                    Ok(None)
                } else {
                    Ok(Some(e))
                },
            }
        },
    }
}

/// The pawn that a controller's pawn handle designates.
pub open spec fn pawn_of(m: PageMap, o: Offsets, controller: u64) -> Result<u64, Fault> {
    match u32_at(m, controller.wrapping_add(o.network.controller.m_hPawn.0)) {
        Err(f) => Err(f),
        Ok(h) => match u64_at(m, bucket_slot(o.interface.player.0, (h as u64) & 0x7FFF)) {
            Err(f) => Err(f),
            Ok(bucket) => u64_at(m, entry_slot(bucket, h as u64)),
        },
    }
}

/// The pawn that the player with pawn `pawn` is spectating, if any.
pub open spec fn spectator_target(m: PageMap, o: Offsets, pawn: u64) -> Result<Option<u64>, Fault> {
    match u64_at(m, pawn.wrapping_add(o.network.pawn.m_pObserverServices.0)) {
        Err(f) => Err(f),
        Ok(obs) => if obs == 0 {
            Ok(None)
        } else {
            match u32_at(m, obs.wrapping_add(o.network.observer_service.m_hObserverTarget.0)) {
                Err(f) => Err(f),
                Ok(h) => {
                    let t = (h & 0x7FFF) as u64;
                    if t == 0 {
                        Ok(None)
                    } else {
                        match u64_at(m, bucket_slot(o.interface.player.0, t)) {
                            Err(f) => Err(f),
                            Ok(bucket) => if bucket == 0 {
                                Ok(None)
                            } else {
                                match u64_at(m, entry_slot(bucket, t)) {
                                    Err(f) => Err(f),
                                    Ok(e) => if e == 0 {
                                        Ok(None)
                                    } else {
                                        Ok(Some(e))
                                    },
                                }
                            },
                        }
                    }
                },
            }
        },
    }
}

pub open spec fn name_of(m: PageMap, o: Offsets, controller: u64) -> Result<Seq<u8>, Fault> {
    match u64_at(m, controller.wrapping_add(o.network.controller.m_iszPlayerName.0)) {
        Err(f) => Err(f),
        Ok(p) => if p == 0 {
            Ok(unknown())
        } else {
            string_at(m, p)
        },
    }
}

pub open spec fn clamped_i32_at(m: PageMap, a: u64, hi: i32) -> Result<i32, Fault> {
    match i32_at(m, a) {
        Err(f) => Err(f),
        Ok(v) => Ok(clamp_or_zero(v, hi)),
    }
}

pub open spec fn money_of(m: PageMap, o: Offsets, controller: u64) -> Result<i32, Fault> {
    match u64_at(m, controller.wrapping_add(o.network.controller.m_pInGameMoneyServices.0)) {
        Err(f) => Err(f),
        Ok(ms) => if ms == 0 {
            Ok(0)
        } else {
            clamped_i32_at(m, ms.wrapping_add(o.network.money_service.m_iAccount.0), MAX_MONEY)
        },
    }
}

/// Designer name of a weapon entity: entity identity at `+0x10`, its name
/// pointer at `+0x20`; `None` where a pointer is null.
pub open spec fn weapon_name(m: PageMap, weapon: u64) -> Result<Option<Seq<u8>>, Fault> {
    match u64_at(m, weapon.wrapping_add(0x10)) {
        Err(f) => Err(f),
        Ok(identity) => if identity == 0 {
            Ok(None)
        } else {
            match u64_at(m, identity.wrapping_add(0x20)) {
                Err(f) => Err(f),
                Ok(p) => if p == 0 {
                    Ok(None)
                } else {
                    match string_at(m, p) {
                        Err(f) => Err(f),
                        Ok(s) => Ok(Some(s)),
                    }
                },
            }
        },
    }
}

/// The held weapon's name; a weapon that cannot be read is `Unknown`, and
/// only a page not fetched yet is a failure.
pub open spec fn weapon_of(m: PageMap, o: Offsets, pawn: u64) -> Result<Seq<u8>, Fault> {
    match u64_at(m, pawn.wrapping_add(o.network.pawn.m_pClippingWeapon.0)) {
        Err(Fault::Missing(p)) => Err(Fault::Missing(p)),
        Err(Fault::Unreadable) => Ok(unknown()),
        Ok(w) => if w == 0 {
            Ok(unknown())
        } else {
            match weapon_name(m, w) {
                Err(Fault::Missing(p)) => Err(Fault::Missing(p)),
                Err(Fault::Unreadable) => Ok(unknown()),
                Ok(None) => Ok(unknown()),
                Ok(Some(s)) => Ok(s),
            }
        },
    }
}

/// Whether the flag at `offset` in the pawn's item services is set; false
/// without item services.
pub open spec fn item_flag(m: PageMap, o: Offsets, pawn: u64, offset: u64) -> Result<bool, Fault> {
    match u64_at(m, pawn.wrapping_add(o.network.pawn.m_pItemServices.0)) {
        Err(f) => Err(f),
        Ok(items) => if items == 0 {
            Ok(false)
        } else {
            match u8_at(m, items.wrapping_add(offset)) {
                Err(f) => Err(f),
                Ok(b) => Ok(b != 0),
            }
        },
    }
}

pub open spec fn position_of(m: PageMap, o: Offsets, pawn: u64) -> Result<Vec3, Fault> {
    let at = pawn.wrapping_add(o.network.pawn.m_vOldOrigin.0);
    match (u32_at(m, at), u32_at(m, at.wrapping_add(4)), u32_at(m, at.wrapping_add(8))) {
        (Ok(x), Ok(y), Ok(z)) => Ok(Vec3 { x, y, z }),
        (Err(f), _, _) => Err(f),
        (_, Err(f), _) => Err(f),
        (_, _, Err(f)) => Err(f),
    }
}

/// The names of the weapons in the list at `list` from element `i` on:
/// each element is a handle whose low 12 bits index the entity table;
/// empty slots and weapons without a name are left out.
pub open spec fn weapons_from(m: PageMap, o: Offsets, list: u64, size: u64, i: u64) -> Result<Seq<Seq<u8>>, Fault>
    decreases size - i,
{
    if i >= size {
        Ok(Seq::empty())
    } else {
        let rest = weapons_from(m, o, list, size, (i + 1) as u64);
        match u32_at(m, list.wrapping_add(i.wrapping_mul(4))) {
            Err(f) => Err(f),
            Ok(h) => match client_entity(m, o, (h & 0xFFF) as u64) {
                Err(f) => Err(f),
                Ok(None) => rest,
                Ok(Some(e)) => match weapon_name(m, e) {
                    Err(f) => Err(f),
                    Ok(None) => rest,
                    Ok(Some(n)) => match rest {
                        Err(f) => Err(f),
                        Ok(r) => Ok(seq![n] + r),
                    },
                },
            },
        }
    }
}

/// The names of the weapons a pawn carries, in list order; the list is a
/// (size, pointer) pair in its weapon services.
pub open spec fn weapons_of(m: PageMap, o: Offsets, pawn: u64) -> Result<Seq<Seq<u8>>, Fault> {
    match u64_at(m, pawn.wrapping_add(o.network.pawn.m_pWeaponServices.0)) {
        Err(f) => Err(f),
        Ok(ws) => if ws == 0 {
            Ok(Seq::empty())
        } else {
            let at = ws.wrapping_add(o.network.weapon_service.m_hMyWeapons.0);
            match u64_at(m, at) {
                Err(f) => Err(f),
                Ok(size) => match u64_at(m, at.wrapping_add(8)) {
                    Err(f) => Err(f),
                    Ok(list) => weapons_from(m, o, list, size, 0),
                },
            }
        }
    }
}

/// The snapshot of the player with controller `c` and pawn `pawn`, before
/// the local and active flags are set; `None` when the team byte is not a
/// team.
pub open spec fn player_view_of(m: PageMap, o: Offsets, c: u64, pawn: u64) -> Result<Option<PlayerView>, Fault> {
    let team = u8_at(m, pawn.wrapping_add(o.network.pawn.m_iTeamNum.0));
    let name = name_of(m, o, c);
    let health = clamped_i32_at(m, pawn.wrapping_add(o.network.pawn.m_iHealth.0), MAX_VITAL);
    let armor = clamped_i32_at(m, pawn.wrapping_add(o.network.pawn.m_ArmorValue.0), MAX_VITAL);
    let money = money_of(m, o, c);
    let life = u8_at(m, pawn.wrapping_add(o.network.pawn.m_lifeState.0));
    let weapon = weapon_of(m, o, pawn);
    let weapons = weapons_of(m, o, pawn);
    let has_defuser = item_flag(m, o, pawn, o.network.item_service.m_bHasDefuser.0);
    let has_helmet = item_flag(m, o, pawn, o.network.item_service.m_bHasHelmet.0);
    let color = i32_at(m, c.wrapping_add(o.network.controller.m_iCompTeammateColor.0));
    let position = position_of(m, o, pawn);
    let rotation = u32_at(m, pawn.wrapping_add(o.network.pawn.m_angEyeAngles.0));
    let ping = i32_at(m, c.wrapping_add(o.network.controller.m_iPing.0));
    let steam_id = u64_at(m, c.wrapping_add(o.network.controller.m_steamID.0));
    if team is Err {
        Err(team->Err_0)
    } else if team_from_byte(team->Ok_0) is None {
        Ok(None)
    } else if name is Err {
        Err(name->Err_0)
    } else if health is Err {
        Err(health->Err_0)
    } else if armor is Err {
        Err(armor->Err_0)
    } else if money is Err {
        Err(money->Err_0)
    } else if life is Err {
        Err(life->Err_0)
    } else if weapon is Err {
        Err(weapon->Err_0)
    } else if weapons is Err {
        Err(weapons->Err_0)
    } else if has_defuser is Err {
        Err(has_defuser->Err_0)
    } else if has_helmet is Err {
        Err(has_helmet->Err_0)
    } else if color is Err {
        Err(color->Err_0)
    } else if position is Err {
        Err(position->Err_0)
    } else if rotation is Err {
        Err(rotation->Err_0)
    } else if ping is Err {
        Err(ping->Err_0)
    } else if steam_id is Err {
        Err(steam_id->Err_0)
    } else {
        Ok(Some(PlayerView {
            name: name->Ok_0,
            health: health->Ok_0,
            armor: armor->Ok_0,
            money: money->Ok_0,
            team: team_from_byte(team->Ok_0)->Some_0,
            life_state: life_state_from_byte(life->Ok_0),
            weapon: weapon->Ok_0,
            weapons: weapons->Ok_0,
            has_defuser: has_defuser->Ok_0,
            has_helmet: has_helmet->Ok_0,
            color: color->Ok_0,
            position: position->Ok_0,
            rotation: rotation->Ok_0,
            ping: ping->Ok_0,
            steam_id: steam_id->Ok_0,
            active_player: false,
            is_local_player: false,
        }))
    }
}

/// A read failure skips the entity; a page not fetched yet stops the walk.
pub open spec fn skip_unreadable<T>(r: Result<Option<T>, Fault>) -> Result<Option<T>, Fault> {
    match r {
        Err(Fault::Unreadable) => Ok(None),
        _ => r,
    }
}

/// Whether the player with controller `c` and pawn `pawn` is the one shown:
/// the spectated pawn if there is one, else the local player.
pub open spec fn is_active(c: u64, pawn: u64, local: u64, target: Option<u64>) -> bool {
    match target {
        Some(t) => pawn == t,
        None => c == local,
    }
}

/// The player at entity index `k`, with its flags set.
pub open spec fn entity_player(m: PageMap, o: Offsets, k: u64, local: u64, target: Option<u64>) -> Result<Option<PlayerView>, Fault> {
    match skip_unreadable(client_entity(m, o, k)) {
        Err(f) => Err(f),
        Ok(None) => Ok(None),
        Ok(Some(c)) => match pawn_of(m, o, c) {
            Err(Fault::Missing(p)) => Err(Fault::Missing(p)),
            Err(Fault::Unreadable) => Ok(None),
            Ok(pawn) => match skip_unreadable(player_view_of(m, o, c, pawn)) {
                Err(f) => Err(f),
                Ok(None) => Ok(None),
                Ok(Some(v)) => Ok(Some(PlayerView {
                    is_local_player: c == local,
                    active_player: is_active(c, pawn, local, target),
                    ..v
                })),
            },
        },
    }
}

/// The players at entity indices `k` to 64, in index order.
pub open spec fn players_from(m: PageMap, o: Offsets, k: u64, local: u64, target: Option<u64>) -> Result<Seq<PlayerView>, Fault>
    decreases MAX_PLAYERS + 1 - k,
{
    if k > MAX_PLAYERS {
        Ok(Seq::empty())
    } else {
        match entity_player(m, o, k, local, target) {
            Err(f) => Err(f),
            Ok(None) => players_from(m, o, (k + 1) as u64, local, target),
            Ok(Some(v)) => match players_from(m, o, (k + 1) as u64, local, target) {
                Err(f) => Err(f),
                Ok(r) => Ok(seq![v] + r),
            },
        }
    }
}

/// One tick: the local controller, its pawn and spectator target, then the
/// players at entity indices 1 to 64.
pub open spec fn tick_players(m: PageMap, o: Offsets) -> Result<Seq<PlayerView>, Fault> {
    match u64_at(m, o.direct.local_controller.0) {
        Err(f) => Err(f),
        Ok(local) => match pawn_of(m, o, local) {
            Err(f) => Err(f),
            Ok(local_pawn) => match spectator_target(m, o, local_pawn) {
                Err(f) => Err(f),
                Ok(target) => players_from(m, o, 1, local, target),
            },
        },
    }
}

/// The spec value of a read that yields bytes.
pub open spec fn bytes_result(r: Result<Vec<u8>, Fault>) -> Result<Seq<u8>, Fault> {
    match r {
        Ok(v) => Ok(v@),
        Err(f) => Err(f),
    }
}

fn unknown_bytes() -> (r: Vec<u8>)
    ensures
        r@ == unknown(),
{
    let s = "Unknown".as_bytes();
    let mut v: Vec<u8> = Vec::new();
    let mut i: usize = 0;
    while i < s.len()
        invariant
            i <= s@.len(),
            s@ == "Unknown".spec_bytes(),
            v@ == s@.take(i as int),
        decreases s@.len() - i,
    {
        v.push(s[i]);
        i = i + 1;
        assert(v@ =~= s@.take(i as int));
    }
    assert(s@.take(i as int) =~= s@);
    v
}

/// Keeps `v` when it lies in `[0, hi]`, else gives zero.
pub fn clamp_or_zero_exec(v: i32, hi: i32) -> (r: i32)
    ensures
        r == clamp_or_zero(v, hi),
{
    if 0 <= v && v <= hi {
        v
    } else {
        0
    }
}

pub fn team_from_byte_exec(b: u8) -> (r: Option<Team>)
    ensures
        r == team_from_byte(b),
{
    match b {
        1 => Some(Team::Spectator),
        2 => Some(Team::Terrorist),
        3 => Some(Team::CounterTerrorist),
        _ => None,
    }
}

pub fn life_state_from_byte_exec(b: u8) -> (r: LifeState)
    ensures
        r == life_state_from_byte(b),
{
    match b {
        0 => LifeState::Alive,
        1 => LifeState::Dying,
        3 => LifeState::Respawnable,
        4 => LifeState::DiscardBody,
        _ => LifeState::Dead,
    }
}

fn bucket_slot_exec(list: u64, index: u64) -> (r: u64)
    ensures
        r == bucket_slot(list, index),
{
    list.wrapping_add(8u64.wrapping_mul(index >> 9))
}

fn entry_slot_exec(bucket: u64, index: u64) -> (r: u64)
    ensures
        r == entry_slot(bucket, index),
{
    bucket.wrapping_add(ENTITY_ENTRY_SIZE.wrapping_mul(index & 0x1FF))
}

/// The observer's view of the game: the resolved offsets and the convar
/// registry. Each tick reads the target through a `PageCache`.
pub struct Cs2Interface {
    pub offsets: Offsets,
    pub convars: ConvarMap,
}

impl Cs2Interface {
    fn get_local_controller(&self, mem: &PageCache) -> (r: Result<u64, Fault>)
        ensures
            r == u64_at(mem@, self.offsets.direct.local_controller.0),
    {
        mem.read_u64(self.offsets.direct.local_controller.0)
    }

    fn get_pawn(&self, mem: &PageCache, controller: u64) -> (r: Result<u64, Fault>)
        ensures
            r == pawn_of(mem@, self.offsets, controller),
    {
        let h = mem.read_u32(controller.wrapping_add(self.offsets.network.controller.m_hPawn.0))?;
        let bucket = mem.read_u64(bucket_slot_exec(self.offsets.interface.player.0, (h as u64) & 0x7FFF))?;
        mem.read_u64(entry_slot_exec(bucket, h as u64))
    }

    fn get_name(&self, mem: &PageCache, controller: u64) -> (r: Result<Vec<u8>, Fault>)
        ensures
            bytes_result(r) == name_of(mem@, self.offsets, controller),
    {
        let p = mem.read_u64(controller.wrapping_add(self.offsets.network.controller.m_iszPlayerName.0))?;
        if p == 0 {
            Ok(unknown_bytes())
        } else {
            mem.read_string(p)
        }
    }

    fn get_clamped(&self, mem: &PageCache, a: u64, hi: i32) -> (r: Result<i32, Fault>)
        ensures
            r == clamped_i32_at(mem@, a, hi),
    {
        let v = mem.read_i32(a)?;
        Ok(clamp_or_zero_exec(v, hi))
    }

    pub fn get_health(&self, mem: &PageCache, pawn: u64) -> (r: Result<i32, Fault>)
        ensures
            r == clamped_i32_at(mem@, pawn.wrapping_add(self.offsets.network.pawn.m_iHealth.0), MAX_VITAL),
    {
        self.get_clamped(mem, pawn.wrapping_add(self.offsets.network.pawn.m_iHealth.0), MAX_VITAL)
    }

    pub fn get_armor(&self, mem: &PageCache, pawn: u64) -> (r: Result<i32, Fault>)
        ensures
            r == clamped_i32_at(mem@, pawn.wrapping_add(self.offsets.network.pawn.m_ArmorValue.0), MAX_VITAL),
    {
        self.get_clamped(mem, pawn.wrapping_add(self.offsets.network.pawn.m_ArmorValue.0), MAX_VITAL)
    }

    pub fn get_money(&self, mem: &PageCache, controller: u64) -> (r: Result<i32, Fault>)
        ensures
            r == money_of(mem@, self.offsets, controller),
    {
        let ms = mem.read_u64(controller.wrapping_add(self.offsets.network.controller.m_pInGameMoneyServices.0))?;
        if ms == 0 {
            return Ok(0);
        }
        self.get_clamped(mem, ms.wrapping_add(self.offsets.network.money_service.m_iAccount.0), MAX_MONEY)
    }

    fn get_team(&self, mem: &PageCache, pawn: u64) -> (r: Result<Option<Team>, Fault>)
        ensures
            r == (match u8_at(mem@, pawn.wrapping_add(self.offsets.network.pawn.m_iTeamNum.0)) {
                Ok(b) => Ok(team_from_byte(b)),
                Err(f) => Err(f),
            }),
    {
        let b = mem.read_u8(pawn.wrapping_add(self.offsets.network.pawn.m_iTeamNum.0))?;
        Ok(team_from_byte_exec(b))
    }

    fn get_life_state(&self, mem: &PageCache, pawn: u64) -> (r: Result<LifeState, Fault>)
        ensures
            r == (match u8_at(mem@, pawn.wrapping_add(self.offsets.network.pawn.m_lifeState.0)) {
                Ok(b) => Ok(life_state_from_byte(b)),
                Err(f) => Err(f),
            }),
    {
        let b = mem.read_u8(pawn.wrapping_add(self.offsets.network.pawn.m_lifeState.0))?;
        Ok(life_state_from_byte_exec(b))
    }

    fn get_weapon_name(&self, mem: &PageCache, weapon: u64) -> (r: Result<Option<Vec<u8>>, Fault>)
        ensures
            match r {
                Ok(Some(v)) => weapon_name(mem@, weapon) == Ok::<Option<Seq<u8>>, Fault>(Some(v@)),
                Ok(None) => weapon_name(mem@, weapon) == Ok::<Option<Seq<u8>>, Fault>(None),
                Err(f) => weapon_name(mem@, weapon) == Err::<Option<Seq<u8>>, Fault>(f),
            },
    {
        let identity = mem.read_u64(weapon.wrapping_add(0x10))?;
        if identity == 0 {
            return Ok(None);
        }
        let p = mem.read_u64(identity.wrapping_add(0x20))?;
        if p == 0 {
            return Ok(None);
        }
        match mem.read_string(p) {
            Ok(s) => Ok(Some(s)),
            Err(f) => Err(f),
        }
    }

    fn get_weapon(&self, mem: &PageCache, pawn: u64) -> (r: Result<Vec<u8>, Fault>)
        ensures
            bytes_result(r) == weapon_of(mem@, self.offsets, pawn),
    {
        let w = match mem.read_u64(pawn.wrapping_add(self.offsets.network.pawn.m_pClippingWeapon.0)) {
            Err(Fault::Missing(p)) => {
                return Err(Fault::Missing(p));
            },
            Err(Fault::Unreadable) => {
                return Ok(unknown_bytes());
            },
            Ok(w) => w,
        };
        if w == 0 {
            return Ok(unknown_bytes());
        }
        match self.get_weapon_name(mem, w) {
            Err(Fault::Missing(p)) => Err(Fault::Missing(p)),
            Err(Fault::Unreadable) => Ok(unknown_bytes()),
            Ok(None) => Ok(unknown_bytes()),
            Ok(Some(s)) => Ok(s),
        }
    }

    fn get_client_entity(&self, mem: &PageCache, index: u64) -> (r: Result<Option<u64>, Fault>)
        ensures
            r == client_entity(mem@, self.offsets, index),
    {
        let bucket = mem.read_u64(bucket_slot_exec(self.offsets.interface.entity.0, index).wrapping_add(0x10))?;
        if bucket == 0 {
            return Ok(None);
        }
        let e = mem.read_u64(entry_slot_exec(bucket, index))?;
        if e == 0 {
            Ok(None)
        } else {
            Ok(Some(e))
        }
    }

    fn get_item_flag(&self, mem: &PageCache, pawn: u64, offset: u64) -> (r: Result<bool, Fault>)
        ensures
            r == item_flag(mem@, self.offsets, pawn, offset),
    {
        let items = mem.read_u64(pawn.wrapping_add(self.offsets.network.pawn.m_pItemServices.0))?;
        if items == 0 {
            return Ok(false);
        }
        let b = mem.read_u8(items.wrapping_add(offset))?;
        Ok(b != 0)
    }

    fn get_defuser(&self, mem: &PageCache, pawn: u64) -> (r: Result<bool, Fault>)
        ensures
            r == item_flag(mem@, self.offsets, pawn, self.offsets.network.item_service.m_bHasDefuser.0),
    {
        self.get_item_flag(mem, pawn, self.offsets.network.item_service.m_bHasDefuser.0)
    }

    fn get_helmet(&self, mem: &PageCache, pawn: u64) -> (r: Result<bool, Fault>)
        ensures
            r == item_flag(mem@, self.offsets, pawn, self.offsets.network.item_service.m_bHasHelmet.0),
    {
        self.get_item_flag(mem, pawn, self.offsets.network.item_service.m_bHasHelmet.0)
    }

    fn get_color(&self, mem: &PageCache, controller: u64) -> (r: Result<i32, Fault>)
        ensures
            r == i32_at(mem@, controller.wrapping_add(self.offsets.network.controller.m_iCompTeammateColor.0)),
    {
        mem.read_i32(controller.wrapping_add(self.offsets.network.controller.m_iCompTeammateColor.0))
    }

    fn get_position(&self, mem: &PageCache, pawn: u64) -> (r: Result<Vec3, Fault>)
        ensures
            r == position_of(mem@, self.offsets, pawn),
    {
        let at = pawn.wrapping_add(self.offsets.network.pawn.m_vOldOrigin.0);
        let x = mem.read_u32(at)?;
        let y = mem.read_u32(at.wrapping_add(4))?;
        let z = mem.read_u32(at.wrapping_add(8))?;
        Ok(Vec3 { x, y, z })
    }

    fn get_rotation(&self, mem: &PageCache, pawn: u64) -> (r: Result<u32, Fault>)
        ensures
            r == u32_at(mem@, pawn.wrapping_add(self.offsets.network.pawn.m_angEyeAngles.0)),
    {
        mem.read_u32(pawn.wrapping_add(self.offsets.network.pawn.m_angEyeAngles.0))
    }

    fn get_ping(&self, mem: &PageCache, controller: u64) -> (r: Result<i32, Fault>)
        ensures
            r == i32_at(mem@, controller.wrapping_add(self.offsets.network.controller.m_iPing.0)),
    {
        mem.read_i32(controller.wrapping_add(self.offsets.network.controller.m_iPing.0))
    }

    fn get_steam_id(&self, mem: &PageCache, controller: u64) -> (r: Result<u64, Fault>)
        ensures
            r == u64_at(mem@, controller.wrapping_add(self.offsets.network.controller.m_steamID.0)),
    {
        mem.read_u64(controller.wrapping_add(self.offsets.network.controller.m_steamID.0))
    }

    fn get_spectator_target(&self, mem: &PageCache, pawn: u64) -> (r: Result<Option<u64>, Fault>)
        ensures
            r == spectator_target(mem@, self.offsets, pawn),
    {
        let obs = mem.read_u64(pawn.wrapping_add(self.offsets.network.pawn.m_pObserverServices.0))?;
        if obs == 0 {
            return Ok(None);
        }
        let h = mem.read_u32(obs.wrapping_add(self.offsets.network.observer_service.m_hObserverTarget.0))?;
        let t = (h & 0x7FFF) as u64;
        if t == 0 {
            return Ok(None);
        }
        let bucket = mem.read_u64(bucket_slot_exec(self.offsets.interface.player.0, t))?;
        if bucket == 0 {
            return Ok(None);
        }
        let e = mem.read_u64(entry_slot_exec(bucket, t))?;
        if e == 0 {
            Ok(None)
        } else {
            Ok(Some(e))
        }
    }
}

pub open spec fn names_view(v: Seq<Vec<u8>>) -> Seq<Seq<u8>> {
    v.map_values(|w: Vec<u8>| w@)
}

pub open spec fn players_view(v: Seq<Player>) -> Seq<PlayerView> {
    v.map_values(|p: Player| p@)
}

impl Cs2Interface {
    fn get_weapons(&self, mem: &PageCache, pawn: u64) -> (r: Result<Vec<Vec<u8>>, Fault>)
        ensures
            match r {
                Ok(v) => weapons_of(mem@, self.offsets, pawn) == Ok::<Seq<Seq<u8>>, Fault>(names_view(v@)),
                Err(f) => weapons_of(mem@, self.offsets, pawn) == Err::<Seq<Seq<u8>>, Fault>(f),
            },
    {
        let ws = mem.read_u64(pawn.wrapping_add(self.offsets.network.pawn.m_pWeaponServices.0))?;
        let mut out: Vec<Vec<u8>> = Vec::new();
        if ws == 0 {
            assert(names_view(out@) =~= Seq::<Seq<u8>>::empty());
            return Ok(out);
        }
        let at = ws.wrapping_add(self.offsets.network.weapon_service.m_hMyWeapons.0);
        let size = mem.read_u64(at)?;
        let list = mem.read_u64(at.wrapping_add(8))?;
        let ghost whole = weapons_of(mem@, self.offsets, pawn);
        assert(whole == weapons_from(mem@, self.offsets, list, size, 0));
        assert(names_view(out@) =~= Seq::<Seq<u8>>::empty());
        let mut i: u64 = 0;
        while i < size
            invariant
                i <= size,
                whole == weapons_of(mem@, self.offsets, pawn),
                match weapons_from(mem@, self.offsets, list, size, i) {
                    Ok(rest) => whole == Ok::<Seq<Seq<u8>>, Fault>(names_view(out@) + rest),
                    Err(f) => whole == Err::<Seq<Seq<u8>>, Fault>(f),
                },
            decreases size - i,
        {
            let h = mem.read_u32(list.wrapping_add(i.wrapping_mul(4)))?;
            let ghost prev = names_view(out@);
            match self.get_client_entity(mem, (h & 0xFFF) as u64)? {
                None => {},
                Some(e) => {
                    match self.get_weapon_name(mem, e)? {
                        None => {},
                        Some(n) => {
                            let ghost nv = n@;
                            out.push(n);
                            proof {
                                match weapons_from(mem@, self.offsets, list, size, (i + 1) as u64) {
                                    Ok(rest) => {
                                        assert(names_view(out@) =~= prev.push(nv));
                                        assert(prev + (seq![nv] + rest) =~= names_view(out@) + rest);
                                    },
                                    Err(f) => {},
                                }
                            }
                        },
                    }
                },
            }
            i = i + 1;
        }
        assert(names_view(out@) + Seq::<Seq<u8>>::empty() =~= names_view(out@));
        Ok(out)
    }

    fn get_player(&self, mem: &PageCache, controller: u64, pawn: u64) -> (r: Result<Option<Player>, Fault>)
        ensures
            match r {
                Ok(Some(p)) => player_view_of(mem@, self.offsets, controller, pawn) == Ok::<Option<PlayerView>, Fault>(Some(p@)),
                Ok(None) => player_view_of(mem@, self.offsets, controller, pawn) == Ok::<Option<PlayerView>, Fault>(None),
                Err(f) => player_view_of(mem@, self.offsets, controller, pawn) == Err::<Option<PlayerView>, Fault>(f),
            },
    {
        let team = match self.get_team(mem, pawn)? {
            Some(t) => t,
            None => {
                return Ok(None);
            },
        };
        let name = self.get_name(mem, controller)?;
        let health = self.get_health(mem, pawn)?;
        let armor = self.get_armor(mem, pawn)?;
        let money = self.get_money(mem, controller)?;
        let life_state = self.get_life_state(mem, pawn)?;
        let weapon = self.get_weapon(mem, pawn)?;
        let weapons = self.get_weapons(mem, pawn)?;
        let has_defuser = self.get_defuser(mem, pawn)?;
        let has_helmet = self.get_helmet(mem, pawn)?;
        let color = self.get_color(mem, controller)?;
        let position = self.get_position(mem, pawn)?;
        let rotation = self.get_rotation(mem, pawn)?;
        let ping = self.get_ping(mem, controller)?;
        let steam_id = self.get_steam_id(mem, controller)?;
        Ok(Some(Player {
            name,
            health,
            armor,
            money,
            team,
            life_state,
            weapon,
            weapons,
            has_defuser,
            has_helmet,
            color,
            position,
            rotation,
            ping,
            steam_id,
            active_player: false,
            is_local_player: false,
        }))
    }

    /// The player at entity index `k` with its flags set, if there is one.
    fn get_entity_player(&self, mem: &PageCache, k: u64, local: u64, target: Option<u64>) -> (r: Result<Option<Player>, Fault>)
        ensures
            match r {
                Ok(Some(p)) => entity_player(mem@, self.offsets, k, local, target) == Ok::<Option<PlayerView>, Fault>(Some(p@)),
                Ok(None) => entity_player(mem@, self.offsets, k, local, target) == Ok::<Option<PlayerView>, Fault>(None),
                Err(f) => entity_player(mem@, self.offsets, k, local, target) == Err::<Option<PlayerView>, Fault>(f),
            },
    {
        let controller = match self.get_client_entity(mem, k) {
            Err(Fault::Missing(p)) => {
                return Err(Fault::Missing(p));
            },
            Err(Fault::Unreadable) => {
                return Ok(None);
            },
            Ok(None) => {
                return Ok(None);
            },
            Ok(Some(c)) => c,
        };
        let pawn = match self.get_pawn(mem, controller) {
            Err(Fault::Missing(p)) => {
                return Err(Fault::Missing(p));
            },
            Err(Fault::Unreadable) => {
                return Ok(None);
            },
            Ok(p) => p,
        };
        let mut player = match self.get_player(mem, controller, pawn) {
            Err(Fault::Missing(p)) => {
                return Err(Fault::Missing(p));
            },
            Err(Fault::Unreadable) => {
                return Ok(None);
            },
            Ok(None) => {
                return Ok(None);
            },
            Ok(Some(p)) => p,
        };
        player.is_local_player = controller == local;
        player.active_player = match target {
            Some(t) => pawn == t,
            None => controller == local,
        };
        Ok(Some(player))
    }

    /// One tick of the walk: every player at entity indices 1 to 64, in
    /// index order. A player whose fields cannot be read is left out; only a
    /// failure to read the local controller, its pawn or its spectator
    /// target fails the tick, and `Fault::Missing` asks for a page first.
    #[verifier::rlimit(40)]
    pub fn get_players(&self, mem: &PageCache) -> (r: Result<Vec<Player>, Fault>)
        ensures
            match r {
                Ok(v) => tick_players(mem@, self.offsets) == Ok::<Seq<PlayerView>, Fault>(players_view(v@)),
                Err(f) => tick_players(mem@, self.offsets) == Err::<Seq<PlayerView>, Fault>(f),
            },
    {
        let local = self.get_local_controller(mem)?;
        let local_pawn = self.get_pawn(mem, local)?;
        let target = self.get_spectator_target(mem, local_pawn)?;
        let ghost whole = tick_players(mem@, self.offsets);
        let mut players: Vec<Player> = Vec::new();
        assert(players_view(players@) =~= Seq::<PlayerView>::empty());
        let mut k: u64 = 1;
        while k <= MAX_PLAYERS
            invariant
                1 <= k <= MAX_PLAYERS + 1,
                whole == tick_players(mem@, self.offsets),
                match players_from(mem@, self.offsets, k, local, target) {
                    Ok(rest) => whole == Ok::<Seq<PlayerView>, Fault>(players_view(players@) + rest),
                    Err(f) => whole == Err::<Seq<PlayerView>, Fault>(f),
                },
            decreases MAX_PLAYERS + 1 - k,
        {
            let ghost prev = players_view(players@);
            match self.get_entity_player(mem, k, local, target)? {
                None => {},
                Some(p) => {
                    let ghost pv = p@;
                    players.push(p);
                    proof {
                        match players_from(mem@, self.offsets, (k + 1) as u64, local, target) {
                            Ok(rest) => {
                                assert(players_view(players@) =~= prev.push(pv));
                                assert(prev + (seq![pv] + rest) =~= players_view(players@) + rest);
                            },
                            Err(f) => {},
                        }
                    }
                },
            }
            k = k + 1;
        }
        assert(players_view(players@) + Seq::<PlayerView>::empty() =~= players_view(players@));
        Ok(players)
    }
}

/// Why the game interface could not be set up.
#[derive(Debug, Clone, Copy, PartialEq, Eq, Structural)]
pub enum GameError {
    /// The convar registry's address is null.
    ConvarUnset,
    /// A read in the target failed, or needs a page not fetched yet.
    Fault(Fault),
}

impl Cs2Interface {
    /// Sets up the interface over resolved offsets and reads the convar
    /// registry.
    pub fn new(offsets: Offsets, mem: &PageCache) -> (r: Result<Cs2Interface, GameError>)
        ensures
            offsets.interface.convar.0 == 0 ==> r == Err::<Cs2Interface, GameError>(GameError::ConvarUnset),
            offsets.interface.convar.0 != 0 ==> match r {
                Ok(i) => i.offsets == offsets && registry_convars(mem@, offsets.interface.convar.0)
                    == Ok::<Seq<(Seq<u8>, u64)>, Fault>(i.convars.view()),
                Err(GameError::Fault(f)) => registry_convars(mem@, offsets.interface.convar.0)
                    == Err::<Seq<(Seq<u8>, u64)>, Fault>(f),
                Err(GameError::ConvarUnset) => false,
            },
    {
        let mut interface = Cs2Interface { offsets, convars: ConvarMap::new() };
        interface.set_convars(mem)?;
        proof {
            let entries = registry_convars(mem@, offsets.interface.convar.0)->Ok_0;
            assert(Seq::<(Seq<u8>, u64)>::empty() + entries =~= entries);
        }
        Ok(interface)
    }

    /// Reads every convar of the registry and records them in the convar
    /// map after the entries it already holds; on failure the map is left
    /// as it was.
    fn set_convars(&mut self, mem: &PageCache) -> (r: Result<(), GameError>)
        ensures
            final(self).offsets == old(self).offsets,
            old(self).offsets.interface.convar.0 == 0 ==> r == Err::<(), GameError>(GameError::ConvarUnset),
            old(self).offsets.interface.convar.0 != 0 ==> match r {
                Ok(()) => registry_convars(mem@, old(self).offsets.interface.convar.0) matches Ok(entries)
                    && final(self).convars.view() == old(self).convars.view() + entries,
                Err(GameError::Fault(f)) => registry_convars(mem@, old(self).offsets.interface.convar.0)
                    == Err::<Seq<(Seq<u8>, u64)>, Fault>(f),
                Err(GameError::ConvarUnset) => false,
            },
            r is Err ==> final(self).convars.view() == old(self).convars.view(),
    {
        if self.offsets.interface.convar.is_null() {
            return Err(GameError::ConvarUnset);
        }
        match ConvarMap::read(mem, self.offsets.interface.convar.0) {
            Ok(c) => {
                self.convars.extend(c);
                Ok(())
            },
            Err(f) => Err(GameError::Fault(f)),
        }
    }

    /// The string value of the convar `name`, stored at offset 64 of its
    /// descriptor; `Ok(None)` for a name the registry does not hold.
    pub fn get_convar_value_str(&self, mem: &PageCache, name: &[u8]) -> (r: Result<Option<Vec<u8>>, Fault>)
        ensures
            lookup(self.convars.view(), name@) is None ==> r == Ok::<Option<Vec<u8>>, Fault>(None),
            lookup(self.convars.view(), name@) matches Some(d) ==> match r {
                Ok(Some(v)) => string_at(mem@, d.wrapping_add(CONVAR_VALUE_OFFSET)) == Ok::<Seq<u8>, Fault>(v@),
                Ok(None) => false,
                Err(f) => string_at(mem@, d.wrapping_add(CONVAR_VALUE_OFFSET)) == Err::<Seq<u8>, Fault>(f),
            },
    {
        let descriptor = match self.convars.get(name) {
            Some(d) => d,
            None => {
                return Ok(None);
            },
        };
        match mem.read_string(descriptor.wrapping_add(CONVAR_VALUE_OFFSET)) {
            Ok(v) => Ok(Some(v)),
            Err(f) => Err(f),
        }
    }
}

/// The players of `s` whose health is above zero, in order.
pub open spec fn alive(s: Seq<PlayerView>) -> Seq<PlayerView>
    decreases s.len(),
{
    if s.len() == 0 {
        s
    } else if s.last().health > 0 {
        alive(s.drop_last()).push(s.last())
    } else {
        alive(s.drop_last())
    }
}

/// The batch that is broadcast: the tick's players without those whose
/// health is zero or less.
pub fn alive_players(players: Vec<Player>) -> (r: Vec<Player>)
    ensures
        players_view(r@) == alive(players_view(players@)),
        forall|j: int| 0 <= j < r@.len() ==> #[trigger] r@[j].health > 0,
{
    let ghost all = players_view(players@);
    let mut out: Vec<Player> = Vec::new();
    let mut i: usize = 0;
    let n = players.len();
    let mut rest = players;
    assert(all.take(0) =~= Seq::<PlayerView>::empty());
    assert(players_view(out@) =~= alive(all.take(0)));
    while i < n
        invariant
            n == all.len(),
            i <= n,
            rest@.len() == n - i,
            forall|q: int| 0 <= q < rest@.len() ==> #[trigger] rest@[q]@ == all[i + q],
            players_view(out@) == alive(all.take(i as int)),
            forall|j: int| 0 <= j < out@.len() ==> #[trigger] out@[j].health > 0,
        decreases n - i,
    {
        let p = rest.remove(0);
        assert(p@ == all[i as int]);
        let ghost t = all.take(i + 1);
        assert(t.drop_last() =~= all.take(i as int));
        assert(t.last() == p@);
        if p.health > 0 {
            let ghost prev = players_view(out@);
            out.push(p);
            assert(players_view(out@) =~= prev.push(p@));
        }
        i = i + 1;
    }
    assert(all.take(n as int) =~= all);
    out
}

/// What the polling worker does on a wake-up.
#[derive(Debug, Clone, Copy, PartialEq, Eq, Structural)]
pub enum PollAction {
    /// Nobody listens: read nothing from the target.
    Idle,
    /// Walk the entity table and publish the batch.
    Tick,
}

/// The polling worker's decision: the target is read only while the
/// broadcast channel has subscribers.
pub fn poll_action(subscribers: usize) -> (r: PollAction)
    ensures
        subscribers == 0 ==> r == PollAction::Idle,
        subscribers > 0 ==> r == PollAction::Tick,
{
    if subscribers == 0 {
        PollAction::Idle
    } else {
        PollAction::Tick
    }
}

/// The entity indices, from `k` to 64, at which `players_from` finds a
/// player.
pub open spec fn player_indices(m: PageMap, o: Offsets, k: u64, local: u64, target: Option<u64>) -> Seq<u64>
    decreases MAX_PLAYERS + 1 - k,
{
    if k > MAX_PLAYERS {
        Seq::empty()
    } else {
        match entity_player(m, o, k, local, target) {
            Ok(Some(_)) => seq![k] + player_indices(m, o, (k + 1) as u64, local, target),
            _ => player_indices(m, o, (k + 1) as u64, local, target),
        }
    }
}

/// Each player of a walk comes from its own entity index, in index order.
proof fn lemma_players_from_indices(m: PageMap, o: Offsets, k: u64, local: u64, target: Option<u64>, ps: Seq<PlayerView>)
    requires
        players_from(m, o, k, local, target) == Ok::<Seq<PlayerView>, Fault>(ps),
    ensures
        player_indices(m, o, k, local, target).len() == ps.len(),
        forall|j: int| 0 <= j < ps.len() ==> {
            let i = #[trigger] player_indices(m, o, k, local, target)[j];
            &&& k <= i <= MAX_PLAYERS
            &&& entity_player(m, o, i, local, target) == Ok::<Option<PlayerView>, Fault>(Some(ps[j]))
        },
        forall|j1: int, j2: int| 0 <= j1 < j2 < ps.len() ==> #[trigger] player_indices(m, o, k, local, target)[j1]
            < #[trigger] player_indices(m, o, k, local, target)[j2],
    decreases MAX_PLAYERS + 1 - k,
{
    if k <= MAX_PLAYERS {
        let idx = player_indices(m, o, k, local, target);
        let next = player_indices(m, o, (k + 1) as u64, local, target);
        match entity_player(m, o, k, local, target) {
            Err(_) => {},
            Ok(None) => {
                lemma_players_from_indices(m, o, (k + 1) as u64, local, target, ps);
            },
            Ok(Some(v)) => {
                let rest = players_from(m, o, (k + 1) as u64, local, target)->Ok_0;
                lemma_players_from_indices(m, o, (k + 1) as u64, local, target, rest);
                assert(ps =~= seq![v] + rest);
                assert(idx =~= seq![k] + next);
                assert forall|j: int| 0 <= j < ps.len() implies {
                    let i = #[trigger] idx[j];
                    &&& k <= i <= MAX_PLAYERS
                    &&& entity_player(m, o, i, local, target) == Ok::<Option<PlayerView>, Fault>(Some(ps[j]))
                } by {
                    if j > 0 {
                        assert(idx[j] == next[j - 1]);
                        assert(ps[j] == rest[j - 1]);
                    }
                }
                assert forall|j1: int, j2: int| 0 <= j1 < j2 < ps.len() implies #[trigger] idx[j1] < #[trigger] idx[j2] by {
                    assert(idx[j2] == next[j2 - 1]);
                    if j1 > 0 {
                        assert(idx[j1] == next[j1 - 1]);
                    }
                }
            },
        }
    }
}

/// What a player found at entity index `k` is made of.
proof fn lemma_entity_player(m: PageMap, o: Offsets, k: u64, local: u64, target: Option<u64>, v: PlayerView)
    requires
        entity_player(m, o, k, local, target) == Ok::<Option<PlayerView>, Fault>(Some(v)),
    ensures
        0 <= v.health <= MAX_VITAL,
        0 <= v.armor <= MAX_VITAL,
        0 <= v.money <= MAX_MONEY,
        exists|c: u64, pawn: u64| {
            &&& client_entity(m, o, k) == Ok::<Option<u64>, Fault>(Some(c))
            &&& pawn_of(m, o, c) == Ok::<u64, Fault>(pawn)
            &&& v.is_local_player == (c == local)
            &&& v.active_player == is_active(c, pawn, local, target)
            &&& clamped_i32_at(m, pawn.wrapping_add(o.network.pawn.m_iHealth.0), MAX_VITAL) == Ok::<i32, Fault>(v.health)
        },
{
    let c = client_entity(m, o, k)->Ok_0->Some_0;
    let pawn = pawn_of(m, o, c)->Ok_0;
    let base = player_view_of(m, o, c, pawn)->Ok_0->Some_0;
    assert(client_entity(m, o, k) == Ok::<Option<u64>, Fault>(Some(c)));
    assert(0 <= base.health <= MAX_VITAL);
    assert(0 <= base.armor <= MAX_VITAL);
    assert(0 <= base.money <= MAX_MONEY);
}

/// Every player of a tick has health and armor in `[0, 100]` and money in
/// `[0, 99999]`: values read outside those ranges become zero.
pub proof fn lemma_tick_values_clamped(m: PageMap, o: Offsets, ps: Seq<PlayerView>)
    requires
        tick_players(m, o) == Ok::<Seq<PlayerView>, Fault>(ps),
    ensures
        forall|j: int| 0 <= j < ps.len() ==> {
            &&& 0 <= #[trigger] ps[j].health <= MAX_VITAL
            &&& 0 <= ps[j].armor <= MAX_VITAL
            &&& 0 <= ps[j].money <= MAX_MONEY
        },
{
    let local = u64_at(m, o.direct.local_controller.0)->Ok_0;
    let local_pawn = pawn_of(m, o, local)->Ok_0;
    let target = spectator_target(m, o, local_pawn)->Ok_0;
    lemma_players_from_indices(m, o, 1, local, target, ps);
    assert forall|j: int| 0 <= j < ps.len() implies {
        &&& 0 <= #[trigger] ps[j].health <= MAX_VITAL
        &&& 0 <= ps[j].armor <= MAX_VITAL
        &&& 0 <= ps[j].money <= MAX_MONEY
    } by {
        let i = player_indices(m, o, 1, local, target)[j];
        lemma_entity_player(m, o, i, local, target, ps[j]);
    }
}

/// The active-player rule: when the local player spectates a pawn, a
/// player is active exactly when its pawn is that pawn; otherwise exactly
/// the local player is active. A player is local exactly when its
/// controller is the local controller.
pub proof fn lemma_active_player_rule(
    m: PageMap,
    o: Offsets,
    local: u64,
    local_pawn: u64,
    target: Option<u64>,
    ps: Seq<PlayerView>,
)
    requires
        u64_at(m, o.direct.local_controller.0) == Ok::<u64, Fault>(local),
        pawn_of(m, o, local) == Ok::<u64, Fault>(local_pawn),
        spectator_target(m, o, local_pawn) == Ok::<Option<u64>, Fault>(target),
        tick_players(m, o) == Ok::<Seq<PlayerView>, Fault>(ps),
    ensures
        forall|j: int| #![trigger ps[j]] 0 <= j < ps.len() ==> exists|k: u64, c: u64, pawn: u64|
            #![trigger client_entity(m, o, k), is_active(c, pawn, local, target)]
        {
            &&& 1 <= k <= MAX_PLAYERS
            &&& client_entity(m, o, k) == Ok::<Option<u64>, Fault>(Some(c))
            &&& pawn_of(m, o, c) == Ok::<u64, Fault>(pawn)
            &&& ps[j].is_local_player == (c == local)
            &&& ps[j].active_player == is_active(c, pawn, local, target)
        },
{
    lemma_players_from_indices(m, o, 1, local, target, ps);
    assert forall|j: int| #![trigger ps[j]] 0 <= j < ps.len() implies exists|k: u64, c: u64, pawn: u64|
        #![trigger client_entity(m, o, k), is_active(c, pawn, local, target)]
    {
        &&& 1 <= k <= MAX_PLAYERS
        &&& client_entity(m, o, k) == Ok::<Option<u64>, Fault>(Some(c))
        &&& pawn_of(m, o, c) == Ok::<u64, Fault>(pawn)
        &&& ps[j].is_local_player == (c == local)
        &&& ps[j].active_player == is_active(c, pawn, local, target)
    } by {
        let i = player_indices(m, o, 1, local, target)[j];
        lemma_entity_player(m, o, i, local, target, ps[j]);
        let c = client_entity(m, o, i)->Ok_0->Some_0;
        let pawn = pawn_of(m, o, c)->Ok_0;
        assert(is_active(c, pawn, local, target) == ps[j].active_player);
    }
}

/// At most one player of a tick is the local player, provided no two
/// entity slots hold the local controller.
pub proof fn lemma_at_most_one_local(m: PageMap, o: Offsets, local: u64, ps: Seq<PlayerView>)
    requires
        u64_at(m, o.direct.local_controller.0) == Ok::<u64, Fault>(local),
        tick_players(m, o) == Ok::<Seq<PlayerView>, Fault>(ps),
        forall|k1: u64, k2: u64|
            1 <= k1 <= MAX_PLAYERS && 1 <= k2 <= MAX_PLAYERS && k1 != k2
                && #[trigger] client_entity(m, o, k1) == Ok::<Option<u64>, Fault>(Some(local))
                ==> #[trigger] client_entity(m, o, k2) != Ok::<Option<u64>, Fault>(Some(local)),
    ensures
        forall|j1: int, j2: int| 0 <= j1 < j2 < ps.len() ==> !((#[trigger] ps[j1]).is_local_player
            && (#[trigger] ps[j2]).is_local_player),
{
    let local_pawn = pawn_of(m, o, local)->Ok_0;
    let target = spectator_target(m, o, local_pawn)->Ok_0;
    lemma_players_from_indices(m, o, 1, local, target, ps);
    let idx = player_indices(m, o, 1, local, target);
    assert forall|j1: int, j2: int| 0 <= j1 < j2 < ps.len() implies !((#[trigger] ps[j1]).is_local_player
        && (#[trigger] ps[j2]).is_local_player) by {
        let i1 = idx[j1];
        let i2 = idx[j2];
        assert(i1 < i2);
        lemma_entity_player(m, o, i1, local, target, ps[j1]);
        lemma_entity_player(m, o, i2, local, target, ps[j2]);
    }
}

/// When every local entry of a batch has health zero or less, the
/// filtered batch holds no local entry.
proof fn lemma_alive_drops(s: Seq<PlayerView>)
    requires
        forall|k: int| 0 <= k < s.len() && (#[trigger] s[k]).is_local_player ==> s[k].health <= 0,
    ensures
        forall|j: int| 0 <= j < alive(s).len() ==> !(#[trigger] alive(s)[j]).is_local_player,
    decreases s.len(),
{
    if s.len() > 0 {
        let d = s.drop_last();
        assert forall|k: int| 0 <= k < d.len() && (#[trigger] d[k]).is_local_player implies d[k].health <= 0 by {
            assert(d[k] == s[k]);
        }
        lemma_alive_drops(d);
        assert(s.last() == s[s.len() - 1]);
    }
}

/// A local player whose pawn reads zero health is never broadcast: every
/// entry marked local has the local pawn, hence that health, and the
/// filter drops it.
pub proof fn lemma_dead_local_not_broadcast(m: PageMap, o: Offsets, local: u64, local_pawn: u64, ps: Seq<PlayerView>)
    requires
        u64_at(m, o.direct.local_controller.0) == Ok::<u64, Fault>(local),
        pawn_of(m, o, local) == Ok::<u64, Fault>(local_pawn),
        clamped_i32_at(m, local_pawn.wrapping_add(o.network.pawn.m_iHealth.0), MAX_VITAL) == Ok::<i32, Fault>(0),
        tick_players(m, o) == Ok::<Seq<PlayerView>, Fault>(ps),
    ensures
        forall|j: int| 0 <= j < alive(ps).len() ==> !(#[trigger] alive(ps)[j]).is_local_player,
{
    let target = spectator_target(m, o, local_pawn)->Ok_0;
    lemma_players_from_indices(m, o, 1, local, target, ps);
    assert forall|k: int| 0 <= k < ps.len() && (#[trigger] ps[k]).is_local_player implies ps[k].health <= 0 by {
        let i = player_indices(m, o, 1, local, target)[k];
        lemma_entity_player(m, o, i, local, target, ps[k]);
    }
    lemma_alive_drops(ps);
}
} // verus!
