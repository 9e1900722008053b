use vstd::prelude::*;
use vstd::string::StringSliceAdditionalSpecFns;
use crate::address::Address;
use crate::elf::{bytes_equal, ModuleImage};
use crate::memory::{c_string, c_string_at, le_u32, le_u64, read_u32_vec, read_u64_vec};

verus! {

/// One field offset that the netvar scan discovers.
#[derive(Debug, Clone, Copy, PartialEq, Eq, Structural)]
pub enum NetvarField {
    PlayerName,
    Pawn,
    CompTeammateColor,
    Ping,
    InGameMoneyServices,
    SteamId,
    Health,
    ArmorValue,
    TeamNum,
    LifeState,
    ClippingWeapon,
    OldOrigin,
    EyeAngles,
    WeaponServices,
    ObserverServices,
    ItemServices,
    ActiveWeapon,
    MyWeapons,
    Account,
    ObserverTarget,
    HasDefuser,
    HasHelmet,
}

/// The field whose descriptor carries `name`.
pub open spec fn field_named(name: Seq<u8>) -> Option<NetvarField> {
    if name == "m_sSanitizedPlayerName".spec_bytes() {
        Some(NetvarField::PlayerName)
    } else if name == "m_hPawn".spec_bytes() {
        Some(NetvarField::Pawn)
    } else if name == "m_iCompTeammateColor".spec_bytes() {
        Some(NetvarField::CompTeammateColor)
    } else if name == "m_iPing".spec_bytes() {
        Some(NetvarField::Ping)
    } else if name == "m_pInGameMoneyServices".spec_bytes() {
        Some(NetvarField::InGameMoneyServices)
    } else if name == "m_steamID".spec_bytes() {
        Some(NetvarField::SteamId)
    } else if name == "m_iHealth".spec_bytes() {
        Some(NetvarField::Health)
    } else if name == "m_ArmorValue".spec_bytes() {
        Some(NetvarField::ArmorValue)
    } else if name == "m_iTeamNum".spec_bytes() {
        Some(NetvarField::TeamNum)
    } else if name == "m_lifeState".spec_bytes() {
        Some(NetvarField::LifeState)
    } else if name == "m_pClippingWeapon".spec_bytes() {
        Some(NetvarField::ClippingWeapon)
    } else if name == "m_vOldOrigin".spec_bytes() {
        Some(NetvarField::OldOrigin)
    } else if name == "m_angEyeAngles".spec_bytes() {
        Some(NetvarField::EyeAngles)
    } else if name == "m_pWeaponServices".spec_bytes() {
        Some(NetvarField::WeaponServices)
    } else if name == "m_pObserverServices".spec_bytes() {
        Some(NetvarField::ObserverServices)
    } else if name == "m_pItemServices".spec_bytes() {
        Some(NetvarField::ItemServices)
    } else if name == "m_hActiveWeapon".spec_bytes() {
        Some(NetvarField::ActiveWeapon)
    } else if name == "m_hMyWeapons".spec_bytes() {
        Some(NetvarField::MyWeapons)
    } else if name == "m_iAccount".spec_bytes() {
        Some(NetvarField::Account)
    } else if name == "m_hObserverTarget".spec_bytes() {
        Some(NetvarField::ObserverTarget)
    } else if name == "m_bHasDefuser".spec_bytes() {
        Some(NetvarField::HasDefuser)
    } else if name == "m_bHasHelmet".spec_bytes() {
        Some(NetvarField::HasHelmet)
    } else {
        None
    }
}

/// Where, relative to the descriptor, the field's offset is stored. Records
/// flagged `MNetworkEnable` keep it at `0x18`; the two other layouts at
/// `0x10` and `0x08`.
pub open spec fn displacement(f: NetvarField) -> int {
    match f {
        NetvarField::CompTeammateColor | NetvarField::InGameMoneyServices
        | NetvarField::ClippingWeapon | NetvarField::EyeAngles | NetvarField::Account
        | NetvarField::HasDefuser => 0x10,
        NetvarField::OldOrigin | NetvarField::WeaponServices | NetvarField::ObserverServices
        | NetvarField::ItemServices | NetvarField::MyWeapons | NetvarField::ObserverTarget => 0x08,
        _ => 0x18,
    }
}

/// Whether the field is only taken from records flagged `MNetworkEnable`.
pub open spec fn needs_network_enable(f: NetvarField) -> bool {
    displacement(f) == 0x18
}

/// ASCII lower case of a byte string.
pub open spec fn ascii_lower(s: Seq<u8>) -> Seq<u8> {
    s.map_values(|c: u8| if 0x41 <= c <= 0x5A { (c + 0x20) as u8 } else { c })
}

/// Whether `p` points into the module, its end included.
pub open spec fn in_module(base: u64, s: Seq<u8>, p: u64) -> bool {
    base <= p && p <= base + s.len()
}

/// Whether the pointer at offset `i` leads, through one more pointer, to the
/// string `MNetworkEnable` in any letter case.
pub open spec fn network_enable_at(base: u64, s: Seq<u8>, i: int) -> bool {
    &&& 0 <= i
    &&& i + 8 <= s.len()
    &&& in_module(base, s, le_u64(s, i))
    &&& le_u64(s, i) - base + 8 <= s.len()
    &&& in_module(base, s, le_u64(s, le_u64(s, i) - base))
    &&& ascii_lower(c_string(s, le_u64(s, le_u64(s, i) - base) - base)) == ascii_lower(
        "MNetworkEnable".spec_bytes(),
    )
}

/// The netvar name that the record at offset `i` points to: through the
/// pointer at `i + 8` for flagged records, else through the one at `i`.
pub open spec fn netvar_name_at(base: u64, s: Seq<u8>, i: int) -> Option<Seq<u8>> {
    let at = if network_enable_at(base, s, i) {
        i + 8
    } else {
        i
    };
    if at < 0 || at + 8 > s.len() || !in_module(base, s, le_u64(s, at)) {
        None
    } else {
        Some(c_string(s, le_u64(s, at) - base))
    }
}

/// The offset that the record at `i` gives for field `f`, if it is a record
/// of that field.
pub open spec fn candidate(base: u64, s: Seq<u8>, i: int, f: NetvarField) -> Option<u64> {
    match netvar_name_at(base, s, i) {
        Some(name) => if field_named(name) == Some(f) && (needs_network_enable(f)
            ==> network_enable_at(base, s, i)) && i + displacement(f) + 4 <= s.len() {
            Some(le_u32(s, i + displacement(f)) as u64)
        } else {
            None
        },
        None => None,
    }
}

/// The `k`-th position of the scan, which walks the module from its last
/// 8-byte slot downward in steps of 8.
pub open spec fn scan_position(s: Seq<u8>, k: int) -> int {
    s.len() - 8 - 8 * k
}

/// The offset of field `f` found from the `k`-th position on: the first
/// non-zero candidate in scan order, or zero (unset) when there is none.
pub open spec fn scan_from(base: u64, s: Seq<u8>, f: NetvarField, k: nat) -> u64
    decreases s.len() - 8 * k,
{
    if scan_position(s, k as int) < 0 {
        0
    } else {
        match candidate(base, s, scan_position(s, k as int), f) {
            Some(v) => if v != 0 {
                v
            } else {
                scan_from(base, s, f, k + 1)
            },
            None => scan_from(base, s, f, k + 1),
        }
    }
}

#[allow(non_snake_case)]
#[derive(Debug, Clone, Copy, Default)]
pub struct PlayerControllerOffsets {
    pub m_iszPlayerName: Address,
    pub m_hPawn: Address,
    pub m_iCompTeammateColor: Address,
    pub m_iPing: Address,
    pub m_pInGameMoneyServices: Address,
    pub m_steamID: Address,
}

#[allow(non_snake_case)]
#[derive(Debug, Clone, Copy, Default)]
pub struct PawnOffsets {
    pub m_iHealth: Address,
    pub m_ArmorValue: Address,
    pub m_iTeamNum: Address,
    pub m_lifeState: Address,
    pub m_pClippingWeapon: Address,
    pub m_vOldOrigin: Address,
    pub m_angEyeAngles: Address,
    pub m_pWeaponServices: Address,
    pub m_pObserverServices: Address,
    pub m_pItemServices: Address,
}

#[allow(non_snake_case)]
#[derive(Debug, Clone, Copy, Default)]
pub struct WeaponServiceOffsets {
    pub m_hActiveWeapon: Address,
    pub m_hMyWeapons: Address,
}

#[allow(non_snake_case)]
#[derive(Debug, Clone, Copy, Default)]
pub struct MoneyServiceOffsets {
    pub m_iAccount: Address,
}

#[allow(non_snake_case)]
#[derive(Debug, Clone, Copy, Default)]
pub struct ObserverServiceOffsets {
    pub m_hObserverTarget: Address,
}

#[allow(non_snake_case)]
#[derive(Debug, Clone, Copy, Default)]
pub struct ItemServiceOffsets {
    pub m_bHasDefuser: Address,
    pub m_bHasHelmet: Address,
}

/// Byte offsets of the fields the per-tick walk reads, grouped by class;
/// zero means not found.
#[derive(Debug, Clone, Copy, Default)]
pub struct NetVarOffsets {
    pub controller: PlayerControllerOffsets,
    pub pawn: PawnOffsets,
    pub weapon_service: WeaponServiceOffsets,
    pub money_service: MoneyServiceOffsets,
    pub observer_service: ObserverServiceOffsets,
    pub item_service: ItemServiceOffsets,
}

impl NetVarOffsets {
    /// A table with every field unset.
    pub fn new() -> (r: NetVarOffsets)
        ensures
            forall|f: NetvarField| #[trigger] r.value(f) == 0,
    {
        let z = Address(0);
        NetVarOffsets {
            controller: PlayerControllerOffsets {
                m_iszPlayerName: z,
                m_hPawn: z,
                m_iCompTeammateColor: z,
                m_iPing: z,
                m_pInGameMoneyServices: z,
                m_steamID: z,
            },
            pawn: PawnOffsets {
                m_iHealth: z,
                m_ArmorValue: z,
                m_iTeamNum: z,
                m_lifeState: z,
                m_pClippingWeapon: z,
                m_vOldOrigin: z,
                m_angEyeAngles: z,
                m_pWeaponServices: z,
                m_pObserverServices: z,
                m_pItemServices: z,
            },
            weapon_service: WeaponServiceOffsets { m_hActiveWeapon: z, m_hMyWeapons: z },
            money_service: MoneyServiceOffsets { m_iAccount: z },
            observer_service: ObserverServiceOffsets { m_hObserverTarget: z },
            item_service: ItemServiceOffsets { m_bHasDefuser: z, m_bHasHelmet: z },
        }
    }

    /// The offset recorded for field `f`.
    pub open spec fn value(&self, f: NetvarField) -> u64 {
        match f {
            NetvarField::PlayerName => self.controller.m_iszPlayerName.0,
            NetvarField::Pawn => self.controller.m_hPawn.0,
            NetvarField::CompTeammateColor => self.controller.m_iCompTeammateColor.0,
            NetvarField::Ping => self.controller.m_iPing.0,
            NetvarField::InGameMoneyServices => self.controller.m_pInGameMoneyServices.0,
            NetvarField::SteamId => self.controller.m_steamID.0,
            NetvarField::Health => self.pawn.m_iHealth.0,
            NetvarField::ArmorValue => self.pawn.m_ArmorValue.0,
            NetvarField::TeamNum => self.pawn.m_iTeamNum.0,
            NetvarField::LifeState => self.pawn.m_lifeState.0,
            NetvarField::ClippingWeapon => self.pawn.m_pClippingWeapon.0,
            NetvarField::OldOrigin => self.pawn.m_vOldOrigin.0,
            NetvarField::EyeAngles => self.pawn.m_angEyeAngles.0,
            NetvarField::WeaponServices => self.pawn.m_pWeaponServices.0,
            NetvarField::ObserverServices => self.pawn.m_pObserverServices.0,
            NetvarField::ItemServices => self.pawn.m_pItemServices.0,
            NetvarField::ActiveWeapon => self.weapon_service.m_hActiveWeapon.0,
            NetvarField::MyWeapons => self.weapon_service.m_hMyWeapons.0,
            NetvarField::Account => self.money_service.m_iAccount.0,
            NetvarField::ObserverTarget => self.observer_service.m_hObserverTarget.0,
            NetvarField::HasDefuser => self.item_service.m_bHasDefuser.0,
            NetvarField::HasHelmet => self.item_service.m_bHasHelmet.0,
        }
    }

    /// Whether every field has been found.
    pub open spec fn is_complete(&self) -> bool {
        forall|f: NetvarField| #[trigger] self.value(f) != 0
    }

    pub fn get(&self, f: NetvarField) -> (r: Address)
        ensures
            r.0 == self.value(f),
    {
        match f {
            NetvarField::PlayerName => self.controller.m_iszPlayerName,
            NetvarField::Pawn => self.controller.m_hPawn,
            NetvarField::CompTeammateColor => self.controller.m_iCompTeammateColor,
            NetvarField::Ping => self.controller.m_iPing,
            NetvarField::InGameMoneyServices => self.controller.m_pInGameMoneyServices,
            NetvarField::SteamId => self.controller.m_steamID,
            NetvarField::Health => self.pawn.m_iHealth,
            NetvarField::ArmorValue => self.pawn.m_ArmorValue,
            NetvarField::TeamNum => self.pawn.m_iTeamNum,
            NetvarField::LifeState => self.pawn.m_lifeState,
            NetvarField::ClippingWeapon => self.pawn.m_pClippingWeapon,
            NetvarField::OldOrigin => self.pawn.m_vOldOrigin,
            NetvarField::EyeAngles => self.pawn.m_angEyeAngles,
            NetvarField::WeaponServices => self.pawn.m_pWeaponServices,
            NetvarField::ObserverServices => self.pawn.m_pObserverServices,
            NetvarField::ItemServices => self.pawn.m_pItemServices,
            NetvarField::ActiveWeapon => self.weapon_service.m_hActiveWeapon,
            NetvarField::MyWeapons => self.weapon_service.m_hMyWeapons,
            NetvarField::Account => self.money_service.m_iAccount,
            NetvarField::ObserverTarget => self.observer_service.m_hObserverTarget,
            NetvarField::HasDefuser => self.item_service.m_bHasDefuser,
            NetvarField::HasHelmet => self.item_service.m_bHasHelmet,
        }
    }

    pub fn set(&mut self, f: NetvarField, value: Address)
        ensures
            final(self).value(f) == value.0,
            forall|g: NetvarField| g != f ==> final(self).value(g) == old(self).value(g),
    {
        match f {
            NetvarField::PlayerName => self.controller.m_iszPlayerName = value,
            NetvarField::Pawn => self.controller.m_hPawn = value,
            NetvarField::CompTeammateColor => self.controller.m_iCompTeammateColor = value,
            NetvarField::Ping => self.controller.m_iPing = value,
            NetvarField::InGameMoneyServices => self.controller.m_pInGameMoneyServices = value,
            NetvarField::SteamId => self.controller.m_steamID = value,
            NetvarField::Health => self.pawn.m_iHealth = value,
            NetvarField::ArmorValue => self.pawn.m_ArmorValue = value,
            NetvarField::TeamNum => self.pawn.m_iTeamNum = value,
            NetvarField::LifeState => self.pawn.m_lifeState = value,
            NetvarField::ClippingWeapon => self.pawn.m_pClippingWeapon = value,
            NetvarField::OldOrigin => self.pawn.m_vOldOrigin = value,
            NetvarField::EyeAngles => self.pawn.m_angEyeAngles = value,
            NetvarField::WeaponServices => self.pawn.m_pWeaponServices = value,
            NetvarField::ObserverServices => self.pawn.m_pObserverServices = value,
            NetvarField::ItemServices => self.pawn.m_pItemServices = value,
            NetvarField::ActiveWeapon => self.weapon_service.m_hActiveWeapon = value,
            NetvarField::MyWeapons => self.weapon_service.m_hMyWeapons = value,
            NetvarField::Account => self.money_service.m_iAccount = value,
            NetvarField::ObserverTarget => self.observer_service.m_hObserverTarget = value,
            NetvarField::HasDefuser => self.item_service.m_bHasDefuser = value,
            NetvarField::HasHelmet => self.item_service.m_bHasHelmet = value,
        }
    }

    /// Whether every field has been found.
    pub fn complete(&self) -> (r: bool)
        ensures
            r == self.is_complete(),
    {
        let fields = all_fields();
        let mut i: usize = 0;
        while i < fields.len()
            invariant
                i <= fields@.len(),
                forall|f: NetvarField| #[trigger] fields@.contains(f),
                forall|k: int| 0 <= k < i ==> self.value(#[trigger] fields@[k]) != 0,
            decreases fields@.len() - i,
        {
            if self.get(fields[i]).0 == 0 {
                return false;
            }
            i = i + 1;
        }
        assert forall|f: NetvarField| #[trigger] self.value(f) != 0 by {
            assert(fields@.contains(f));
        }
        true
    }
}

fn field_named_exec(name: &[u8]) -> (r: Option<NetvarField>)
    ensures
        r == field_named(name@),
{
    if bytes_equal(name, "m_sSanitizedPlayerName".as_bytes()) {
        Some(NetvarField::PlayerName)
    } else if bytes_equal(name, "m_hPawn".as_bytes()) {
        Some(NetvarField::Pawn)
    } else if bytes_equal(name, "m_iCompTeammateColor".as_bytes()) {
        Some(NetvarField::CompTeammateColor)
    } else if bytes_equal(name, "m_iPing".as_bytes()) {
        Some(NetvarField::Ping)
    } else if bytes_equal(name, "m_pInGameMoneyServices".as_bytes()) {
        Some(NetvarField::InGameMoneyServices)
    } else if bytes_equal(name, "m_steamID".as_bytes()) {
        Some(NetvarField::SteamId)
    } else if bytes_equal(name, "m_iHealth".as_bytes()) {
        Some(NetvarField::Health)
    } else if bytes_equal(name, "m_ArmorValue".as_bytes()) {
        Some(NetvarField::ArmorValue)
    } else if bytes_equal(name, "m_iTeamNum".as_bytes()) {
        Some(NetvarField::TeamNum)
    } else if bytes_equal(name, "m_lifeState".as_bytes()) {
        Some(NetvarField::LifeState)
    } else if bytes_equal(name, "m_pClippingWeapon".as_bytes()) {
        Some(NetvarField::ClippingWeapon)
    } else if bytes_equal(name, "m_vOldOrigin".as_bytes()) {
        Some(NetvarField::OldOrigin)
    } else if bytes_equal(name, "m_angEyeAngles".as_bytes()) {
        Some(NetvarField::EyeAngles)
    } else if bytes_equal(name, "m_pWeaponServices".as_bytes()) {
        Some(NetvarField::WeaponServices)
    } else if bytes_equal(name, "m_pObserverServices".as_bytes()) {
        Some(NetvarField::ObserverServices)
    } else if bytes_equal(name, "m_pItemServices".as_bytes()) {
        Some(NetvarField::ItemServices)
    } else if bytes_equal(name, "m_hActiveWeapon".as_bytes()) {
        Some(NetvarField::ActiveWeapon)
    } else if bytes_equal(name, "m_hMyWeapons".as_bytes()) {
        Some(NetvarField::MyWeapons)
    } else if bytes_equal(name, "m_iAccount".as_bytes()) {
        Some(NetvarField::Account)
    } else if bytes_equal(name, "m_hObserverTarget".as_bytes()) {
        Some(NetvarField::ObserverTarget)
    } else if bytes_equal(name, "m_bHasDefuser".as_bytes()) {
        Some(NetvarField::HasDefuser)
    } else if bytes_equal(name, "m_bHasHelmet".as_bytes()) {
        Some(NetvarField::HasHelmet)
    } else {
        None
    }
}

fn all_fields() -> (r: Vec<NetvarField>)
    ensures
        forall|f: NetvarField| #[trigger] r@.contains(f),
{
    let r = vec![NetvarField::PlayerName, NetvarField::Pawn, NetvarField::CompTeammateColor, NetvarField::Ping, NetvarField::InGameMoneyServices, NetvarField::SteamId, NetvarField::Health, NetvarField::ArmorValue, NetvarField::TeamNum, NetvarField::LifeState, NetvarField::ClippingWeapon, NetvarField::OldOrigin, NetvarField::EyeAngles, NetvarField::WeaponServices, NetvarField::ObserverServices, NetvarField::ItemServices, NetvarField::ActiveWeapon, NetvarField::MyWeapons, NetvarField::Account, NetvarField::ObserverTarget, NetvarField::HasDefuser, NetvarField::HasHelmet];
    assert forall|f: NetvarField| #[trigger] r@.contains(f) by {
        match f {
            NetvarField::PlayerName => assert(r@[0] == f),
            NetvarField::Pawn => assert(r@[1] == f),
            NetvarField::CompTeammateColor => assert(r@[2] == f),
            NetvarField::Ping => assert(r@[3] == f),
            NetvarField::InGameMoneyServices => assert(r@[4] == f),
            NetvarField::SteamId => assert(r@[5] == f),
            NetvarField::Health => assert(r@[6] == f),
            NetvarField::ArmorValue => assert(r@[7] == f),
            NetvarField::TeamNum => assert(r@[8] == f),
            NetvarField::LifeState => assert(r@[9] == f),
            NetvarField::ClippingWeapon => assert(r@[10] == f),
            NetvarField::OldOrigin => assert(r@[11] == f),
            NetvarField::EyeAngles => assert(r@[12] == f),
            NetvarField::WeaponServices => assert(r@[13] == f),
            NetvarField::ObserverServices => assert(r@[14] == f),
            NetvarField::ItemServices => assert(r@[15] == f),
            NetvarField::ActiveWeapon => assert(r@[16] == f),
            NetvarField::MyWeapons => assert(r@[17] == f),
            NetvarField::Account => assert(r@[18] == f),
            NetvarField::ObserverTarget => assert(r@[19] == f),
            NetvarField::HasDefuser => assert(r@[20] == f),
            NetvarField::HasHelmet => assert(r@[21] == f),
        }
    }
    r
}

fn displacement_of(f: NetvarField) -> (r: u64)
    ensures
        r == displacement(f),
{
    match f {
        NetvarField::CompTeammateColor | NetvarField::InGameMoneyServices
        | NetvarField::ClippingWeapon | NetvarField::EyeAngles | NetvarField::Account
        | NetvarField::HasDefuser => 0x10,
        NetvarField::OldOrigin | NetvarField::WeaponServices | NetvarField::ObserverServices
        | NetvarField::ItemServices | NetvarField::MyWeapons | NetvarField::ObserverTarget => 0x08,
        _ => 0x18,
    }
}

fn ascii_lower_byte(c: u8) -> (r: u8)
    ensures
        r == (if 0x41 <= c <= 0x5A { (c + 0x20) as u8 } else { c }),
{
    if 0x41 <= c && c <= 0x5A {
        c + 0x20
    } else {
        c
    }
}

/// Equality of two byte strings up to ASCII letter case.
pub fn eq_ignore_ascii_case(a: &[u8], b: &[u8]) -> (r: bool)
    ensures
        r == (ascii_lower(a@) == ascii_lower(b@)),
{
    if a.len() != b.len() {
        assert(ascii_lower(a@).len() != ascii_lower(b@).len());
        return false;
    }
    let mut i: usize = 0;
    while i < a.len()
        invariant
            a@.len() == b@.len(),
            i <= a@.len(),
            forall|k: int| 0 <= k < i ==> ascii_lower(a@)[k] == ascii_lower(b@)[k],
        decreases a@.len() - i,
    {
        if ascii_lower_byte(a[i]) != ascii_lower_byte(b[i]) {
            assert(ascii_lower(a@)[i as int] != ascii_lower(b@)[i as int]);
            return false;
        }
        i = i + 1;
    }
    assert(ascii_lower(a@) =~= ascii_lower(b@));
    true
}

/// Whether `p` lies in `[base, base + len]`.
fn points_into(base: u64, len: usize, p: u64) -> (r: bool)
    ensures
        r == (base <= p && p <= base + len),
{
    p >= base && p - base <= len as u64
}

fn network_enable(s: &[u8], base: u64, i: usize) -> (r: bool)
    requires
        i + 8 <= s@.len(),
    ensures
        r == network_enable_at(base, s@, i as int),
{
    let p = read_u64_vec(s, i as u64);
    if !points_into(base, s.len(), p) || s.len() as u64 - (p - base) < 8 {
        return false;
    }
    let p2 = read_u64_vec(s, p - base);
    if !points_into(base, s.len(), p2) {
        return false;
    }
    let name = c_string_at(s, (p2 - base) as usize);
    eq_ignore_ascii_case(name.as_slice(), "MNetworkEnable".as_bytes())
}

fn netvar_name(s: &[u8], base: u64, i: usize, enable: bool) -> (r: Option<Vec<u8>>)
    requires
        i + 8 <= s@.len(),
        enable == network_enable_at(base, s@, i as int),
    ensures
        match r {
            Some(v) => netvar_name_at(base, s@, i as int) == Some(v@),
            None => netvar_name_at(base, s@, i as int) is None,
        },
{
    let n = s.len();
    let at = if enable {
        i + 8
    } else {
        i
    };
    if n - at < 8 {
        return None;
    }
    let p = read_u64_vec(s, at as u64);
    if !points_into(base, s.len(), p) {
        return None;
    }
    Some(c_string_at(s, (p - base) as usize))
}

/// What the netvar table holds for `f` once the scan has passed the
/// positions before the `k`-th.
pub open spec fn found_before(t: NetVarOffsets, base: u64, s: Seq<u8>, f: NetvarField, k: nat) -> u64 {
    if t.value(f) != 0 {
        t.value(f)
    } else {
        scan_from(base, s, f, k)
    }
}

impl NetVarOffsets {
    /// Scans the client module for netvar descriptor records and records
    /// each field's offset. Fields already set keep their value; for each
    /// other field the first non-zero candidate in scan order wins.
    pub fn set_offsets(&mut self, client: &ModuleImage)
        ensures
            forall|f: NetvarField| #[trigger] final(self).value(f) == found_before(
                *old(self),
                client.base,
                client.bytes@,
                f,
                0,
            ),
    {
        let s = client.bytes.as_slice();
        let base = client.base;
        let ghost sq = s@;
        if s.len() < 8 {
            return;
        }
        let mut i: usize = s.len() - 8;
        let ghost mut k: nat = 0;
        loop
            invariant
                sq == s@,
                sq == client.bytes@,
                base == client.base,
                i + 8 <= sq.len(),
                i == scan_position(sq, k as int),
                forall|f: NetvarField| #[trigger] found_before(*old(self), base, sq, f, 0)
                    == found_before(*self, base, sq, f, k),
            decreases i,
        {
            let ghost before = *self;
            let enable = network_enable(s, base, i);
            let name = netvar_name(s, base, i, enable);
            match name {
                Some(name) => {
                    match field_named_exec(name.as_slice()) {
                        Some(f) => {
                            let d = displacement_of(f);
                            let applies = (!(d == 0x18) || enable) && (s.len() - i) as u64 >= d + 4;
                            if applies && self.get(f).0 == 0 {
                                let v = read_u32_vec(s, i as u64 + d);
                                self.set(f, v);
                            }
                            assert forall|g: NetvarField| #[trigger] found_before(before, base, sq, g, k)
                                == found_before(*self, base, sq, g, k + 1) by {
                                if g != f {
                                    assert(candidate(base, sq, i as int, g) is None);
                                }
                            }
                        },
                        None => {
                            assert forall|g: NetvarField| #[trigger] found_before(before, base, sq, g, k)
                                == found_before(*self, base, sq, g, k + 1) by {
                                assert(candidate(base, sq, i as int, g) is None);
                            }
                        },
                    }
                },
                None => {
                    assert forall|g: NetvarField| #[trigger] found_before(before, base, sq, g, k)
                        == found_before(*self, base, sq, g, k + 1) by {
                        assert(candidate(base, sq, i as int, g) is None);
                    }
                },
            }
            if i < 8 {
                assert forall|g: NetvarField| #[trigger] found_before(*self, base, sq, g, k + 1)
                    == self.value(g) by {
                    assert(scan_position(sq, (k + 1) as int) < 0);
                }
                return;
            }
            i = i - 8;
            proof {
                k = k + 1;
            }
        }
    }
}

} // verus!
