use std::collections::HashMap;

use make_it_fair::address::Address;
use make_it_fair::convar::ConvarMap;
use make_it_fair::game::{alive_players, poll_action, Cs2Interface, LifeState, Player, PollAction, Team};
use make_it_fair::netvar::{NetVarOffsets, NetvarField};
use make_it_fair::offsets::{DirectOffsets, InterfaceOffsets, LibraryOffsets, Offsets};
use make_it_fair::pages::{Fault, PageCache, PAGE_SIZE};

const LOCAL_GLOBAL: u64 = 0x1000_0000;
const ENTITY: u64 = 0x2000_0000;
const BUCKET: u64 = 0x2100_0000;

/// A sparse fabricated target memory.
struct Target {
    pages: HashMap<u64, Vec<u8>>,
}

impl Target {
    fn new() -> Target {
        Target { pages: HashMap::new() }
    }

    fn write(&mut self, at: u64, bytes: &[u8]) {
        for (i, b) in bytes.iter().enumerate() {
            let a = at + i as u64;
            let page = self.pages.entry(a / PAGE_SIZE).or_insert_with(|| vec![0u8; PAGE_SIZE as usize]);
            page[(a % PAGE_SIZE) as usize] = *b;
        }
    }

    fn u64(&mut self, at: u64, v: u64) {
        self.write(at, &v.to_le_bytes());
    }

    fn u32(&mut self, at: u64, v: u32) {
        self.write(at, &v.to_le_bytes());
    }

    fn i32(&mut self, at: u64, v: i32) {
        self.write(at, &v.to_le_bytes());
    }

    fn u8(&mut self, at: u64, v: u8) {
        self.write(at, &[v]);
    }

    fn cstr(&mut self, at: u64, s: &str) {
        self.write(at, s.as_bytes());
        self.write(at + s.len() as u64, &[0]);
    }

    /// Runs a tick the way the poller does: fetch each page the walk asks
    /// for, then walk again.
    fn tick(&self, game: &Cs2Interface) -> Result<Vec<Player>, Fault> {
        let mut mem = PageCache::new();
        loop {
            match game.get_players(&mem) {
                Err(Fault::Missing(p)) => mem.insert_page(p, self.pages.get(&p).cloned()),
                other => return other,
            }
        }
    }
}

fn offsets() -> Offsets {
    let mut n = NetVarOffsets::new();
    let fields = [
        (NetvarField::Pawn, 0x60),
        (NetvarField::PlayerName, 0x68),
        (NetvarField::InGameMoneyServices, 0x70),
        (NetvarField::CompTeammateColor, 0x78),
        (NetvarField::Ping, 0x7C),
        (NetvarField::SteamId, 0x80),
        (NetvarField::Health, 0x100),
        (NetvarField::ArmorValue, 0x104),
        (NetvarField::TeamNum, 0x108),
        (NetvarField::LifeState, 0x109),
        (NetvarField::ClippingWeapon, 0x110),
        (NetvarField::OldOrigin, 0x118),
        (NetvarField::EyeAngles, 0x124),
        (NetvarField::WeaponServices, 0x128),
        (NetvarField::ObserverServices, 0x130),
        (NetvarField::ItemServices, 0x138),
        (NetvarField::ActiveWeapon, 0x10),
        (NetvarField::MyWeapons, 0x20),
        (NetvarField::Account, 0x40),
        (NetvarField::ObserverTarget, 0x44),
        (NetvarField::HasDefuser, 0x48),
        (NetvarField::HasHelmet, 0x49),
    ];
    for (f, v) in fields {
        n.set(f, Address(v));
    }
    Offsets {
        interface: InterfaceOffsets {
            resource: Address(0x5000_0000),
            entity: Address(ENTITY),
            convar: Address(0x6000_0000),
            player: Address(ENTITY + 0x10),
        },
        library: LibraryOffsets { client: Address(0x7000_0000), engine: Address(0x7100_0000), tier0: Address(0x7200_0000) },
        direct: DirectOffsets { local_controller: Address(LOCAL_GLOBAL) },
        network: n,
    }
}

fn game() -> Cs2Interface {
    Cs2Interface { offsets: offsets(), convars: ConvarMap::new() }
}

fn controller_at(k: u64) -> u64 {
    0x3000_0000 + k * 0x1000
}

fn pawn_at(k: u64) -> u64 {
    0x4000_0000 + k * 0x1000
}

/// Pawns sit at entity index `k + 100` of the same bucket.
fn pawn_handle(k: u64) -> u32 {
    (k + 100) as u32
}

struct Spec {
    name: &'static str,
    team: u8,
    health: i32,
    armor: i32,
    money: i32,
    life: u8,
}

fn empty_world() -> Target {
    let mut t = Target::new();
    t.u64(ENTITY + 0x10, BUCKET);
    t
}

fn add_player(t: &mut Target, k: u64, s: &Spec) {
    let c = controller_at(k);
    let p = pawn_at(k);
    t.u64(BUCKET + 120 * k, c);
    t.u64(BUCKET + 120 * (k + 100), p);
    t.u32(c + 0x60, pawn_handle(k));
    t.u64(c + 0x68, c + 0x800);
    t.cstr(c + 0x800, s.name);
    t.u64(c + 0x70, c + 0x900);
    t.i32(c + 0x900 + 0x40, s.money);
    t.i32(c + 0x78, 3);
    t.i32(c + 0x7C, 25);
    t.u64(c + 0x80, 76561198000000000 + k);
    t.i32(p + 0x100, s.health);
    t.i32(p + 0x104, s.armor);
    t.u8(p + 0x108, s.team);
    t.u8(p + 0x109, s.life);
    t.u32(p + 0x118, 0x3F80_0000);
    t.u32(p + 0x11C, 0x4000_0000);
    t.u32(p + 0x120, 0x4040_0000);
    t.u32(p + 0x124, 0x42B4_0000);
}

fn give_weapon(t: &mut Target, k: u64, weapon_index: u64, name: &str) {
    let p = pawn_at(k);
    let w = 0x5100_0000 + weapon_index * 0x100;
    t.u64(BUCKET + 120 * weapon_index, w);
    t.u64(w + 0x10, w + 0x40);
    t.u64(w + 0x40 + 0x20, w + 0x80);
    t.cstr(w + 0x80, name);
    t.u64(p + 0x110, w);
    let ws = p + 0x600;
    t.u64(p + 0x128, ws);
    t.u64(ws + 0x20, 1);
    t.u64(ws + 0x28, ws + 0x100);
    t.u32(ws + 0x100, 0x8000 | weapon_index as u32);
}

fn alive(name: &'static str, team: u8) -> Spec {
    Spec { name, team, health: 100, armor: 0, money: 800, life: 0 }
}

#[test]
fn idle_main_menu_yields_no_players() {
    let mut t = empty_world();
    let c = 0x3F00_0000;
    t.u64(LOCAL_GLOBAL, c);
    t.u32(c + 0x60, 200);
    t.u64(BUCKET + 120 * 200, 0x4F00_0000);
    t.u64(0x4F00_0000 + 0x130, 0);
    let g = game();
    let players = t.tick(&g).unwrap();
    assert!(players.is_empty());
    assert!(alive_players(players).is_empty());
}

#[test]
fn warmup_two_bots() {
    let mut t = empty_world();
    add_player(&mut t, 1, &alive("BotT", 2));
    add_player(&mut t, 2, &alive("BotCT", 3));
    t.u64(LOCAL_GLOBAL, controller_at(1));
    let g = game();
    let players = alive_players(t.tick(&g).unwrap());
    assert_eq!(players.len(), 2);
    assert_eq!(players[0].team, Team::Terrorist);
    assert_eq!(players[1].team, Team::CounterTerrorist);
    for p in &players {
        assert_eq!(p.life_state, LifeState::Alive);
        assert!(!p.has_defuser);
    }
    assert_eq!(players[0].name, b"BotT".to_vec());
    assert_eq!(players[1].name, b"BotCT".to_vec());
}

#[test]
fn local_player_alive_unarmored_rich() {
    let mut t = empty_world();
    add_player(&mut t, 1, &Spec { name: "me", team: 3, health: 100, armor: 0, money: 16000, life: 0 });
    add_player(&mut t, 2, &alive("other", 2));
    t.u64(LOCAL_GLOBAL, controller_at(1));
    let g = game();
    let players = alive_players(t.tick(&g).unwrap());
    let me: Vec<&Player> = players.iter().filter(|p| p.is_local_player).collect();
    assert_eq!(me.len(), 1);
    assert!(me[0].active_player);
    assert_eq!(me[0].armor, 0);
    assert_eq!(me[0].money, 16000);
    assert!(!players[1].active_player);
    assert_eq!(players[0].steam_id, 76561198000000001);
    assert_eq!(players[0].ping, 25);
    assert_eq!(players[0].color, 3);
    assert_eq!(players[0].position.x, 0x3F80_0000);
    assert_eq!(players[0].position.z, 0x4040_0000);
    assert_eq!(players[0].rotation, 0x42B4_0000);
}

#[test]
fn dead_local_player_spectates_teammate() {
    let mut t = empty_world();
    add_player(&mut t, 1, &Spec { name: "me", team: 2, health: 0, armor: 0, money: 0, life: 2 });
    add_player(&mut t, 2, &alive("mate", 2));
    t.u64(LOCAL_GLOBAL, controller_at(1));
    let obs = pawn_at(1) + 0x700;
    t.u64(pawn_at(1) + 0x130, obs);
    t.u32(obs + 0x44, 0x10000 | pawn_handle(2));
    let g = game();
    let all = t.tick(&g).unwrap();
    assert_eq!(all.len(), 2);
    assert!(all[0].is_local_player);
    assert!(!all[0].active_player);
    assert!(all[1].active_player);
    let shown = alive_players(all);
    assert_eq!(shown.len(), 1);
    assert_eq!(shown[0].name, b"mate".to_vec());
    assert!(shown[0].active_player);
}

#[test]
fn weapon_field_is_designer_name() {
    let mut t = empty_world();
    add_player(&mut t, 1, &alive("me", 3));
    give_weapon(&mut t, 1, 300, "weapon_ak47");
    t.u64(LOCAL_GLOBAL, controller_at(1));
    let g = game();
    let players = t.tick(&g).unwrap();
    assert_eq!(players[0].weapon, b"weapon_ak47".to_vec());
    assert_eq!(players[0].weapons, vec![b"weapon_ak47".to_vec()]);
}

#[test]
fn missing_weapon_reads_unknown() {
    let mut t = empty_world();
    add_player(&mut t, 1, &alive("me", 3));
    t.u64(LOCAL_GLOBAL, controller_at(1));
    let g = game();
    let players = t.tick(&g).unwrap();
    assert_eq!(players[0].weapon, b"Unknown".to_vec());
    assert!(players[0].weapons.is_empty());
}

#[test]
fn out_of_range_values_become_zero() {
    let mut t = empty_world();
    add_player(&mut t, 1, &Spec { name: "x", team: 2, health: 150, armor: -5, money: 100000, life: 9 });
    t.u64(LOCAL_GLOBAL, controller_at(1));
    let g = game();
    let players = t.tick(&g).unwrap();
    assert_eq!(players[0].health, 0);
    assert_eq!(players[0].armor, 0);
    assert_eq!(players[0].money, 0);
    assert_eq!(players[0].life_state, LifeState::Dead);
}

#[test]
fn invalid_team_byte_skips_player() {
    let mut t = empty_world();
    add_player(&mut t, 1, &alive("ok", 1));
    add_player(&mut t, 2, &alive("bad", 7));
    t.u64(LOCAL_GLOBAL, controller_at(1));
    let g = game();
    let players = t.tick(&g).unwrap();
    assert_eq!(players.len(), 1);
    assert_eq!(players[0].team, Team::Spectator);
}

#[test]
fn unreadable_player_is_skipped() {
    let mut t = empty_world();
    add_player(&mut t, 1, &alive("ok", 2));
    t.u64(BUCKET + 120 * 2, 0x3300_0000);
    t.u64(LOCAL_GLOBAL, controller_at(1));
    let g = game();
    let players = t.tick(&g).unwrap();
    assert_eq!(players.len(), 1);
}

#[test]
fn unreadable_local_controller_fails_tick() {
    let t = Target::new();
    let g = game();
    assert_eq!(t.tick(&g).unwrap_err(), Fault::Unreadable);
}

#[test]
fn missing_name_reads_unknown() {
    let mut t = empty_world();
    add_player(&mut t, 1, &alive("me", 2));
    t.u64(controller_at(1) + 0x68, 0);
    t.u64(LOCAL_GLOBAL, controller_at(1));
    let g = game();
    let players = t.tick(&g).unwrap();
    assert_eq!(players[0].name, b"Unknown".to_vec());
}

#[test]
fn clamped_getters() {
    let mut t = empty_world();
    add_player(&mut t, 1, &Spec { name: "x", team: 2, health: 101, armor: 100, money: 99999, life: 0 });
    let g = game();
    let mut mem = PageCache::new();
    for p in [pawn_at(1) / PAGE_SIZE, controller_at(1) / PAGE_SIZE] {
        mem.insert_page(p, t.pages.get(&p).cloned());
    }
    assert_eq!(g.get_health(&mem, pawn_at(1)), Ok(0));
    assert_eq!(g.get_armor(&mem, pawn_at(1)), Ok(100));
    assert_eq!(g.get_money(&mem, controller_at(1)), Ok(99999));
}

#[test]
fn poll_skips_without_subscribers() {
    assert_eq!(poll_action(0), PollAction::Idle);
    assert_eq!(poll_action(1), PollAction::Tick);
    assert_eq!(poll_action(16), PollAction::Tick);
}
