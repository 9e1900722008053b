use make_it_fair::address::Address;
use make_it_fair::convar::ConvarMap;
use make_it_fair::elf::ModuleImage;
use make_it_fair::game::Cs2Interface;
use make_it_fair::maps::{module_base_from_maps, MapsError};
use make_it_fair::memory::{read_string_vec, read_u32_vec, read_u64_vec};
use make_it_fair::netvar::{eq_ignore_ascii_case, NetVarOffsets, NetvarField};
use make_it_fair::offsets::{DirectOffsets, LibraryOffsets, Offsets, ResolveError};
use make_it_fair::pages::{Fault, PageCache, PAGE_SIZE};

const MAPS: &str = "55d0c0000000-55d0c0001000 r--p 00000000 fd:01 123 /usr/bin/cs2\n\
7f10aa000000-7f10aa100000 r--p 00000000 fd:01 456 /game/bin/linuxsteamrt64/libtier0.so\n\
7f20bb000000-7f20bb100000 r--p 00000000 fd:01 789 /game/csgo/bin/linuxsteamrt64/libclient.so\n\
7f20bb100000-7f20bb200000 r-xp 00100000 fd:01 789 /game/csgo/bin/linuxsteamrt64/libclient.so\n\
7f30cc000000-7f30cc100000 r--p 00000000 fd:01 999 /game/bin/linuxsteamrt64/libengine2.so\n";

fn put(b: &mut [u8], at: usize, v: &[u8]) {
    b[at..at + v.len()].copy_from_slice(v);
}

fn cstr(b: &mut [u8], at: usize, s: &str) {
    put(b, at, s.as_bytes());
    b[at + s.len()] = 0;
}

fn cache_of(base: u64, bytes: &[u8]) -> PageCache {
    let mut mem = PageCache::new();
    add_pages(&mut mem, base, bytes);
    mem
}

fn add_pages(mem: &mut PageCache, base: u64, bytes: &[u8]) {
    for (i, chunk) in bytes.chunks(PAGE_SIZE as usize).enumerate() {
        mem.insert_page(base / PAGE_SIZE + i as u64, Some(chunk.to_vec()));
    }
}

#[test]
fn maps_first_matching_line_gives_base() {
    assert_eq!(module_base_from_maps(MAPS.as_bytes(), b"libclient.so"), Ok(0x7f20bb000000));
    assert_eq!(module_base_from_maps(MAPS.as_bytes(), b"libengine2.so"), Ok(0x7f30cc000000));
    assert_eq!(module_base_from_maps(MAPS.as_bytes(), b"libtier0.so"), Ok(0x7f10aa000000));
}

#[test]
fn maps_missing_module_and_bad_line() {
    assert_eq!(module_base_from_maps(MAPS.as_bytes(), b"libserver.so"), Err(MapsError::ModuleNotFound));
    assert_eq!(module_base_from_maps(b"", b"libclient.so"), Err(MapsError::ModuleNotFound));
    assert_eq!(module_base_from_maps(b"zz-10 libclient.so\n", b"libclient.so"), Err(MapsError::BadAddress));
    assert_eq!(module_base_from_maps(b"1000 libclient.so", b"libclient.so"), Err(MapsError::BadAddress));
    assert_eq!(
        module_base_from_maps(b"11112222333344445-0 libclient.so", b"libclient.so"),
        Err(MapsError::BadAddress)
    );
    assert_eq!(module_base_from_maps(b"ABCDEF-0 libclient.so", b"libclient.so"), Ok(0xABCDEF));
}

#[test]
fn library_offsets_from_maps() {
    let mut lib = LibraryOffsets { client: Address(0), engine: Address(0), tier0: Address(0) };
    assert_eq!(lib.set_offsets(MAPS.as_bytes()), Ok(()));
    assert_eq!(lib.client, Address(0x7f20bb000000));
    assert_eq!(lib.engine, Address(0x7f30cc000000));
    assert_eq!(lib.tier0, Address(0x7f10aa000000));
    let mut lib2 = LibraryOffsets { client: Address(1), engine: Address(2), tier0: Address(3) };
    assert_eq!(lib2.set_offsets(b"0-1000 libclient.so\n"), Err(ResolveError::NullBase));
    assert_eq!(lib2.client, Address(1));
    let shared = "7f00-8000 r--p libclient.so\n7f00-8000 r--p libengine2.so\n1000-2000 r--p libtier0.so\n";
    assert_eq!(lib2.set_offsets(shared.as_bytes()), Err(ResolveError::SharedBase));
    assert_eq!(lib2.engine, Address(2));
}

#[test]
fn buffer_reads_are_little_endian() {
    let b = [1u8, 2, 3, 4, 5, 6, 7, 8, 9];
    assert_eq!(read_u64_vec(&b, 0), 0x0807060504030201);
    assert_eq!(read_u64_vec(&b, 1), 0x0908070605040302);
    assert_eq!(read_u32_vec(&b, 2), Address(0x06050403));
    assert_eq!(read_string_vec(b"ab\0cd", 0), "ab");
    assert_eq!(read_string_vec(b"ab\0cd", 3), "cd");
    assert_eq!(read_string_vec(b"ab", 5), "");
}

#[test]
fn address_arithmetic_wraps() {
    assert!(Address::null().is_null());
    assert!(!Address(5).is_null());
    assert_eq!(Address(0).non_null(), None);
    assert_eq!(Address(7).non_null(), Some(Address(7)));
    assert!(Address(1).is_valid());
    assert_eq!(Address(u64::MAX).add(Address(2)), Address(1));
    assert_eq!(Address(1).sub(Address(2)), Address(u64::MAX));
    assert_eq!(Address(0x10).mul(Address(8)), Address(0x80));
    assert_eq!(Address(0x1234).shr(9), Address(0x9));
    assert_eq!(Address(0x1234).bitand(Address(0x1FF)), Address(0x34));
    assert_eq!(Address(3).shl(4), Address(0x30));
    assert_eq!(Address(17).rem(Address(5)), Address(2));
    assert_eq!(Address(17).div(Address(5)), Address(3));
    assert_eq!(u64::from(Address::from(42u64)), 42);
}

#[test]
fn case_insensitive_marker_match() {
    assert!(eq_ignore_ascii_case(b"mnetworkenable", b"MNetworkEnable"));
    assert!(!eq_ignore_ascii_case(b"MNetworkEnabl", b"MNetworkEnable"));
    assert!(!eq_ignore_ascii_case(b"MNetworkEnablf", b"MNetworkEnable"));
}

const CLIENT: u64 = 0x7f20bb000000;

/// A client image with netvar records (from the top down) and the
/// local-controller instruction at 0x100.
fn client_module() -> Vec<u8> {
    let mut b = vec![0u8; 0x4000];
    let rec = |b: &mut Vec<u8>, i: usize, enable: bool, name_at: usize, disp: usize, value: u32| {
        if enable {
            put(b, i, &(CLIENT + 0x3000).to_le_bytes());
            put(b, i + 8, &(CLIENT + name_at as u64).to_le_bytes());
        } else {
            put(b, i, &(CLIENT + name_at as u64).to_le_bytes());
        }
        put(b, i + disp, &value.to_le_bytes());
    };
    put(&mut b, 0x3000, &(CLIENT + 0x3010).to_le_bytes());
    cstr(&mut b, 0x3010, "MNetworkEnable");
    let names: [(&str, bool, usize); 22] = [
        ("m_sSanitizedPlayerName", true, 0x18),
        ("m_hPawn", true, 0x18),
        ("m_iCompTeammateColor", false, 0x10),
        ("m_iPing", true, 0x18),
        ("m_pInGameMoneyServices", false, 0x10),
        ("m_steamID", true, 0x18),
        ("m_iHealth", true, 0x18),
        ("m_ArmorValue", true, 0x18),
        ("m_iTeamNum", true, 0x18),
        ("m_lifeState", true, 0x18),
        ("m_pClippingWeapon", false, 0x10),
        ("m_vOldOrigin", false, 0x08),
        ("m_angEyeAngles", false, 0x10),
        ("m_pWeaponServices", false, 0x08),
        ("m_pObserverServices", false, 0x08),
        ("m_pItemServices", false, 0x08),
        ("m_hActiveWeapon", true, 0x18),
        ("m_hMyWeapons", false, 0x08),
        ("m_iAccount", false, 0x10),
        ("m_hObserverTarget", false, 0x08),
        ("m_bHasDefuser", false, 0x10),
        ("m_bHasHelmet", true, 0x18),
    ];
    for (n, (name, enable, disp)) in names.iter().enumerate() {
        let name_at = 0x3100 + n * 0x20;
        cstr(&mut b, name_at, name);
        rec(&mut b, 0x2000 + n * 0x40, *enable, name_at, *disp, 0x100 + n as u32 * 4);
    }
    // A lower record for the same field loses against the one above it.
    rec(&mut b, 0x1800, true, 0x3100 + 6 * 0x20, 0x18, 0xDEAD);
    // The local-controller instruction; its operand points at 0x200 past it.
    put(&mut b, 0x100, &[0x48, 0x83, 0x3D, 0xF8, 0x01, 0x00, 0x00, 0x00, 0x0F, 0x95, 0xC0, 0xC3]);
    b
}

#[test]
fn netvar_scan_reads_each_layout() {
    let img = ModuleImage { base: CLIENT, bytes: client_module() };
    let mut n = NetVarOffsets::new();
    n.set_offsets(&img);
    assert!(n.complete());
    assert_eq!(n.controller.m_iszPlayerName, Address(0x100));
    assert_eq!(n.controller.m_hPawn, Address(0x104));
    assert_eq!(n.controller.m_iCompTeammateColor, Address(0x108));
    assert_eq!(n.pawn.m_iHealth, Address(0x118));
    assert_eq!(n.pawn.m_vOldOrigin, Address(0x12C));
    assert_eq!(n.weapon_service.m_hMyWeapons, Address(0x144));
    assert_eq!(n.item_service.m_bHasHelmet, Address(0x154));
    assert_eq!(n.get(NetvarField::Account), Address(0x148));
}

#[test]
fn netvar_scan_keeps_fields_already_set() {
    let img = ModuleImage { base: CLIENT, bytes: client_module() };
    let mut n = NetVarOffsets::new();
    n.set(NetvarField::Health, Address(0x777));
    n.set_offsets(&img);
    assert_eq!(n.pawn.m_iHealth, Address(0x777));
    assert_eq!(n.pawn.m_ArmorValue, Address(0x11C));
}

#[test]
fn netvar_scan_needs_marker_for_flagged_fields() {
    let mut b = client_module();
    put(&mut b, 0x3010, b"XNetworkEnable");
    let img = ModuleImage { base: CLIENT, bytes: b };
    let mut n = NetVarOffsets::new();
    n.set_offsets(&img);
    assert_eq!(n.controller.m_hPawn, Address(0));
    assert!(!n.complete());
}

#[test]
fn direct_offsets_resolve_local_controller() {
    let bytes = client_module();
    let img = ModuleImage { base: CLIENT, bytes: bytes.clone() };
    let mem = cache_of(CLIENT, &bytes);
    let mut d = DirectOffsets { local_controller: Address(0) };
    assert_eq!(d.set_offsets(&img, &mem), Ok(()));
    assert_eq!(d.local_controller, Address(CLIENT + 0x100 + 8 + 0x1F8));
    let empty = ModuleImage { base: CLIENT, bytes: vec![0u8; 64] };
    assert_eq!(d.set_offsets(&empty, &mem), Err(ResolveError::PatternNotFound));
}

#[test]
fn convar_registry_and_values() {
    let reg = 0x6000_0000u64;
    let mut page = vec![0u8; PAGE_SIZE as usize * 2];
    let o = |a: u64| (a - reg) as usize;
    put(&mut page, o(reg + 0x40), &(reg + 0x100).to_le_bytes());
    put(&mut page, o(reg + 0xA0), &3u64.to_le_bytes());
    for (i, name) in ["sv_cheats", "mp_roundtime", "sv_cheats"].iter().enumerate() {
        let obj = reg + 0x400 + i as u64 * 0x100;
        put(&mut page, o(reg + 0x100 + i as u64 * 0x10), &obj.to_le_bytes());
        put(&mut page, o(obj), &(obj + 0x80).to_le_bytes());
        cstr(&mut page, o(obj + 0x80), name);
        cstr(&mut page, o(obj + 64), &format!("value{}", i));
    }
    let mem = cache_of(reg, &page);
    let map = ConvarMap::read(&mem, reg).unwrap();
    assert_eq!(map.len(), 3);
    assert_eq!(map.get(b"mp_roundtime"), Some(reg + 0x500));
    assert_eq!(map.get(b"sv_cheats"), Some(reg + 0x600));
    assert_eq!(map.get(b"nope"), None);
    assert_eq!(ConvarMap::read(&PageCache::new(), reg).unwrap_err(), Fault::Missing(reg / PAGE_SIZE));
}

#[test]
fn convar_null_object_ends_list() {
    let reg = 0x6000_0000u64;
    let mut page = vec![0u8; PAGE_SIZE as usize];
    put(&mut page, 0x40, &(reg + 0x100).to_le_bytes());
    put(&mut page, 0xA0, &5u64.to_le_bytes());
    let mem = cache_of(reg, &page);
    assert_eq!(ConvarMap::read(&mem, reg).unwrap().len(), 0);
}

#[test]
fn game_interface_reads_convar_values() {
    let reg = 0x6000_0000u64;
    let mut page = vec![0u8; PAGE_SIZE as usize];
    put(&mut page, 0x40, &(reg + 0x100).to_le_bytes());
    put(&mut page, 0xA0, &1u64.to_le_bytes());
    put(&mut page, 0x100, &(reg + 0x400).to_le_bytes());
    put(&mut page, 0x400, &(reg + 0x480).to_le_bytes());
    cstr(&mut page, 0x480, "sv_cheats");
    cstr(&mut page, 0x400 + 64, "1");
    let mem = cache_of(reg, &page);
    let mut offsets = Offsets {
        interface: make_it_fair::offsets::InterfaceOffsets {
            resource: Address(0),
            entity: Address(0),
            convar: Address(reg),
            player: Address(0x10),
        },
        library: LibraryOffsets { client: Address(1), engine: Address(2), tier0: Address(3) },
        direct: DirectOffsets { local_controller: Address(0) },
        network: NetVarOffsets::new(),
    };
    let g = Cs2Interface::new(offsets, &mem).ok().unwrap();
    assert_eq!(g.get_convar_value_str(&mem, b"sv_cheats"), Ok(Some(b"1".to_vec())));
    assert_eq!(g.get_convar_value_str(&mem, b"sv_gravity"), Ok(None));
    offsets.interface.convar = Address(0);
    assert!(Cs2Interface::new(offsets, &mem).is_err());
}

#[test]
fn find_offsets_rejects_incomplete_maps() {
    let img = ModuleImage { base: CLIENT, bytes: client_module() };
    let mem = PageCache::new();
    let r = Offsets::find_offsets(b"7f20bb000000-7f20bb100000 r--p libclient.so\n", &img, &img, &img, &mem);
    assert_eq!(r.err(), Some(ResolveError::Maps(MapsError::ModuleNotFound)));
}
