use make_it_fair::elf::{module_size, ElfError, ModuleImage};
use make_it_fair::interface::{get_interface_offset, get_relative_address, rip_resolve, InterfaceError};
use make_it_fair::memory::check_elf_header;
use make_it_fair::offsets::{Offsets, ResolveError};
use make_it_fair::pages::{Fault, PageCache, PAGE_SIZE};

const BASE: u64 = 0x7000_0000;

fn put_u16(b: &mut Vec<u8>, at: usize, v: u16) {
    b[at..at + 2].copy_from_slice(&v.to_le_bytes());
}

fn put_u32(b: &mut Vec<u8>, at: usize, v: u32) {
    b[at..at + 4].copy_from_slice(&v.to_le_bytes());
}

fn put_u64(b: &mut Vec<u8>, at: usize, v: u64) {
    b[at..at + 8].copy_from_slice(&v.to_le_bytes());
}

fn put_str(b: &mut Vec<u8>, at: usize, s: &str) {
    b[at..at + s.len()].copy_from_slice(s.as_bytes());
    b[at + s.len()] = 0;
}

/// A small ELF image: two program headers (a load segment, then the
/// dynamic segment at 0x100), string table at 0x200, symbol table at 0x300
/// exporting `CreateInterface` at 0x400, and an interface registry.
fn fabricated_module() -> Vec<u8> {
    fabricated_module_at(BASE)
}

fn fabricated_module_at(base: u64) -> Vec<u8> {
    let mut b = vec![0u8; 0x2000];
    b[0..4].copy_from_slice(&[0x7f, b'E', b'L', b'F']);
    put_u64(&mut b, 0x20, 0x40);
    put_u16(&mut b, 0x36, 0x38);
    put_u16(&mut b, 0x38, 2);
    put_u64(&mut b, 0x28, 0x1F00);
    put_u16(&mut b, 0x3A, 0x40);
    put_u16(&mut b, 0x3C, 4);
    put_u32(&mut b, 0x40, 1);
    put_u32(&mut b, 0x78, 2);
    put_u64(&mut b, 0x78 + 16, 0x100);
    put_u64(&mut b, 0x100, 5);
    put_u64(&mut b, 0x108, base + 0x200);
    put_u64(&mut b, 0x110, 6);
    put_u64(&mut b, 0x118, base + 0x300);
    put_u64(&mut b, 0x120, 0);
    put_str(&mut b, 0x201, "CreateInterface");
    put_str(&mut b, 0x211, "Other");
    put_u32(&mut b, 0x318, 0x11);
    put_u64(&mut b, 0x320, 0x380);
    put_u32(&mut b, 0x330, 0x01);
    put_u64(&mut b, 0x338, 0x400);
    // CreateInterface: call with displacement 0x10; the registry head is
    // 0x10 past its target and refers to the first entry at 0x52C.
    b[0x400] = 0xE8;
    put_u32(&mut b, 0x401, 0x10);
    put_u32(&mut b, 0x425 + 3, 0x100);
    put_u64(&mut b, 0x52C, base + 0x600);
    // Two registry entries.
    put_u64(&mut b, 0x600, base + 0x700);
    put_u64(&mut b, 0x608, base + 0x680);
    put_u64(&mut b, 0x610, base + 0x640);
    put_u64(&mut b, 0x640, base + 0x720);
    put_u64(&mut b, 0x648, base + 0x6A0);
    put_u64(&mut b, 0x650, 0);
    put_str(&mut b, 0x680, "VEngineCvar007");
    put_str(&mut b, 0x6A0, "GameResourceServiceClientV001");
    // Create functions: lea rax, [rip + disp32].
    b[0x700..0x703].copy_from_slice(&[0x48, 0x8D, 0x05]);
    put_u32(&mut b, 0x703, 0x800);
    b[0x720..0x723].copy_from_slice(&[0x48, 0x8D, 0x05]);
    put_u32(&mut b, 0x723, 0x1000);
    b
}

fn image() -> ModuleImage {
    ModuleImage { base: BASE, bytes: fabricated_module() }
}

fn cache_of(base: u64, bytes: &[u8]) -> PageCache {
    let mut mem = PageCache::new();
    for (i, chunk) in bytes.chunks(PAGE_SIZE as usize).enumerate() {
        mem.insert_page(base / PAGE_SIZE + i as u64, Some(chunk.to_vec()));
    }
    mem
}

#[test]
fn elf_header_accepts_magic() {
    assert!(check_elf_header(&[0x7f, 0x45, 0x4c, 0x46]));
    assert!(check_elf_header(&[0x7f, 0x45, 0x4c, 0x46, 2, 1, 1]));
}

#[test]
fn elf_header_rejects_short_and_other() {
    assert!(!check_elf_header(&[]));
    assert!(!check_elf_header(&[0x7f, 0x45, 0x4c]));
    assert!(!check_elf_header(&[0x7f, 0x45, 0x4c, 0x47]));
    assert!(!check_elf_header(&[0x4d, 0x5a, 0x90, 0x00]));
}

#[test]
fn pattern_scan_strict_and_wildcard() {
    let img = ModuleImage { base: 0, bytes: vec![0x00, 0xAA, 0xCC, 0xBB, 0xAA, 0xDD, 0xBB] };
    assert_eq!(img.scan_pattern(&[0xAA, 0x00, 0xBB], b"xxx"), Ok(None));
    let img = ModuleImage { base: 0, bytes: vec![0x00, 0xAA, 0xCC, 0xBB, 0xAA, 0x00, 0xBB] };
    assert_eq!(img.scan_pattern(&[0xAA, 0x00, 0xBB], b"xxx"), Ok(Some(4)));
    assert_eq!(img.scan_pattern(&[0xAA, 0x00, 0xBB], b"x?x"), Ok(Some(1)));
}

#[test]
fn pattern_scan_adds_base_and_checks_lengths() {
    let img = ModuleImage { base: 0x1000, bytes: vec![1, 2, 3, 4] };
    assert_eq!(img.scan_pattern(&[3, 4], b"xx"), Ok(Some(0x1002)));
    assert_eq!(img.scan_pattern(&[3, 4], b"x"), Err(ElfError::MaskLength));
    assert_eq!(img.scan_pattern(&[1, 2, 3, 4, 5], b"xxxxx"), Ok(None));
}

#[test]
fn rip_resolve_positive_and_negative() {
    let mut page = vec![0u8; PAGE_SIZE as usize];
    page[0..5].copy_from_slice(&[0xE8, 0x05, 0x00, 0x00, 0x00]);
    page[0x10..0x15].copy_from_slice(&[0xE8, 0xFE, 0xFF, 0xFF, 0xFF]);
    let mut mem = PageCache::new();
    mem.insert_page(1, Some(page));
    assert_eq!(get_relative_address(&mem, 0x1000, 1, 5), Ok(0x100A));
    assert_eq!(get_relative_address(&mem, 0x1010, 1, 5), Ok(0x1013));
    assert_eq!(rip_resolve(0x1000, 5, -2), 0x1003);
    assert_eq!(get_relative_address(&mem, 0x2000, 1, 5), Err(Fault::Missing(2)));
}

#[test]
fn module_size_from_section_header_fields() {
    let b = fabricated_module();
    assert_eq!(module_size(&b[..0x40]), Some(0x1F00 + 0x40 * 4));
    assert_eq!(module_size(&b[..0x30]), None);
}

#[test]
fn pht_lookup_finds_dynamic_segment() {
    let img = image();
    assert_eq!(img.get_segment_from_pht(2), Some(BASE + 0x78));
    assert_eq!(img.get_segment_from_pht(1), Some(BASE + 0x40));
    assert_eq!(img.get_segment_from_pht(7), None);
}

#[test]
fn dynamic_section_gives_string_and_symbol_tables() {
    let img = image();
    assert_eq!(img.get_address_from_dynamic_section(5), Ok(Some(BASE + 0x200)));
    assert_eq!(img.get_address_from_dynamic_section(6), Ok(Some(BASE + 0x300)));
    assert_eq!(img.get_address_from_dynamic_section(7), Ok(None));
}

#[test]
fn dynamic_section_without_segment() {
    let mut b = fabricated_module();
    put_u32(&mut b, 0x78, 1);
    let img = ModuleImage { base: BASE, bytes: b };
    assert_eq!(img.get_address_from_dynamic_section(5), Err(ElfError::SegmentNotFound));
}

#[test]
fn export_lookup_relocates_symbol_value() {
    let img = image();
    assert_eq!(img.get_module_export(b"CreateInterface"), Ok(Some(BASE + 0x400)));
    assert_eq!(img.get_module_export(b"Other"), Ok(Some(BASE + 0x380)));
    assert_eq!(img.get_module_export(b"Missing"), Ok(None));
}

#[test]
fn export_lookup_rejects_bad_header() {
    let mut b = fabricated_module();
    b[1] = b'X';
    let img = ModuleImage { base: BASE, bytes: b };
    assert_eq!(img.get_module_export(b"CreateInterface"), Err(ElfError::InvalidHeader));
}

#[test]
fn interface_registry_walk_matches_by_prefix() {
    let img = image();
    let mem = cache_of(BASE, &img.bytes);
    assert_eq!(get_interface_offset(&img, &mem, b"GameResourceServiceClientV0"), Ok(Some(BASE + 0x727 + 0x1000)));
    assert_eq!(get_interface_offset(&img, &mem, b"VEngineCvar0"), Ok(Some(BASE + 0x707 + 0x800)));
    assert_eq!(get_interface_offset(&img, &mem, b"NoSuchInterface"), Ok(None));
}

#[test]
fn interface_walk_asks_for_missing_pages() {
    let img = image();
    let mem = PageCache::new();
    assert_eq!(
        get_interface_offset(&img, &mem, b"VEngineCvar0"),
        Err(InterfaceError::Fault(Fault::Missing(BASE / PAGE_SIZE)))
    );
}

const CLIENT: u64 = 0x7f20bb000000;

/// A client image holding one netvar record per field, each flagged record
/// behind an `MNetworkEnable` marker, and the local-controller instruction.
fn client_module() -> Vec<u8> {
    let mut b = vec![0u8; 0x4000];
    put_u64(&mut b, 0x3000, CLIENT + 0x3010);
    put_str(&mut b, 0x3010, "MNetworkEnable");
    let names: [(&str, bool, usize); 22] = [
        ("m_sSanitizedPlayerName", true, 0x18),
        ("m_hPawn", true, 0x18),
        ("m_iCompTeammateColor", false, 0x10),
        ("m_iPing", true, 0x18),
        ("m_pInGameMoneyServices", false, 0x10),
        ("m_steamID", true, 0x18),
        ("m_iHealth", true, 0x18),
        ("m_ArmorValue", true, 0x18),
        ("m_iTeamNum", true, 0x18),
        ("m_lifeState", true, 0x18),
        ("m_pClippingWeapon", false, 0x10),
        ("m_vOldOrigin", false, 0x08),
        ("m_angEyeAngles", false, 0x10),
        ("m_pWeaponServices", false, 0x08),
        ("m_pObserverServices", false, 0x08),
        ("m_pItemServices", false, 0x08),
        ("m_hActiveWeapon", true, 0x18),
        ("m_hMyWeapons", false, 0x08),
        ("m_iAccount", false, 0x10),
        ("m_hObserverTarget", false, 0x08),
        ("m_bHasDefuser", false, 0x10),
        ("m_bHasHelmet", true, 0x18),
    ];
    for (n, (name, enable, disp)) in names.iter().enumerate() {
        let name_at = 0x3100 + n * 0x20;
        put_str(&mut b, name_at, name);
        let i = 0x2000 + n * 0x40;
        if *enable {
            put_u64(&mut b, i, CLIENT + 0x3000);
            put_u64(&mut b, i + 8, CLIENT + name_at as u64);
        } else {
            put_u64(&mut b, i, CLIENT + name_at as u64);
        }
        put_u32(&mut b, i + disp, 0x100 + n as u32 * 4);
    }
    b[0x100..0x10C].copy_from_slice(&[0x48, 0x83, 0x3D, 0x00, 0x02, 0x00, 0x00, 0x00, 0x0F, 0x95, 0xC0, 0xC3]);
    b
}

#[test]
fn find_offsets_resolves_every_phase() {
    let mut engine_bytes = fabricated_module();
    put_u64(&mut engine_bytes, 0x1727 + 0x50, 0x2000_0000);
    let o = pipeline(engine_bytes, client_module()).ok().unwrap();
    assert_eq!(o.library.client.0, CLIENT);
    assert_eq!(o.library.engine.0, BASE);
    assert_eq!(o.library.tier0.0, TIER0);
    assert_eq!(o.interface.resource.0, BASE + 0x1727);
    assert_eq!(o.interface.entity.0, 0x2000_0000);
    assert_eq!(o.interface.player.0, 0x2000_0010);
    assert_eq!(o.interface.convar.0, TIER0 + 0xF07);
    assert_eq!(o.direct.local_controller.0, CLIENT + 0x108 + 0x200);
    assert!(o.network.complete());
    assert_eq!(o.network.pawn.m_iHealth.0, 0x118);
}

#[test]
fn find_offsets_refuses_shared_base() {
    let engine = image();
    let client = ModuleImage { base: CLIENT, bytes: client_module() };
    let mem = PageCache::new();
    let maps = "70000000-70002000 r--p libengine2.so\n70000000-70002000 r--p libtier0.so\n7f20bb000000-7f20bb004000 r--p libclient.so\n";
    let r = Offsets::find_offsets(maps.as_bytes(), &client, &engine, &engine, &mem);
    assert_eq!(r.err(), Some(ResolveError::SharedBase));
}

#[test]
fn find_offsets_reports_missing_local_controller() {
    let mut engine_bytes = fabricated_module();
    put_u64(&mut engine_bytes, 0x1727 + 0x50, 0x2000_0000);
    let mut c = client_module();
    c[0x10B] = 0x90;
    assert_eq!(pipeline(engine_bytes, c).err(), Some(ResolveError::PatternNotFound));
}

#[test]
fn find_offsets_refuses_mismatched_images() {
    let engine = image();
    let client = ModuleImage { base: CLIENT + 0x1000, bytes: client_module() };
    let mem = PageCache::new();
    let maps = "70000000-70002000 r--p libengine2.so\n71000000-71002000 r--p libtier0.so\n7f20bb000000-7f20bb004000 r--p libclient.so\n";
    let tier0 = ModuleImage { base: TIER0, bytes: fabricated_module_at(TIER0) };
    let r = Offsets::find_offsets(maps.as_bytes(), &client, &engine, &tier0, &mem);
    assert_eq!(r.err(), Some(ResolveError::ImageMismatch));
}

#[test]
fn short_image_is_truncated() {
    let img = ModuleImage { base: BASE, bytes: vec![0x7f, b'E', b'L', b'F', 0, 0, 0, 0] };
    assert_eq!(img.get_address_from_dynamic_section(5), Err(ElfError::Truncated));
    assert_eq!(img.get_module_export(b"CreateInterface"), Err(ElfError::Truncated));
}

#[test]
fn export_lookup_without_symbol_table() {
    let mut b = fabricated_module();
    put_u64(&mut b, 0x110, 7);
    let img = ModuleImage { base: BASE, bytes: b };
    assert_eq!(img.get_module_export(b"CreateInterface"), Err(ElfError::TagNotFound));
}

#[test]
fn interface_lookup_without_create_interface() {
    let mut b = fabricated_module();
    put_str(&mut b, 0x201, "CreateInterfacf");
    let img = ModuleImage { base: BASE, bytes: b.clone() };
    let mem = cache_of(BASE, &b);
    assert_eq!(get_interface_offset(&img, &mem, b"VEngineCvar0"), Err(InterfaceError::NoCreateInterface));
    let mut bad = b.clone();
    bad[0] = 0;
    let img = ModuleImage { base: BASE, bytes: bad };
    assert_eq!(get_interface_offset(&img, &mem, b"VEngineCvar0"), Err(InterfaceError::Elf(ElfError::InvalidHeader)));
}

const TIER0: u64 = 0x7100_0000;

fn pipeline(engine_bytes: Vec<u8>, client_bytes: Vec<u8>) -> Result<Offsets, ResolveError> {
    let tier0_bytes = fabricated_module_at(TIER0);
    let engine = ModuleImage { base: BASE, bytes: engine_bytes.clone() };
    let tier0 = ModuleImage { base: TIER0, bytes: tier0_bytes.clone() };
    let client = ModuleImage { base: CLIENT, bytes: client_bytes };
    let mut mem = cache_of(BASE, &engine_bytes);
    for (base, bytes) in [(TIER0, &tier0_bytes), (CLIENT, &client.bytes)] {
        for (i, chunk) in bytes.chunks(PAGE_SIZE as usize).enumerate() {
            mem.insert_page(base / PAGE_SIZE + i as u64, Some(chunk.to_vec()));
        }
    }
    let maps = "70000000-70002000 r--p libengine2.so\n71000000-71002000 r--p libtier0.so\n7f20bb000000-7f20bb004000 r--p libclient.so\n";
    Offsets::find_offsets(maps.as_bytes(), &client, &engine, &tier0, &mem)
}

#[test]
fn find_offsets_reports_missing_interface() {
    let mut b = fabricated_module();
    put_str(&mut b, 0x6A0, "SomethingElseV001");
    assert_eq!(pipeline(b, client_module()).err(), Some(ResolveError::InterfaceNotFound));
}

#[test]
fn find_offsets_reports_incomplete_netvars() {
    let mut b = fabricated_module();
    put_u64(&mut b, 0x1727 + 0x50, 0x2000_0000);
    let mut c = client_module();
    put_str(&mut c, 0x3010, "NoMarker");
    assert_eq!(pipeline(b, c).err(), Some(ResolveError::NetvarsIncomplete));
}

#[test]
fn find_offsets_reports_unreadable_entity_pointer() {
    let mut b = fabricated_module();
    put_u32(&mut b, 0x723, 0x1000_0000);
    assert_eq!(pipeline(b, client_module()).err(), Some(ResolveError::Fault(Fault::Missing((BASE + 0x727 + 0x1000_0000 + 0x50) / PAGE_SIZE))));
}
