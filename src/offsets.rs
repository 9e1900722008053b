use vstd::prelude::*;
use vstd::string::StringSliceAdditionalSpecFns;
use crate::address::Address;
use crate::elf::{pattern_matches_at, ModuleImage};
use crate::interface::{get_interface_offset, get_relative_address, interface_address, relative_address, InterfaceError};
use crate::maps::{maps_module_base, module_base_from_maps, MapsError};
use crate::netvar::{found_before, scan_from, NetVarOffsets, NetvarField};
use crate::pages::{u64_at, Fault, PageCache, PageMap};

verus! {

pub const CLIENT_LIB: &'static str = "libclient.so";
pub const ENGINE_LIB: &'static str = "libengine2.so";
pub const TIER0_LIB: &'static str = "libtier0.so";
pub const RESOURCE_INTERFACE: &'static str = "GameResourceServiceClientV0";
pub const CONVAR_INTERFACE: &'static str = "VEngineCvar0";
/// Offset, in the resource service, of the pointer to the entity table.
pub const ENTITY_OFFSET: u64 = 0x50;
/// Offset of the players' sub-array within the entity table.
pub const PLAYER_LIST_OFFSET: u64 = 0x10;

/// Why offset resolution failed; every one of these ends startup.
#[derive(Debug, Clone, Copy, PartialEq, Eq, Structural)]
pub enum ResolveError {
    /// A module could not be located in the memory map.
    Maps(MapsError),
    /// A module was located at address zero.
    NullBase,
    /// Two of the modules were located at the same base.
    SharedBase,
    /// A module image handed in does not start at the module's base.
    ImageMismatch,
    /// Locating an interface failed.
    Interface(InterfaceError),
    /// No registry entry carries the interface's name.
    InterfaceNotFound,
    /// A read in the target failed, or needs a page not fetched yet.
    Fault(Fault),
    /// The local-controller instruction pattern does not occur in the client.
    PatternNotFound,
    /// The netvar scan left some field unset.
    NetvarsIncomplete,
}

impl ResolveError {
    /// The page that must be fetched before trying again, if that is why
    /// resolution stopped.
    pub fn missing_page(&self) -> (r: Option<u64>)
        ensures
            r == match *self {
                ResolveError::Fault(Fault::Missing(p)) => Some(p),
                ResolveError::Interface(InterfaceError::Fault(Fault::Missing(p))) => Some(p),
                _ => None::<u64>,
            },
    {
        match self {
            ResolveError::Fault(Fault::Missing(p)) => Some(*p),
            ResolveError::Interface(InterfaceError::Fault(Fault::Missing(p))) => Some(*p),
            _ => None,
        }
    }
}

/// Base addresses of the three modules the observer reads.
#[derive(Debug, Clone, Copy, Default)]
pub struct LibraryOffsets {
    pub client: Address,
    pub engine: Address,
    pub tier0: Address,
}

/// Addresses of the engine interfaces, resolved from the modules.
#[derive(Debug, Clone, Copy, Default)]
pub struct InterfaceOffsets {
    pub resource: Address,
    pub entity: Address,
    pub convar: Address,
    pub player: Address,
}

/// Addresses found by scanning code.
#[derive(Debug, Clone, Copy, Default)]
pub struct DirectOffsets {
    pub local_controller: Address,
}

/// Everything resolved once at startup.
#[derive(Debug, Clone, Copy, Default)]
pub struct Offsets {
    pub interface: InterfaceOffsets,
    pub library: LibraryOffsets,
    pub direct: DirectOffsets,
    pub network: NetVarOffsets,
}

/// A module's base from the memory map, refused when it is zero.
pub open spec fn module_base(maps: Seq<u8>, name: &str) -> Result<u64, ResolveError> {
    match maps_module_base(maps, name.spec_bytes()) {
        Err(e) => Err(ResolveError::Maps(e)),
        Ok(b) => if b == 0 {
            Err(ResolveError::NullBase)
        } else {
            Ok(b)
        },
    }
}

/// An interface's address, refused when the registry does not hold it.
pub open spec fn interface_of(module: ModuleImage, m: PageMap, name: &str) -> Result<u64, ResolveError> {
    match interface_address(module.base, module.bytes@, m, name.spec_bytes()) {
        Err(e) => Err(ResolveError::Interface(e)),
        Ok(None) => Err(ResolveError::InterfaceNotFound),
        Ok(Some(a)) => Ok(a),
    }
}

/// The instruction that reads the local player controller:
/// `cmp qword ptr [rip + disp32], 0; setne al; ret`.
pub open spec fn local_controller_pattern() -> Seq<u8> {
    seq![0x48u8, 0x83, 0x3D, 0x00, 0x00, 0x00, 0x00, 0x00, 0x0F, 0x95, 0xC0, 0xC3]
}

/// Mask of that instruction: the displacement and the immediate are free.
pub open spec fn local_controller_mask() -> Seq<u8> {
    seq![0x78u8, 0x78, 0x78, 0x3F, 0x3F, 0x3F, 0x3F, 0x78, 0x78, 0x78, 0x78, 0x78]
}

fn resolve_module(maps: &[u8], name: &str) -> (r: Result<u64, ResolveError>)
    ensures
        r == module_base(maps@, name),
{
    match module_base_from_maps(maps, name.as_bytes()) {
        Err(e) => Err(ResolveError::Maps(e)),
        Ok(b) => if b == 0 {
            Err(ResolveError::NullBase)
        } else {
            Ok(b)
        },
    }
}

fn resolve_interface(module: &ModuleImage, mem: &PageCache, name: &str) -> (r: Result<u64, ResolveError>)
    ensures
        r == interface_of(*module, mem@, name),
{
    match get_interface_offset(module, mem, name.as_bytes()) {
        Err(e) => Err(ResolveError::Interface(e)),
        Ok(None) => Err(ResolveError::InterfaceNotFound),
        Ok(Some(a)) => Ok(a),
    }
}

/// The three module bases, client, engine and tier0, from a memory-map
/// listing; the first failure in that order, and bases that coincide, are
/// refused.
pub open spec fn library_bases(maps: Seq<u8>) -> Result<(u64, u64, u64), ResolveError> {
    let c = module_base(maps, CLIENT_LIB);
    let e = module_base(maps, ENGINE_LIB);
    let t = module_base(maps, TIER0_LIB);
    if c is Err {
        Err(c->Err_0)
    } else if e is Err {
        Err(e->Err_0)
    } else if t is Err {
        Err(t->Err_0)
    } else if c->Ok_0 == e->Ok_0 || c->Ok_0 == t->Ok_0 || e->Ok_0 == t->Ok_0 {
        Err(ResolveError::SharedBase)
    } else {
        Ok((c->Ok_0, e->Ok_0, t->Ok_0))
    }
}

/// The resource service, the entity table it points to, and the convar
/// registry, in that order.
pub open spec fn interfaces_of(engine: ModuleImage, tier0: ModuleImage, m: PageMap) -> Result<(u64, u64, u64), ResolveError> {
    let res = interface_of(engine, m, RESOURCE_INTERFACE);
    if res is Err {
        Err(res->Err_0)
    } else {
        let entity = u64_at(m, res->Ok_0.wrapping_add(ENTITY_OFFSET));
        if entity is Err {
            Err(ResolveError::Fault(entity->Err_0))
        } else {
            let convar = interface_of(tier0, m, CONVAR_INTERFACE);
            if convar is Err {
                Err(convar->Err_0)
            } else {
                Ok((res->Ok_0, entity->Ok_0, convar->Ok_0))
            }
        }
    }
}

/// `i` is the first offset of the client at which the local-controller
/// instruction occurs.
pub open spec fn first_local_controller_match(s: Seq<u8>, i: int) -> bool {
    &&& pattern_matches_at(s, i, local_controller_pattern(), local_controller_mask())
    &&& forall|k: int| 0 <= k < i ==> !pattern_matches_at(s, k, local_controller_pattern(), local_controller_mask())
}

/// The local-controller pointer: the RIP-relative operand of the first
/// occurrence of the local-controller instruction in the client.
pub open spec fn local_controller_of(client: ModuleImage, m: PageMap) -> Result<u64, ResolveError> {
    if exists|i: int| first_local_controller_match(client.bytes@, i) {
        let i = choose|i: int| first_local_controller_match(client.bytes@, i);
        match relative_address(m, client.base.wrapping_add(i as u64), 3, 8) {
            Ok(v) => Ok(v),
            Err(f) => Err(ResolveError::Fault(f)),
        }
    } else {
        Err(ResolveError::PatternNotFound)
    }
}

/// Whether the netvar scan of the client finds every field.
pub open spec fn netvars_found(client: ModuleImage) -> bool {
    forall|f: NetvarField| #[trigger] scan_from(client.base, client.bytes@, f, 0) != 0
}

/// The first phase that fails, in the order library, image check,
/// interfaces, local controller, netvars; `None` when all succeed.
pub open spec fn resolution_failure(
    maps: Seq<u8>,
    client: ModuleImage,
    engine: ModuleImage,
    tier0: ModuleImage,
    m: PageMap,
) -> Option<ResolveError> {
    let lib = library_bases(maps);
    if lib is Err {
        Some(lib->Err_0)
    } else if client.base != lib->Ok_0.0 || engine.base != lib->Ok_0.1 || tier0.base != lib->Ok_0.2 {
        Some(ResolveError::ImageMismatch)
    } else if interfaces_of(engine, tier0, m) is Err {
        Some(interfaces_of(engine, tier0, m)->Err_0)
    } else if local_controller_of(client, m) is Err {
        Some(local_controller_of(client, m)->Err_0)
    } else if !netvars_found(client) {
        Some(ResolveError::NetvarsIncomplete)
    } else {
        None
    }
}

impl LibraryOffsets {
    /// Takes the three module bases from a memory-map listing; on failure
    /// nothing is changed.
    pub fn set_offsets(&mut self, maps: &[u8]) -> (r: Result<(), ResolveError>)
        ensures
            r is Ok <==> library_bases(maps@) is Ok,
            r is Ok ==> library_bases(maps@) == Ok::<(u64, u64, u64), ResolveError>(
                (final(self).client.0, final(self).engine.0, final(self).tier0.0),
            ),
            r matches Err(e) ==> *final(self) == *old(self) && library_bases(maps@) == Err::<
                (u64, u64, u64),
                ResolveError,
            >(e),
    {
        let client = resolve_module(maps, CLIENT_LIB)?;
        let engine = resolve_module(maps, ENGINE_LIB)?;
        let tier0 = resolve_module(maps, TIER0_LIB)?;
        if client == engine || client == tier0 || engine == tier0 {
            return Err(ResolveError::SharedBase);
        }
        self.client = Address(client);
        self.engine = Address(engine);
        self.tier0 = Address(tier0);
        Ok(())
    }
}

impl InterfaceOffsets {
    /// Resolves the resource service in `engine`, the entity table it points
    /// to, and the convar registry in `tier0`; the player list sits `0x10`
    /// into the entity table. On failure nothing is changed.
    pub fn set_offsets(&mut self, engine: &ModuleImage, tier0: &ModuleImage, mem: &PageCache) -> (r: Result<(), ResolveError>)
        ensures
            r is Ok <==> interfaces_of(*engine, *tier0, mem@) is Ok,
            r is Ok ==> {
                &&& interfaces_of(*engine, *tier0, mem@) == Ok::<(u64, u64, u64), ResolveError>(
                    (final(self).resource.0, final(self).entity.0, final(self).convar.0),
                )
                &&& final(self).player.0 == final(self).entity.0.wrapping_add(PLAYER_LIST_OFFSET)
            },
            r matches Err(e) ==> *final(self) == *old(self) && interfaces_of(*engine, *tier0, mem@) == Err::<
                (u64, u64, u64),
                ResolveError,
            >(e),
    {
        let resource = resolve_interface(engine, mem, RESOURCE_INTERFACE)?;
        let entity = match mem.read_u64(resource.wrapping_add(ENTITY_OFFSET)) {
            Ok(v) => v,
            Err(f) => {
                return Err(ResolveError::Fault(f));
            },
        };
        let convar = resolve_interface(tier0, mem, CONVAR_INTERFACE)?;
        self.resource = Address(resource);
        self.entity = Address(entity);
        self.player = Address(entity.wrapping_add(PLAYER_LIST_OFFSET));
        self.convar = Address(convar);
        Ok(())
    }
}

impl DirectOffsets {
    /// Finds the instruction that reads the local player controller in the
    /// client and resolves its RIP-relative operand; on failure nothing is
    /// changed.
    pub fn set_offsets(&mut self, client: &ModuleImage, mem: &PageCache) -> (r: Result<(), ResolveError>)
        ensures
            r is Ok <==> local_controller_of(*client, mem@) is Ok,
            r is Ok ==> local_controller_of(*client, mem@) == Ok::<u64, ResolveError>(final(self).local_controller.0),
            r matches Err(e) ==> *final(self) == *old(self) && local_controller_of(*client, mem@) == Err::<
                u64,
                ResolveError,
            >(e),
    {
        let pattern: Vec<u8> = vec![0x48, 0x83, 0x3D, 0x00, 0x00, 0x00, 0x00, 0x00, 0x0F, 0x95, 0xC0, 0xC3];
        let mask: Vec<u8> = vec![0x78, 0x78, 0x78, 0x3F, 0x3F, 0x3F, 0x3F, 0x78, 0x78, 0x78, 0x78, 0x78];
        assert(pattern@ =~= local_controller_pattern());
        assert(mask@ =~= local_controller_mask());
        let ghost s = client.bytes@;
        let found = match client.scan_pattern(pattern.as_slice(), mask.as_slice()) {
            Ok(Some(a)) => a,
            _ => {
                proof {
                    if exists|i: int| first_local_controller_match(s, i) {
                        let i = choose|i: int| first_local_controller_match(s, i);
                        assert(pattern_matches_at(s, i, local_controller_pattern(), local_controller_mask()));
                    }
                }
                return Err(ResolveError::PatternNotFound);
            },
        };
        proof {
            let i = choose|i: int|
                pattern_matches_at(s, i, local_controller_pattern(), local_controller_mask())
                && (forall|k: int| 0 <= k < i ==> !pattern_matches_at(s, k, local_controller_pattern(), local_controller_mask()))
                && found == client.base.wrapping_add(i as u64);
            assert(first_local_controller_match(s, i));
            let c = choose|c: int| first_local_controller_match(s, c);
            if c < i {
                assert(!pattern_matches_at(s, c, local_controller_pattern(), local_controller_mask()));
            } else if i < c {
                assert(!pattern_matches_at(s, i, local_controller_pattern(), local_controller_mask()));
            }
            assert(c == i);
        }
        match get_relative_address(mem, found, 3, 8) {
            Ok(v) => {
                self.local_controller = Address(v);
                Ok(())
            },
            Err(f) => Err(ResolveError::Fault(f)),
        }
    }
}

/// The netvar phase: a scan from an empty table, refused unless it finds
/// every field.
fn resolve_netvars(client: &ModuleImage) -> (r: Result<NetVarOffsets, ResolveError>)
    ensures
        r matches Ok(n) ==> n.is_complete() && forall|f: NetvarField| #[trigger] n.value(f) == scan_from(
            client.base,
            client.bytes@,
            f,
            0,
        ),
        r is Err <==> !netvars_found(*client),
        r matches Err(e) ==> e == ResolveError::NetvarsIncomplete,
{
    let mut network = NetVarOffsets::new();
    let ghost empty = network;
    network.set_offsets(client);
    assert forall|f: NetvarField| #[trigger] network.value(f) == scan_from(client.base, client.bytes@, f, 0) by {
        assert(found_before(empty, client.base, client.bytes@, f, 0) == network.value(f));
        assert(empty.value(f) == 0);
    }
    if !network.complete() {
        proof {
            let f = choose|f: NetvarField| #[trigger] network.value(f) == 0;
            assert(scan_from(client.base, client.bytes@, f, 0) == 0);
        }
        return Err(ResolveError::NetvarsIncomplete);
    }
    assert forall|f: NetvarField| #[trigger] scan_from(client.base, client.bytes@, f, 0) != 0 by {
        assert(network.value(f) != 0);
    }
    Ok(network)
}

impl Offsets {
    /// Whether the offsets are fit for the per-tick walk: the module bases
    /// are set and distinct, the player list sits `0x10` into the entity
    /// table, and every netvar offset was found.
    pub open spec fn is_resolved(&self) -> bool {
        &&& self.library.client.0 != 0
        &&& self.library.engine.0 != 0
        &&& self.library.tier0.0 != 0
        &&& self.library.client.0 != self.library.engine.0
        &&& self.library.client.0 != self.library.tier0.0
        &&& self.library.engine.0 != self.library.tier0.0
        &&& self.interface.player.0 == self.interface.entity.0.wrapping_add(PLAYER_LIST_OFFSET)
        &&& self.network.is_complete()
    }

    /// Runs the phases in order: module bases from the memory-map listing
    /// `maps`, interfaces, the local-controller pointer, and the netvar scan
    /// of the client image. The module images must be those of the bases the
    /// listing gives. The first phase that fails decides the error; on
    /// success every field is what its phase gives.
    pub fn find_offsets(
        maps: &[u8],
        client: &ModuleImage,
        engine: &ModuleImage,
        tier0: &ModuleImage,
        mem: &PageCache,
    ) -> (r: Result<Offsets, ResolveError>)
        ensures
            r is Ok <==> resolution_failure(maps@, *client, *engine, *tier0, mem@) is None,
            r matches Err(e) ==> resolution_failure(maps@, *client, *engine, *tier0, mem@) == Some(e),
            r matches Ok(o) ==> {
                &&& o.is_resolved()
                &&& library_bases(maps@) == Ok::<(u64, u64, u64), ResolveError>(
                    (o.library.client.0, o.library.engine.0, o.library.tier0.0),
                )
                &&& interfaces_of(*engine, *tier0, mem@) == Ok::<(u64, u64, u64), ResolveError>(
                    (o.interface.resource.0, o.interface.entity.0, o.interface.convar.0),
                )
                &&& local_controller_of(*client, mem@) == Ok::<u64, ResolveError>(o.direct.local_controller.0)
                &&& forall|f: NetvarField| #[trigger] o.network.value(f) == scan_from(client.base, client.bytes@, f, 0)
            },
    {
        let mut offsets = Offsets {
            interface: InterfaceOffsets {
                resource: Address(0),
                entity: Address(0),
                convar: Address(0),
                player: Address(0),
            },
            library: LibraryOffsets { client: Address(0), engine: Address(0), tier0: Address(0) },
            direct: DirectOffsets { local_controller: Address(0) },
            network: NetVarOffsets::new(),
        };
        offsets.library.set_offsets(maps)?;
        if client.base != offsets.library.client.0 || engine.base != offsets.library.engine.0
            || tier0.base != offsets.library.tier0.0 {
            return Err(ResolveError::ImageMismatch);
        }
        offsets.interface.set_offsets(engine, tier0, mem)?;
        offsets.direct.set_offsets(client, mem)?;
        offsets.network = resolve_netvars(client)?;
        Ok(offsets)
    }
}

} // verus!
