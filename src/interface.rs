use vstd::prelude::*;
use vstd::string::StringSliceAdditionalSpecFns;
use crate::elf::{export_address, ElfError, ModuleImage};
use crate::pages::{i32_at, string_at, u32_at, u64_at, Fault, PageCache, PageMap};

verus! {

/// Bound on the registry walk. No acyclic list in a 64-bit address space has
/// this many entries, so only a cyclic registry reaches it.
pub const MAX_INTERFACE_ENTRIES: u64 = 0xFFFF_FFFF_FFFF_FFFF;

/// Why an interface could not be located.
#[derive(Debug, Clone, Copy, PartialEq, Eq, Structural)]
pub enum InterfaceError {
    /// A read in the target failed, or needs a page not fetched yet.
    Fault(Fault),
    /// The module's ELF structures could not be parsed.
    Elf(ElfError),
    /// The module does not export `CreateInterface`.
    NoCreateInterface,
}

/// Target of an x86-64 RIP-relative operand: the end of the instruction plus
/// the sign-extended displacement, wrapping.
pub open spec fn rip_target(instruction: u64, size: u64, displacement: i32) -> u64 {
    instruction.wrapping_add(size).wrapping_add(displacement as u64)
}

/// RIP-relative resolution of the operand at `instruction + offset`.
pub open spec fn relative_address(m: PageMap, instruction: u64, offset: u64, size: u64) -> Result<u64, Fault> {
    match i32_at(m, instruction.wrapping_add(offset)) {
        Ok(d) => Ok(rip_target(instruction, size, d)),
        Err(f) => Err(f),
    }
}

/// Computes the target of a RIP-relative operand from its displacement.
pub fn rip_resolve(instruction: u64, size: u64, displacement: i32) -> (r: u64)
    ensures
        r == rip_target(instruction, size, displacement),
{
    instruction.wrapping_add(size).wrapping_add(displacement as u64)
}

/// Reads the signed 32-bit displacement at `instruction + offset` and
/// resolves it against the end of the instruction, `instruction + size`.
pub fn get_relative_address(mem: &PageCache, instruction: u64, offset: u64, size: u64) -> (r: Result<u64, Fault>)
    ensures
        r == relative_address(mem@, instruction, offset, size),
{
    match mem.read_i32(instruction.wrapping_add(offset)) {
        Ok(d) => Ok(rip_resolve(instruction, size, d)),
        Err(f) => Err(f),
    }
}

/// Whether `s` starts with `prefix`.
pub open spec fn has_prefix(s: Seq<u8>, prefix: Seq<u8>) -> bool {
    prefix.len() <= s.len() && s.subrange(0, prefix.len() as int) == prefix
}

/// What one registry entry gives: the interface's address when its name
/// starts with `name`, else the next entry.
pub enum RegistryStep {
    Found(u64),
    Next(u64),
}

/// One step of the registry walk at `entry`: each entry holds its create
/// function at `+0x00`, its name pointer at `+0x08` and the next entry at
/// `+0x10`.
pub open spec fn registry_step(m: PageMap, entry: u64, name: Seq<u8>) -> Result<RegistryStep, Fault> {
    match u64_at(m, entry.wrapping_add(8)) {
        Err(f) => Err(f),
        Ok(name_ptr) => match string_at(m, name_ptr) {
            Err(f) => Err(f),
            Ok(entry_name) => if has_prefix(entry_name, name) {
                match u64_at(m, entry) {
                    Err(f) => Err(f),
                    Ok(create) => match relative_address(m, create, 3, 7) {
                        Err(f) => Err(f),
                        Ok(v) => Ok(RegistryStep::Found(v)),
                    },
                }
            } else {
                match u64_at(m, entry.wrapping_add(0x10)) {
                    Err(f) => Err(f),
                    Ok(next) => Ok(RegistryStep::Next(next)),
                }
            },
        },
    }
}

/// The walk over the registry from `entry` on, with at most `budget` more
/// entries, until a null entry or a match.
pub open spec fn registry_walk(m: PageMap, entry: u64, name: Seq<u8>, budget: nat) -> Result<Option<u64>, Fault>
    decreases budget,
{
    if entry == 0 || budget == 0 {
        Ok(None)
    } else {
        match registry_step(m, entry, name) {
            Err(f) => Err(f),
            Ok(RegistryStep::Found(v)) => Ok(Some(v)),
            Ok(RegistryStep::Next(next)) => registry_walk(m, next, name, (budget - 1) as nat),
        }
    }
}

fn registry_step_exec(mem: &PageCache, entry: u64, name: &[u8]) -> (r: Result<RegistryStep, Fault>)
    ensures
        r == registry_step(mem@, entry, name@),
{
    let name_ptr = mem.read_u64(entry.wrapping_add(8))?;
    let entry_name = match mem.read_string(name_ptr) {
        Err(f) => {
            return Err(f);
        },
        Ok(s) => s,
    };
    if starts_with(entry_name.as_slice(), name) {
        let create_fn = mem.read_u64(entry)?;
        let v = get_relative_address(mem, create_fn, 3, 7)?;
        Ok(RegistryStep::Found(v))
    } else {
        let next = mem.read_u64(entry.wrapping_add(0x10))?;
        Ok(RegistryStep::Next(next))
    }
}

/// Head of the interface registry, from the address of `CreateInterface`.
pub open spec fn registry_head(m: PageMap, create_interface: u64) -> Result<u64, Fault> {
    match relative_address(m, create_interface, 1, 5) {
        Err(f) => Err(f),
        Ok(t) => {
            let head = t.wrapping_add(0x10);
            match u32_at(m, head.wrapping_add(3)) {
                Err(f) => Err(f),
                Ok(d) => u64_at(m, head.wrapping_add(7).wrapping_add(d as u64)),
            }
        },
    }
}

pub open spec fn lift_fault(r: Result<Option<u64>, Fault>) -> Result<Option<u64>, InterfaceError> {
    match r {
        Err(f) => Err(InterfaceError::Fault(f)),
        Ok(v) => Ok(v),
    }
}

/// The address of the interface whose registry name starts with `name`.
pub open spec fn interface_address(base: u64, s: Seq<u8>, m: PageMap, name: Seq<u8>) -> Result<Option<u64>, InterfaceError> {
    match export_address(base, s, "CreateInterface".spec_bytes()) {
        Err(e) => Err(InterfaceError::Elf(e)),
        Ok(None) => Err(InterfaceError::NoCreateInterface),
        Ok(Some(create)) => match registry_head(m, create) {
            Err(f) => Err(InterfaceError::Fault(f)),
            Ok(first) => lift_fault(registry_walk(m, first, name, MAX_INTERFACE_ENTRIES as nat)),
        },
    }
}

fn starts_with(s: &[u8], prefix: &[u8]) -> (r: bool)
    ensures
        r == has_prefix(s@, prefix@),
{
    if prefix.len() > s.len() {
        return false;
    }
    let mut i: usize = 0;
    while i < prefix.len()
        invariant
            prefix@.len() <= s@.len(),
            i <= prefix@.len(),
            forall|k: int| 0 <= k < i ==> s@[k] == prefix@[k],
        decreases prefix@.len() - i,
    {
        if s[i] != prefix[i] {
            assert(s@.subrange(0, prefix@.len() as int)[i as int] != prefix@[i as int]);
            return false;
        }
        i = i + 1;
    }
    assert(s@.subrange(0, prefix@.len() as int) =~= prefix@);
    true
}

/// Locates an interface through the module's `CreateInterface` export: the
/// export's RIP-relative operand leads to the registry, a linked list whose
/// entry names are matched by prefix; the matching entry's create function
/// holds the interface's address as a RIP-relative operand.
pub fn get_interface_offset(module: &ModuleImage, mem: &PageCache, name: &[u8]) -> (r: Result<Option<u64>, InterfaceError>)
    ensures
        r == interface_address(module.base, module.bytes@, mem@, name@),
{
    let create = match module.get_module_export("CreateInterface".as_bytes()) {
        Err(e) => {
            return Err(InterfaceError::Elf(e));
        },
        Ok(None) => {
            return Err(InterfaceError::NoCreateInterface);
        },
        Ok(Some(a)) => a,
    };
    let first = match registry_head_exec(mem, create) {
        Err(f) => {
            return Err(InterfaceError::Fault(f));
        },
        Ok(e) => e,
    };
    let mut entry = first;
    let mut budget: u64 = MAX_INTERFACE_ENTRIES;
    loop
        invariant
            interface_address(module.base, module.bytes@, mem@, name@) == lift_fault(
                registry_walk(mem@, entry, name@, budget as nat),
            ),
        decreases budget,
    {
        if entry == 0 || budget == 0 {
            return Ok(None);
        }
        match registry_step_exec(mem, entry, name) {
            Err(f) => {
                return Err(InterfaceError::Fault(f));
            },
            Ok(RegistryStep::Found(v)) => {
                return Ok(Some(v));
            },
            Ok(RegistryStep::Next(next)) => {
                entry = next;
            },
        }
        budget = budget - 1;
    }
}

fn registry_head_exec(mem: &PageCache, create_interface: u64) -> (r: Result<u64, Fault>)
    ensures
        r == registry_head(mem@, create_interface),
{
    let t = get_relative_address(mem, create_interface, 1, 5)?;
    let head = t.wrapping_add(0x10);
    let d = mem.read_u32(head.wrapping_add(3))?;
    mem.read_u64(head.wrapping_add(7).wrapping_add(d as u64))
}

} // verus!
