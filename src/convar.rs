use vstd::prelude::*;
use crate::pages::{string_at, u64_at, Fault, PageCache, PageMap};

verus! {

/// Offset, in the convar registry, of the pointer to its object array.
pub const CONVAR_OBJECTS_OFFSET: u64 = 0x40;
/// Offset, in the convar registry, of the number of objects.
pub const CONVAR_COUNT_OFFSET: u64 = 0xA0;
/// Offset of a convar's value string in its descriptor.
pub const CONVAR_VALUE_OFFSET: u64 = 64;

/// A convar's name and the address of its descriptor.
#[derive(Debug)]
pub struct ConvarEntry {
    pub name: Vec<u8>,
    pub descriptor: u64,
}

/// Convars by name, in the order they were recorded; a later entry with the
/// same name replaces an earlier one.
#[derive(Debug)]
pub struct ConvarMap {
    entries: Vec<ConvarEntry>,
}

/// The descriptor recorded last under `name`.
pub open spec fn lookup(entries: Seq<(Seq<u8>, u64)>, name: Seq<u8>) -> Option<u64>
    decreases entries.len(),
{
    if entries.len() == 0 {
        None
    } else if entries.last().0 == name {
        Some(entries.last().1)
    } else {
        lookup(entries.drop_last(), name)
    }
}

/// The registry's convars from object `i` on: each object's first word
/// points to its name; a null object ends the list.
pub open spec fn convars_from(m: PageMap, objects: u64, count: u64, i: u64) -> Result<Seq<(Seq<u8>, u64)>, Fault>
    decreases count - i,
{
    if i >= count {
        Ok(Seq::empty())
    } else {
        match u64_at(m, objects.wrapping_add(i.wrapping_mul(0x10))) {
            Err(f) => Err(f),
            Ok(object) => if object == 0 {
                Ok(Seq::empty())
            } else {
                match u64_at(m, object) {
                    Err(f) => Err(f),
                    Ok(name_ptr) => match string_at(m, name_ptr) {
                        Err(f) => Err(f),
                        Ok(name) => match convars_from(m, objects, count, (i + 1) as u64) {
                            Err(f) => Err(f),
                            Ok(rest) => Ok(seq![(name, object)] + rest),
                        },
                    },
                }
            },
        }
    }
}

/// The convars of the registry at `registry`.
pub open spec fn registry_convars(m: PageMap, registry: u64) -> Result<Seq<(Seq<u8>, u64)>, Fault> {
    match u64_at(m, registry.wrapping_add(CONVAR_OBJECTS_OFFSET)) {
        Err(f) => Err(f),
        Ok(objects) => match u64_at(m, registry.wrapping_add(CONVAR_COUNT_OFFSET)) {
            Err(f) => Err(f),
            Ok(count) => convars_from(m, objects, count, 0),
        },
    }
}

impl ConvarMap {
    pub closed spec fn view(&self) -> Seq<(Seq<u8>, u64)> {
        self.entries@.map_values(|e: ConvarEntry| (e.name@, e.descriptor))
    }

    pub fn new() -> (r: ConvarMap)
        ensures
            r.view() == Seq::<(Seq<u8>, u64)>::empty(),
    {
        let r = ConvarMap { entries: Vec::new() };
        assert(r.view() =~= Seq::<(Seq<u8>, u64)>::empty());
        r
    }

    pub fn insert(&mut self, name: Vec<u8>, descriptor: u64)
        ensures
            final(self).view() == old(self).view().push((name@, descriptor)),
    {
        self.entries.push(ConvarEntry { name, descriptor });
        assert(self.view() =~= old(self).view().push((name@, descriptor)));
    }

    /// Records the entries of `other` after those already held, so that they
    /// replace earlier entries of the same names.
    pub fn extend(&mut self, other: ConvarMap)
        ensures
            final(self).view() == old(self).view() + other.view(),
    {
        let ghost added = other.view();
        let mut other = other;
        self.entries.append(&mut other.entries);
        assert(self.view() =~= old(self).view() + added);
    }

    pub fn len(&self) -> (r: usize)
        ensures
            r == self.view().len(),
    {
        self.entries.len()
    }

    /// The descriptor recorded last under `name`.
    pub fn get(&self, name: &[u8]) -> (r: Option<u64>)
        ensures
            r == lookup(self.view(), name@),
    {
        let mut i: usize = self.entries.len();
        assert(self.view().take(i as int) =~= self.view());
        while i > 0
            invariant
                i <= self.entries@.len(),
                self.view().len() == self.entries@.len(),
                lookup(self.view(), name@) == lookup(self.view().take(i as int), name@),
            decreases i,
        {
            let e = &self.entries[i - 1];
            let ghost t = self.view().take(i as int);
            assert(t.drop_last() =~= self.view().take(i - 1));
            if crate::elf::bytes_equal(e.name.as_slice(), name) {
                return Some(e.descriptor);
            }
            i = i - 1;
        }
        assert(self.view().take(0) =~= Seq::<(Seq<u8>, u64)>::empty());
        None
    }

    /// Reads every convar of the registry at `registry`.
    pub fn read(mem: &PageCache, registry: u64) -> (r: Result<ConvarMap, Fault>)
        ensures
            match r {
                Ok(c) => registry_convars(mem@, registry) == Ok::<Seq<(Seq<u8>, u64)>, Fault>(c.view()),
                Err(f) => registry_convars(mem@, registry) == Err::<Seq<(Seq<u8>, u64)>, Fault>(f),
            },
    {
        let objects = mem.read_u64(registry.wrapping_add(CONVAR_OBJECTS_OFFSET))?;
        let count = mem.read_u64(registry.wrapping_add(CONVAR_COUNT_OFFSET))?;
        let mut map = ConvarMap::new();
        let mut i: u64 = 0;
        while i < count
            invariant
                i <= count,
                match convars_from(mem@, objects, count, i) {
                    Ok(rest) => registry_convars(mem@, registry) == Ok::<Seq<(Seq<u8>, u64)>, Fault>(map.view() + rest),
                    Err(f) => registry_convars(mem@, registry) == Err::<Seq<(Seq<u8>, u64)>, Fault>(f),
                },
            decreases count - i,
        {
            let object = mem.read_u64(objects.wrapping_add(i.wrapping_mul(0x10)))?;
            if object == 0 {
                assert(map.view() + Seq::<(Seq<u8>, u64)>::empty() =~= map.view());
                return Ok(map);
            }
            let name_ptr = mem.read_u64(object)?;
            let name = match mem.read_string(name_ptr) {
                Ok(n) => n,
                Err(f) => {
                    return Err(f);
                },
            };
            let ghost prev = map.view();
            let ghost entry = (name@, object);
            map.insert(name, object);
            i = i + 1;
            proof {
                match convars_from(mem@, objects, count, i) {
                    Ok(rest) => {
                        assert(prev + (seq![entry] + rest) =~= map.view() + rest);
                    },
                    Err(f) => {},
                }
            }
        }
        assert(map.view() + Seq::<(Seq<u8>, u64)>::empty() =~= map.view());
        Ok(map)
    }
}

} // verus!
