use vstd::prelude::*;
use crate::memory::{c_string, c_string_at, check_elf_header, has_elf_magic, le_u32, le_u64, read_u64_vec, u32_from_le};

verus! {

/// Offset in the ELF header of the program header table's offset.
pub const PHT_OFFSET: u64 = 0x20;
/// Offset in the ELF header of the program header entry size.
pub const PHT_ENTRY_SIZE: u64 = 0x36;
/// Offset in the ELF header of the number of program headers.
pub const PHT_NUM_ENTRIES: u64 = 0x38;
/// Offset in the ELF header of the section header table's offset.
pub const SHT_OFFSET: u64 = 0x28;
/// Offset in the ELF header of the section header entry size.
pub const SHT_ENTRY_SIZE: u64 = 0x3A;
/// Offset in the ELF header of the number of section headers.
pub const SHT_NUM_ENTRIES: u64 = 0x3C;
/// Program header type of the dynamic segment.
pub const PT_DYNAMIC: u64 = 2;
/// Dynamic-section tag of the string table.
pub const DT_STRTAB: u64 = 5;
/// Dynamic-section tag of the symbol table.
pub const DT_SYMTAB: u64 = 6;
/// Size of one symbol table entry.
pub const SYMBOL_ENTRY_SIZE: u64 = 0x18;
/// Size of one dynamic-section entry (tag, value).
pub const DYNAMIC_ENTRY_SIZE: u64 = 0x10;

/// Why an ELF image could not be parsed.
#[derive(Debug, Clone, Copy, PartialEq, Eq, Structural)]
pub enum ElfError {
    /// The image does not start with the ELF magic.
    InvalidHeader,
    /// A structure points outside the image.
    Truncated,
    /// No program header has the requested type.
    SegmentNotFound,
    /// The dynamic section has no entry with the requested tag.
    TagNotFound,
    /// A pattern and its mask differ in length.
    MaskLength,
}

/// A snapshot of a loaded module: the bytes mapped from `base` on.
pub struct ModuleImage {
    pub base: u64,
    pub bytes: Vec<u8>,
}

/// The `u16` at offset `i` of `s`, little-endian.
pub open spec fn le_u16(s: Seq<u8>, i: int) -> u16 {
    (s[i] + s[i + 1] * 0x100) as u16
}

/// Whether the `n` bytes at absolute address `a` lie inside the image.
pub open spec fn in_image(base: u64, s: Seq<u8>, a: int, n: int) -> bool {
    base <= a && a - base + n <= s.len() && a + n <= u64::MAX
}

pub open spec fn image_u32(base: u64, s: Seq<u8>, a: int) -> Option<u32> {
    if in_image(base, s, a, 4) {
        Some(le_u32(s, a - base))
    } else {
        None
    }
}

pub open spec fn image_u64(base: u64, s: Seq<u8>, a: int) -> Option<u64> {
    if in_image(base, s, a, 8) {
        Some(le_u64(s, a - base))
    } else {
        None
    }
}

/// The NUL-terminated string at absolute address `a`, cut at the image end;
/// empty when `a` lies outside the image.
pub open spec fn image_string(base: u64, s: Seq<u8>, a: int) -> Seq<u8> {
    c_string(s, a - base)
}

/// Size of a module from its ELF header: the section header table is the
/// last thing in the file, so the size is its offset plus its length.
pub open spec fn module_size_of(h: Seq<u8>) -> Option<u64> {
    if h.len() < 0x3E {
        None
    } else {
        let size = le_u64(h, 0x28) + le_u16(h, 0x3A) * le_u16(h, 0x3C);
        if size > u64::MAX {
            None
        } else {
            Some(size as u64)
        }
    }
}

/// Computes the size of a module from the first bytes of its image: the
/// section header table's offset plus entry size times entry count.
/// `None` when `header` is too short for those fields or the sum overflows.
pub fn module_size(header: &[u8]) -> (r: Option<u64>)
    ensures
        r == module_size_of(header@),
{
    if header.len() < 0x3E {
        return None;
    }
    let sh_off = read_u64_vec(header, SHT_OFFSET);
    let entry_size = header[0x3A] as u64 + header[0x3B] as u64 * 0x100;
    let num_entries = header[0x3C] as u64 + header[0x3D] as u64 * 0x100;
    assert(entry_size * num_entries <= 0xFFFF * 0xFFFF) by (nonlinear_arith)
        requires
            entry_size <= 0xFFFF,
            num_entries <= 0xFFFF,
    ;
    let table = entry_size * num_entries;
    if sh_off > u64::MAX - table {
        return None;
    }
    Some(sh_off + table)
}

/// Absolute address of the `i`-th program header.
pub open spec fn pht_entry(base: u64, s: Seq<u8>, i: int) -> u64 {
    let first = le_u64(s, PHT_OFFSET as int).wrapping_add(base);
    first.wrapping_add((le_u16(s, PHT_ENTRY_SIZE as int) as u64).wrapping_mul(i as u64))
}

/// Whether the `i`-th program header has type `tag`.
pub open spec fn pht_entry_has_type(base: u64, s: Seq<u8>, i: int, tag: u64) -> bool {
    match image_u32(base, s, pht_entry(base, s, i) as int) {
        Some(t) => t as u64 == tag,
        None => false,
    }
}

/// The `i`-th program header is the first one of type `tag`.
pub open spec fn first_pht_entry(base: u64, s: Seq<u8>, i: int, tag: u64) -> bool {
    &&& 0 <= i < le_u16(s, PHT_NUM_ENTRIES as int)
    &&& pht_entry_has_type(base, s, i, tag)
    &&& forall|j: int| 0 <= j < i ==> !pht_entry_has_type(base, s, j, tag)
}

/// The walk over the dynamic section from the entry at `a` on.
pub open spec fn dynamic_scan(base: u64, s: Seq<u8>, a: int, tag: u64) -> Result<Option<u64>, ElfError>
    decreases base + s.len() + DYNAMIC_ENTRY_SIZE - a,
{
    if !in_image(base, s, a, 8) {
        Err(ElfError::Truncated)
    } else {
        let t = le_u64(s, a - base);
        if t == 0 {
            Ok(None)
        } else if t == tag {
            if in_image(base, s, a + 8, 8) {
                Ok(Some(le_u64(s, a - base + 8)))
            } else {
                Err(ElfError::Truncated)
            }
        } else {
            dynamic_scan(base, s, a + DYNAMIC_ENTRY_SIZE, tag)
        }
    }
}

/// Value of the first dynamic-section entry with tag `tag`, if any.
pub open spec fn dynamic_value(base: u64, s: Seq<u8>, tag: u64) -> Result<Option<u64>, ElfError> {
    if s.len() < 0x3A {
        Err(ElfError::Truncated)
    } else if !exists|i: int| first_pht_entry(base, s, i, PT_DYNAMIC) {
        Err(ElfError::SegmentNotFound)
    } else {
        let i = choose|i: int| first_pht_entry(base, s, i, PT_DYNAMIC);
        let segment = pht_entry(base, s, i);
        match image_u64(base, s, segment + 16) {
            None => Err(ElfError::Truncated),
            Some(vaddr) => dynamic_scan(base, s, vaddr.wrapping_add(base) as int, tag),
        }
    }
}

/// The walk over the symbol table from the entry at `a` on.
pub open spec fn symbol_scan(base: u64, s: Seq<u8>, strtab: u64, a: int, name: Seq<u8>) -> Result<Option<u64>, ElfError>
    decreases base + s.len() + SYMBOL_ENTRY_SIZE - a,
{
    match image_u32(base, s, a) {
        None => Err(ElfError::Truncated),
        Some(st_name) => if st_name == 0 {
            Ok(None)
        } else if image_string(base, s, strtab.wrapping_add(st_name as u64) as int) == name {
            match image_u64(base, s, a + 8) {
                Some(v) => Ok(Some(v.wrapping_add(base))),
                None => Err(ElfError::Truncated),
            }
        } else {
            symbol_scan(base, s, strtab, a + SYMBOL_ENTRY_SIZE, name)
        },
    }
}

/// Address of the exported symbol `name`, found through the dynamic symbol
/// table; `Ok(None)` when no symbol has that name.
pub open spec fn export_address(base: u64, s: Seq<u8>, name: Seq<u8>) -> Result<Option<u64>, ElfError> {
    if !has_elf_magic(s) {
        Err(ElfError::InvalidHeader)
    } else {
        match dynamic_value(base, s, DT_STRTAB) {
            Err(e) => Err(e),
            Ok(None) => Err(ElfError::TagNotFound),
            Ok(Some(strtab)) => match dynamic_value(base, s, DT_SYMTAB) {
                Err(e) => Err(e),
                Ok(None) => Err(ElfError::TagNotFound),
                Ok(Some(symtab)) => symbol_scan(base, s, strtab, symtab + SYMBOL_ENTRY_SIZE, name),
            },
        }
    }
}

/// Whether `pattern` matches `s` at offset `i`, where only the positions
/// whose mask byte is `'x'` must be equal.
pub open spec fn pattern_matches_at(s: Seq<u8>, i: int, pattern: Seq<u8>, mask: Seq<u8>) -> bool {
    &&& 0 <= i
    &&& i + pattern.len() <= s.len()
    &&& forall|j: int| 0 <= j < pattern.len() && mask[j] == 0x78 ==> s[i + j] == pattern[j]
}

impl ModuleImage {
    pub fn u32_at(&self, a: u64) -> (r: Option<u32>)
        ensures
            r == image_u32(self.base, self.bytes@, a as int),
    {
        if a < self.base || a > u64::MAX - 4 || a - self.base > self.bytes.len() as u64
            || self.bytes.len() as u64 - (a - self.base) < 4 {
            return None;
        }
        let o = (a - self.base) as usize;
        Some(u32_from_le(self.bytes[o], self.bytes[o + 1], self.bytes[o + 2], self.bytes[o + 3]))
    }

    pub fn u64_at(&self, a: u64) -> (r: Option<u64>)
        ensures
            r == image_u64(self.base, self.bytes@, a as int),
    {
        if a < self.base || a > u64::MAX - 8 || a - self.base > self.bytes.len() as u64
            || self.bytes.len() as u64 - (a - self.base) < 8 {
            return None;
        }
        Some(read_u64_vec(self.bytes.as_slice(), a - self.base))
    }

    pub fn string_at(&self, a: u64) -> (r: Vec<u8>)
        ensures
            r@ == image_string(self.base, self.bytes@, a as int),
    {
        if a < self.base || a - self.base >= self.bytes.len() as u64 {
            return Vec::new();
        }
        c_string_at(self.bytes.as_slice(), (a - self.base) as usize)
    }

    /// Address of the first program header of type `tag`.
    pub fn get_segment_from_pht(&self, tag: u64) -> (r: Option<u64>)
        ensures
            match r {
                Some(e) => self.bytes@.len() >= 0x3A && exists|i: int|
                    first_pht_entry(self.base, self.bytes@, i, tag) && e == pht_entry(self.base, self.bytes@, i),
                None => self.bytes@.len() < 0x3A || forall|i: int|
                    0 <= i < le_u16(self.bytes@, PHT_NUM_ENTRIES as int) ==> !pht_entry_has_type(self.base, self.bytes@, i, tag),
            },
    {
        if self.bytes.len() < 0x3A {
            return None;
        }
        let first = read_u64_vec(self.bytes.as_slice(), PHT_OFFSET).wrapping_add(self.base);
        let entry_size = self.bytes[0x36] as u64 + self.bytes[0x37] as u64 * 0x100;
        let num_entries = self.bytes[0x38] as u64 + self.bytes[0x39] as u64 * 0x100;
        let ghost s = self.bytes@;
        assert(entry_size == le_u16(s, PHT_ENTRY_SIZE as int));
        assert(num_entries == le_u16(s, PHT_NUM_ENTRIES as int));
        let mut i: u64 = 0;
        while i < num_entries
            invariant
                s == self.bytes@,
                s.len() >= 0x3A,
                first == le_u64(s, PHT_OFFSET as int).wrapping_add(self.base),
                entry_size == le_u16(s, PHT_ENTRY_SIZE as int),
                num_entries == le_u16(s, PHT_NUM_ENTRIES as int),
                i <= num_entries,
                forall|j: int| 0 <= j < i ==> !pht_entry_has_type(self.base, s, j, tag),
            decreases num_entries - i,
        {
            let entry = first.wrapping_add(entry_size.wrapping_mul(i));
            assert(entry == pht_entry(self.base, s, i as int));
            match self.u32_at(entry) {
                Some(t) => {
                    if t as u64 == tag {
                        assert(first_pht_entry(self.base, s, i as int, tag));
                        return Some(entry);
                    }
                },
                None => {},
            }
            i = i + 1;
        }
        None
    }

    /// Value of the first entry with tag `tag` in the dynamic section; the
    /// value is used as it stands, already an absolute address.
    pub fn get_address_from_dynamic_section(&self, tag: u64) -> (r: Result<Option<u64>, ElfError>)
        ensures
            r == dynamic_value(self.base, self.bytes@, tag),
    {
        let ghost s = self.bytes@;
        if self.bytes.len() < 0x3A {
            return Err(ElfError::Truncated);
        }
        let segment = match self.get_segment_from_pht(PT_DYNAMIC) {
            Some(e) => e,
            None => {
                return Err(ElfError::SegmentNotFound);
            },
        };
        proof {
            let i = choose|i: int| first_pht_entry(self.base, s, i, PT_DYNAMIC) && segment == pht_entry(self.base, s, i);
            let k = choose|k: int| first_pht_entry(self.base, s, k, PT_DYNAMIC);
            if i < k {
                assert(!pht_entry_has_type(self.base, s, i, PT_DYNAMIC));
            } else if k < i {
                assert(!pht_entry_has_type(self.base, s, k, PT_DYNAMIC));
            }
        }
        if segment > u64::MAX - 16 {
            return Err(ElfError::Truncated);
        }
        let vaddr = match self.u64_at(segment + 16) {
            Some(v) => v,
            None => {
                return Err(ElfError::Truncated);
            },
        };
        let mut a: u64 = vaddr.wrapping_add(self.base);
        loop
            invariant
                s == self.bytes@,
                dynamic_value(self.base, s, tag) == dynamic_scan(self.base, s, a as int, tag),
            decreases self.base + s.len() + DYNAMIC_ENTRY_SIZE - a,
        {
            let t = match self.u64_at(a) {
                Some(t) => t,
                None => {
                    return Err(ElfError::Truncated);
                },
            };
            if t == 0 {
                return Ok(None);
            }
            if t == tag {
                return match self.u64_at(a + 8) {
                    Some(v) => Ok(Some(v)),
                    None => Err(ElfError::Truncated),
                };
            }
            if a > u64::MAX - DYNAMIC_ENTRY_SIZE {
                assert(dynamic_scan(self.base, s, a + DYNAMIC_ENTRY_SIZE, tag) == Err::<Option<u64>, ElfError>(ElfError::Truncated));
                return Err(ElfError::Truncated);
            }
            a = a + DYNAMIC_ENTRY_SIZE;
        }
    }

    /// Address of the exported symbol `name`, found through the dynamic
    /// symbol table and relocated by the module base.
    pub fn get_module_export(&self, name: &[u8]) -> (r: Result<Option<u64>, ElfError>)
        ensures
            r == export_address(self.base, self.bytes@, name@),
    {
        let ghost s = self.bytes@;
        if !check_elf_header(self.bytes.as_slice()) {
            return Err(ElfError::InvalidHeader);
        }
        let strtab = match self.get_address_from_dynamic_section(DT_STRTAB) {
            Err(e) => {
                return Err(e);
            },
            Ok(None) => {
                return Err(ElfError::TagNotFound);
            },
            Ok(Some(v)) => v,
        };
        let symtab = match self.get_address_from_dynamic_section(DT_SYMTAB) {
            Err(e) => {
                return Err(e);
            },
            Ok(None) => {
                return Err(ElfError::TagNotFound);
            },
            Ok(Some(v)) => v,
        };
        if symtab > u64::MAX - SYMBOL_ENTRY_SIZE {
            return Err(ElfError::Truncated);
        }
        let mut a: u64 = symtab + SYMBOL_ENTRY_SIZE;
        loop
            invariant
                s == self.bytes@,
                export_address(self.base, s, name@) == symbol_scan(self.base, s, strtab, a as int, name@),
            decreases self.base + s.len() + SYMBOL_ENTRY_SIZE - a,
        {
            let st_name = match self.u32_at(a) {
                Some(v) => v,
                None => {
                    return Err(ElfError::Truncated);
                },
            };
            if st_name == 0 {
                return Ok(None);
            }
            let symbol = self.string_at(strtab.wrapping_add(st_name as u64));
            if bytes_equal(symbol.as_slice(), name) {
                if a > u64::MAX - 16 {
                    return Err(ElfError::Truncated);
                }
                return match self.u64_at(a + 8) {
                    Some(v) => Ok(Some(v.wrapping_add(self.base))),
                    None => Err(ElfError::Truncated),
                };
            }
            if a > u64::MAX - SYMBOL_ENTRY_SIZE {
                assert(symbol_scan(self.base, s, strtab, a + SYMBOL_ENTRY_SIZE, name@) == Err::<Option<u64>, ElfError>(ElfError::Truncated));
                return Err(ElfError::Truncated);
            }
            a = a + SYMBOL_ENTRY_SIZE;
        }
    }

    /// Address of the first offset at which `pattern` matches the image,
    /// comparing only where the mask holds `'x'`.
    pub fn scan_pattern(&self, pattern: &[u8], mask: &[u8]) -> (r: Result<Option<u64>, ElfError>)
        ensures
            pattern@.len() != mask@.len() ==> r == Err::<Option<u64>, ElfError>(ElfError::MaskLength),
            pattern@.len() == mask@.len() ==> match r {
                Ok(Some(addr)) => exists|i: int|
                    pattern_matches_at(self.bytes@, i, pattern@, mask@)
                    && (forall|k: int| 0 <= k < i ==> !pattern_matches_at(self.bytes@, k, pattern@, mask@))
                    && addr == self.base.wrapping_add(i as u64),
                Ok(None) => forall|k: int| !pattern_matches_at(self.bytes@, k, pattern@, mask@),
                Err(_) => false,
            },
    {
        if pattern.len() != mask.len() {
            return Err(ElfError::MaskLength);
        }
        let n = self.bytes.len();
        let m = pattern.len();
        if n < m {
            return Ok(None);
        }
        let mut i: usize = 0;
        while i <= n - m
            invariant
                n == self.bytes@.len(),
                m == pattern@.len(),
                m == mask@.len(),
                m <= n,
                i <= n - m + 1,
                forall|k: int| 0 <= k < i ==> !pattern_matches_at(self.bytes@, k, pattern@, mask@),
            decreases n - m + 1 - i,
        {
            let mut j: usize = 0;
            while j < m && (mask[j] != 0x78 || self.bytes[i + j] == pattern[j])
                invariant
                    n == self.bytes@.len(),
                    m == pattern@.len(),
                    m == mask@.len(),
                    i + m <= n,
                    j <= m,
                    forall|q: int| 0 <= q < j && mask@[q] == 0x78 ==> self.bytes@[i + q] == pattern@[q],
                decreases m - j,
            {
                j = j + 1;
            }
            let matched = j == m;
            if matched {
                assert(pattern_matches_at(self.bytes@, i as int, pattern@, mask@));
                return Ok(Some(self.base.wrapping_add(i as u64)));
            }
            assert(!pattern_matches_at(self.bytes@, i as int, pattern@, mask@));
            i = i + 1;
        }
        assert forall|k: int| !pattern_matches_at(self.bytes@, k, pattern@, mask@) by {
            if 0 <= k < i {
            }
        }
        Ok(None)
    }
}

/// Byte-wise equality of two slices.
pub fn bytes_equal(a: &[u8], b: &[u8]) -> (r: bool)
    ensures
        r == (a@ == b@),
{
    if a.len() != b.len() {
        return false;
    }
    let mut i: usize = 0;
    while i < a.len()
        invariant
            a@.len() == b@.len(),
            i <= a@.len(),
            forall|k: int| 0 <= k < i ==> a@[k] == b@[k],
        decreases a@.len() - i,
    {
        if a[i] != b[i] {
            return false;
        }
        i = i + 1;
    }
    assert(a@ =~= b@);
    true
}

} // verus!
